//! What holds of the time stamps of a signature.
use crate::cbor;
use crate::container::TstContainer;
use crate::countersign;
use crate::countersign::ProtectedHeader;
use crate::error::Error;
use crate::rfc3161::TstInfoView;
use crate::verify;
use crate::verify::CoseValidator;
use vstd::prelude::*;

verus! {

/// Where the time stamps of a signature verify, there is one at least, and there are as many
/// statements as time stamps, each one that of the time stamp in the same place.
pub proof fn law_all_verified<V: CoseValidator>(
    tokens: Seq<Seq<u8>>,
    data: Seq<u8>,
    validator: V,
    infos: Seq<TstInfoView>,
    k: int,
)
    requires
        countersign::may_verify_all(tokens, data, validator, Ok::<_, Error>(infos)),
        0 <= k < tokens.len(),
    ensures
        infos.len() == tokens.len(),
        verify::may_verify(tokens[k], data, validator, Ok::<_, Error>(infos[k])),
{
    assert(countersign::all_verified(tokens, data, validator, infos));
    let t = tokens[k];
}

/// Statements of time stamps that may all verify may come of them together.
pub proof fn law_all_may_verify<V: CoseValidator>(
    tokens: Seq<Seq<u8>>,
    data: Seq<u8>,
    validator: V,
    infos: Seq<TstInfoView>,
)
    requires
        tokens.len() > 0,
        infos.len() == tokens.len(),
        forall|k: int|
            0 <= k < tokens.len() ==> verify::may_verify(
                #[trigger] tokens[k],
                data,
                validator,
                Ok::<_, Error>(infos[k]),
            ),
    ensures
        countersign::may_verify_all(tokens, data, validator, Ok::<_, Error>(infos)),
{
}

/// The error that comes of the time stamps of a signature is that of the first one that does not
/// verify; those before it do. Without time stamps it is that there are none.
pub proof fn law_first_error<V: CoseValidator>(
    tokens: Seq<Seq<u8>>,
    data: Seq<u8>,
    validator: V,
    e: Error,
)
    requires
        countersign::may_verify_all(tokens, data, validator, Err::<Seq<TstInfoView>, _>(e)),
    ensures
        tokens.len() == 0 ==> e == Error::NotFound,
        tokens.len() > 0 ==> exists|infos: Seq<TstInfoView>|
            #[trigger] infos.len() < tokens.len() && verify::may_verify(
                tokens[infos.len() as int],
                data,
                validator,
                Err::<TstInfoView, _>(e),
            ) && (forall|j: int|
                0 <= j < infos.len() ==> verify::may_verify(
                    tokens[j],
                    data,
                    validator,
                    Ok::<_, Error>(#[trigger] infos[j]),
                )),
{
    if tokens.len() > 0 {
        let infos = choose|infos: Seq<TstInfoView>|
            infos.len() < tokens.len() && #[trigger] countersign::all_verified(
                tokens.take(infos.len() as int),
                data,
                validator,
                infos,
            ) && verify::may_verify(
                tokens[infos.len() as int],
                data,
                validator,
                Err::<TstInfoView, Error>(e),
            );
        let k = infos.len() as int;
        assert forall|j: int| 0 <= j < k implies verify::may_verify(
            tokens[j],
            data,
            validator,
            Ok::<_, Error>(#[trigger] infos[j]),
        ) by {
            assert(tokens.take(k)[j] == tokens[j]);
        }
        assert(infos.len() < tokens.len());
    }
}

/// What a countersignature signs is an array of four: the text `CounterSignature`, the whole
/// protected header, nothing, and the whole data.
pub proof fn law_structure_layout(header: Seq<u8>, data: Seq<u8>)
    ensures
        ({
            let s = cbor::counter_signature_structure(header, data);
            let n = cbor::byte_string(header).len() as int;
            &&& s[0] == 0x84
            &&& s[1] == 0x70
            &&& s.subrange(2, 18) == cbor::counter_signature_text()
            &&& s.subrange(18, 18 + n) == cbor::byte_string(header)
            &&& s[18 + n] == 0x40
            &&& s.skip(19 + n) == cbor::byte_string(data)
            &&& cbor::byte_string(header).skip(n - header.len()) == header
            &&& s.skip(s.len() - data.len()) == data
        }),
{
    let s = cbor::counter_signature_structure(header, data);
    let n = cbor::byte_string(header).len() as int;
    let none = Seq::<u8>::empty();
    assert(cbor::head(4, 4) =~= seq![0x84u8]);
    assert(cbor::head(3, 16) =~= seq![0x70u8]);
    assert(cbor::byte_string(none) =~= seq![0x40u8]);
    assert(s.subrange(2, 18) =~= cbor::counter_signature_text());
    assert(s.subrange(18, 18 + n) =~= cbor::byte_string(header));
    assert(s.skip(19 + n) =~= cbor::byte_string(data));
    assert(cbor::byte_string(header).skip(n - header.len()) =~= header);
    assert(s.skip(s.len() - data.len()) =~= data);
}

/// A container holds each of its time stamps in its place.
pub proof fn law_container_view(c: TstContainer, k: int)
    ensures
        c@.len() == c.tst_tokens@.len(),
        0 <= k < c.tst_tokens@.len() ==> c@[k] == c.tst_tokens@[k].val@,
{
}

/// A protected header is what it is serialized to.
pub proof fn law_header_view(h: ProtectedHeader)
    ensures
        h@ == h.serialized@,
{
}

} // verus!
