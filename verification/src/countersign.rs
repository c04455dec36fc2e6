//! Time stamps over COSE signatures.
use crate::cbor;
use crate::container::TstContainer;
use crate::error::Error;
use crate::outside;
use crate::rfc3161::{TstInfo, TstInfoView};
use crate::verify;
use crate::verify::{verify_timestamp, CoseValidator};
use vstd::prelude::*;

verus! {

/// The protected header of a COSE message.
#[derive(Clone, Debug, PartialEq, Eq)]
pub struct ProtectedHeader {
    /// The header as it is serialized, empty for an empty one.
    pub serialized: Vec<u8>,
}

impl View for ProtectedHeader {
    type V = Seq<u8>;

    open spec fn view(&self) -> Seq<u8> {
        self.serialized@
    }
}

/// Asks an authority for time stamps.
pub trait Signer {
    /// Asks for a time stamp over `message`, where an authority is known.
    fn send_timestamp_request(&self, message: &[u8]) -> Option<Result<Vec<u8>, Error>>;
}

/// What a time stamp over the signature `data` under the header `p_header` is over.
pub fn cose_countersign_data(data: &[u8], p_header: &ProtectedHeader) -> (res: Vec<u8>)
    ensures
        res@ == cbor::counter_signature_structure(p_header@, data@),
{
    outside::sig_structure_data(&p_header.serialized, data)
}

/// Asks for a time stamp over `data` and returns the encoded response.
pub fn timestamp_data<S: Signer>(signer: &S, data: &[u8]) -> (res: Option<Result<Vec<u8>, Error>>)
    ensures
        call_ensures(S::send_timestamp_request, (signer, data), res),
{
    signer.send_timestamp_request(data)
}

/// Asks for a time stamp over the signature `data` under the header `p_header`.
pub fn cose_timestamp_countersign<S: Signer>(
    signer: &S,
    data: &[u8],
    p_header: &ProtectedHeader,
) -> (res: Option<Result<Vec<u8>, Error>>)
    ensures
        exists|message: &[u8]|
            message@ == cbor::counter_signature_structure(p_header@, data@)
                && #[trigger] call_ensures(S::send_timestamp_request, (signer, message), res),
{
    let sd = cose_countersign_data(data, p_header);
    timestamp_data(signer, &sd)
}

/// Whether `res` may come of the time stamps `tokens`, all over `data`, when `validator` checks
/// their signatures: what each of them states, or the first error, or `NotFound` where there are
/// none.
pub open spec fn may_verify_all<V: CoseValidator>(
    tokens: Seq<Seq<u8>>,
    data: Seq<u8>,
    validator: V,
    res: Result<Seq<TstInfoView>, Error>,
) -> bool {
    match res {
        Ok(infos) => tokens.len() > 0 && all_verified(tokens, data, validator, infos),
        Err(e) => if tokens.len() == 0 {
            e == Error::NotFound
        } else {
            exists|infos: Seq<TstInfoView>|
                infos.len() < tokens.len() && #[trigger] all_verified(
                    tokens.take(infos.len() as int),
                    data,
                    validator,
                    infos,
                ) && verify::may_verify(
                    tokens[infos.len() as int],
                    data,
                    validator,
                    Err::<TstInfoView, Error>(e),
                )
        },
    }
}

/// Whether the time stamps `tokens` may turn out to state `infos`.
pub open spec fn all_verified<V: CoseValidator>(
    tokens: Seq<Seq<u8>>,
    data: Seq<u8>,
    validator: V,
    infos: Seq<TstInfoView>,
) -> bool {
    &&& infos.len() == tokens.len()
    &&& forall|i: int|
        0 <= i < tokens.len() ==> verify::may_verify(
            #[trigger] tokens[i],
            data,
            validator,
            Ok::<TstInfoView, Error>(infos[i]),
        )
}

/// The view of a result with statements.
pub open spec fn results_view(res: Result<Vec<TstInfo>, Error>) -> Result<
    Seq<TstInfoView>,
    Error,
> {
    match res {
        Ok(v) => Ok(v@.map_values(|t: TstInfo| t@)),
        Err(e) => Err(e),
    }
}

/// Verifies the time stamps of the signature `data` under the header `p_header`, and returns what
/// they state. `sigtst` is the container of the time stamps, where it could be read.
pub fn cose_sigtst_to_tstinfos<V: CoseValidator>(
    sigtst: &Option<TstContainer>,
    data: &[u8],
    p_header: &ProtectedHeader,
    validator: &V,
) -> (res: Result<Vec<TstInfo>, Error>)
    ensures
        match sigtst {
            Some(container) => may_verify_all(
                container@,
                cbor::counter_signature_structure(p_header@, data@),
                *validator,
                results_view(res),
            ),
            None => res == Err::<Vec<TstInfo>, Error>(Error::CoseTimeStampGeneration),
        },
{
    let container = match sigtst {
        Some(container) => container,
        None => {
            return Err(Error::CoseTimeStampGeneration);
        },
    };
    let ghost tokens = container@;
    let ghost signed = cbor::counter_signature_structure(p_header@, data@);
    let mut tstinfos: Vec<TstInfo> = Vec::new();
    let mut i: usize = 0;
    while i < container.tst_tokens.len()
        invariant
            i == tstinfos.len() <= container.tst_tokens.len(),
            sigtst == Some(*container),
            tokens == container@,
            signed == cbor::counter_signature_structure(p_header@, data@),
            all_verified(
                tokens.take(i as int),
                signed,
                *validator,
                tstinfos@.map_values(|t: TstInfo| t@),
            ),
        decreases container.tst_tokens.len() - i,
    {
        let tbs = cose_countersign_data(data, p_header);
        assert(tokens[i as int] == container.tst_tokens@[i as int]@);
        match verify_timestamp(&container.tst_tokens[i].val, &tbs, validator) {
            Ok(tst_info) => {
                let ghost before = tstinfos@.map_values(|t: TstInfo| t@);
                tstinfos.push(tst_info);
                proof {
                    let after = tstinfos@.map_values(|t: TstInfo| t@);
                    assert(after =~= before.push(tst_info@));
                    let done = tokens.take(i + 1);
                    assert forall|k: int| 0 <= k < done.len() implies verify::may_verify(
                        #[trigger] done[k],
                        signed,
                        *validator,
                        Ok::<TstInfoView, Error>(after[k]),
                    ) by {
                        if k < i {
                            assert(tokens.take(i as int)[k] == done[k]);
                        }
                    }
                }
                i = i + 1;
            },
            Err(e) => {
                proof {
                    let infos = tstinfos@.map_values(|t: TstInfo| t@);
                    assert(all_verified(
                        tokens.take(infos.len() as int),
                        signed,
                        *validator,
                        infos,
                    ));
                }
                return Err(e);
            },
        }
    }
    assert(tokens.take(i as int) =~= tokens);
    if tstinfos.len() == 0 {
        Err(Error::NotFound)
    } else {
        Ok(tstinfos)
    }
}

} // verus!
