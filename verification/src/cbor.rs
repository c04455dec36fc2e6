//! The structure that a countersignature signs, in CBOR.
use vstd::prelude::*;

verus! {

/// The initial octets of a CBOR item of the major type `major` with the argument `n`, in the
/// shortest form.
pub open spec fn head(major: nat, n: nat) -> Seq<u8> {
    if n < 24 {
        seq![(major * 32 + n) as u8]
    } else if n < 0x100 {
        seq![(major * 32 + 24) as u8] + big_endian(n, 1)
    } else if n < 0x1_0000 {
        seq![(major * 32 + 25) as u8] + big_endian(n, 2)
    } else if n < 0x1_0000_0000 {
        seq![(major * 32 + 26) as u8] + big_endian(n, 4)
    } else {
        seq![(major * 32 + 27) as u8] + big_endian(n, 8)
    }
}

/// The last `size` digits of `n` in base 256, most significant first.
pub open spec fn big_endian(n: nat, size: nat) -> Seq<u8>
    decreases size,
{
    if size == 0 {
        Seq::empty()
    } else {
        big_endian(n / 256, (size - 1) as nat).push((n % 256) as u8)
    }
}

/// A byte string.
pub open spec fn byte_string(s: Seq<u8>) -> Seq<u8> {
    head(2, s.len()) + s
}

/// The octets of the text `CounterSignature`.
pub open spec fn counter_signature_text() -> Seq<u8> {
    seq![
        0x43u8,
        0x6f,
        0x75,
        0x6e,
        0x74,
        0x65,
        0x72,
        0x53,
        0x69,
        0x67,
        0x6e,
        0x61,
        0x74,
        0x75,
        0x72,
        0x65,
    ]
}

/// The array of the context `CounterSignature`, a protected header, no additional data, and a
/// payload.
pub open spec fn counter_signature_structure(protected: Seq<u8>, payload: Seq<u8>) -> Seq<u8> {
    head(4, 4) + (head(3, 16) + counter_signature_text()) + byte_string(protected) + byte_string(
        Seq::empty(),
    ) + byte_string(payload)
}

/// A number is read back from its digits.
proof fn lemma_big_endian_injective(m: nat, n: nat, size: nat)
    requires
        big_endian(m, size) == big_endian(n, size),
        bounded(m, size),
        bounded(n, size),
    ensures
        m == n,
        big_endian(m, size).len() == size,
    decreases size,
{
    lemma_big_endian_len(m, size);
    if size > 0 {
        let k = (size - 1) as nat;
        assert(big_endian(m / 256, k) =~= big_endian(m, size).drop_last());
        assert(big_endian(n / 256, k) =~= big_endian(n, size).drop_last());
        lemma_big_endian_injective(m / 256, n / 256, k);
        assert(big_endian(m, size).last() == (m % 256) as u8);
        assert(big_endian(n, size).last() == (n % 256) as u8);
        assert(m % 256 == n % 256);
    }
}

proof fn lemma_big_endian_len(n: nat, size: nat)
    ensures
        big_endian(n, size).len() == size,
    decreases size,
{
    if size > 0 {
        lemma_big_endian_len(n / 256, (size - 1) as nat);
    }
}

/// Whether `n` has at most `size` digits in base 256.
spec fn bounded(n: nat, size: nat) -> bool
    decreases size,
{
    if size == 0 {
        n == 0
    } else {
        bounded(n / 256, (size - 1) as nat)
    }
}

/// The number of octets that follow the first one in a head with the argument `n`.
spec fn extra(n: nat) -> nat {
    if n < 24 {
        0
    } else if n < 0x100 {
        1
    } else if n < 0x1_0000 {
        2
    } else if n < 0x1_0000_0000 {
        4
    } else {
        8
    }
}

proof fn lemma_extra(n: nat)
    requires
        n < 0x1_0000_0000_0000_0000,
    ensures
        head(2, n).len() == 1 + extra(n),
        extra(n) > 0 ==> head(2, n).skip(1) == big_endian(n, extra(n)) && bounded(n, extra(n)),
        head(2, n)[0] == if n < 24 {
            64 + n
        } else if n < 0x100 {
            88
        } else if n < 0x1_0000 {
            89
        } else if n < 0x1_0000_0000 {
            90
        } else {
            91
        },
{
    lemma_big_endian_len(n, extra(n));
    if extra(n) > 0 {
        assert(head(2, n).skip(1) =~= big_endian(n, extra(n)));
        reveal_with_fuel(bounded, 9);
        assert(n / 256 / 256 / 256 / 256 / 256 / 256 / 256 / 256 == n / 0x1_0000_0000_0000_0000);
    }
}

/// A byte string is read back, and what follows it is left.
pub proof fn lemma_byte_string_injective(a: Seq<u8>, x: Seq<u8>, b: Seq<u8>, y: Seq<u8>)
    requires
        a.len() < 0x1_0000_0000_0000_0000,
        b.len() < 0x1_0000_0000_0000_0000,
        byte_string(a) + x == byte_string(b) + y,
    ensures
        a == b,
        x == y,
{
    let s = byte_string(a) + x;
    let t = byte_string(b) + y;
    lemma_extra(a.len());
    lemma_extra(b.len());
    assert(s[0] == head(2, a.len())[0]);
    assert(t[0] == head(2, b.len())[0]);
    assert(extra(a.len()) == extra(b.len()));
    let k = extra(a.len());
    if k > 0 {
        assert(s.subrange(1, 1 + k as int) =~= head(2, a.len()).skip(1));
        assert(t.subrange(1, 1 + k as int) =~= head(2, b.len()).skip(1));
        lemma_big_endian_injective(a.len(), b.len(), k);
    }
    assert(a.len() == b.len());
    let h = 1 + k as int;
    assert(s.subrange(h, h + a.len()) =~= a);
    assert(t.subrange(h, h + b.len()) =~= b);
    assert(s.skip(h + a.len()) =~= x);
    assert(t.skip(h + b.len()) =~= y);
}

} // verus!
