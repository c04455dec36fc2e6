//! Writing values in the distinguished encoding.
use crate::der;
use vstd::prelude::*;

verus! {

/// The length field of a value with `n` octets of contents.
pub open spec fn length_octets(n: nat) -> Seq<u8> {
    if n < 0x80 {
        seq![n as u8]
    } else if n < 0x100 {
        seq![0x81u8, n as u8]
    } else if n < 0x1_0000 {
        seq![0x82u8, (n / 0x100) as u8, (n % 0x100) as u8]
    } else if n < 0x100_0000 {
        seq![0x83u8, (n / 0x1_0000) as u8, (n / 0x100 % 0x100) as u8, (n % 0x100) as u8]
    } else {
        seq![
            0x84u8,
            (n / 0x100_0000) as u8,
            (n / 0x1_0000 % 0x100) as u8,
            (n / 0x100 % 0x100) as u8,
            (n % 0x100) as u8,
        ]
    }
}

/// A value with the identifier octet `id` and the contents `content`.
pub open spec fn tlv(id: u8, content: Seq<u8>) -> Seq<u8> {
    seq![id] + length_octets(content.len()) + content
}

/// The identifier octet of a constructed value with the tag `tag`.
pub open spec fn constructed_id(tag: u8) -> u8 {
    (tag + 32) as u8
}

/// Writes a value. A length field holds at most four octets of length.
pub fn write_tlv(id: u8, content: &[u8]) -> (res: Vec<u8>)
    requires
        content@.len() <= 0xffff_ffff,
    ensures
        res@ == tlv(id, content@),
{
    let n: usize = content.len();
    let mut out: Vec<u8> = Vec::new();
    out.push(id);
    if n < 0x80 {
        out.push(n as u8);
    } else if n < 0x100 {
        out.push(0x81);
        out.push(n as u8);
    } else if n < 0x1_0000 {
        out.push(0x82);
        out.push((n / 0x100) as u8);
        out.push((n % 0x100) as u8);
    } else if n < 0x100_0000 {
        out.push(0x83);
        out.push((n / 0x1_0000) as u8);
        out.push((n / 0x100 % 0x100) as u8);
        out.push((n % 0x100) as u8);
    } else {
        out.push(0x84);
        out.push((n / 0x100_0000) as u8);
        out.push((n / 0x1_0000 % 0x100) as u8);
        out.push((n / 0x100 % 0x100) as u8);
        out.push((n % 0x100) as u8);
    }
    assert(out@ =~= seq![id] + length_octets(n as nat));
    out.extend_from_slice(content);
    out
}

/// Whether `len` is `n`, or `None` where `n` is too much for a length field.
pub open spec fn is_len(len: Option<u64>, n: nat) -> bool {
    match len {
        Some(k) => k == n && n <= 0xffff_ffff,
        None => n > 0xffff_ffff,
    }
}

/// The number of octets of a value with `n` octets of contents.
pub open spec fn tlv_len(n: nat) -> nat {
    1 + length_octets(n).len() + n
}

/// Takes a length.
pub fn to_len(n: usize) -> (res: Option<u64>)
    ensures
        is_len(res, n as nat),
{
    if n as u64 <= 0xffff_ffff {
        Some(n as u64)
    } else {
        None
    }
}

/// Adds two lengths.
pub fn add_len(a: Option<u64>, b: Option<u64>) -> (res: Option<u64>)
    ensures
        forall|m: nat, n: nat| #[trigger]
            is_len(a, m) && #[trigger] is_len(b, n) ==> is_len(res, m + n),
{
    match (a, b) {
        (Some(m), Some(n)) => if m <= 0xffff_ffff && n <= 0xffff_ffff - m {
            Some(m + n)
        } else {
            None
        },
        _ => None,
    }
}

/// The length of a value with contents of the length `content`.
pub fn add_header_len(content: Option<u64>) -> (res: Option<u64>)
    ensures
        forall|n: nat| #[trigger] is_len(content, n) ==> is_len(res, tlv_len(n)),
{
    match content {
        Some(n) => {
            let header: u64 = if n < 0x80 {
                2
            } else if n < 0x100 {
                3
            } else if n < 0x1_0000 {
                4
            } else if n < 0x100_0000 {
                5
            } else {
                6
            };
            assert(is_len(Some(header), header as nat));
            add_len(Some(header), content)
        },
        None => None,
    }
}

/// The value of up to four octets.
proof fn lemma_be_value_digits(s: Seq<u8>)
    requires
        1 <= s.len() <= 4,
    ensures
        be_digits(s) == der::be_value(s),
    decreases s.len(),
{
    reveal_with_fuel(der::be_value, 2);
    if s.len() > 1 {
        lemma_be_value_digits(s.drop_last());
    }
}

/// The number that up to four octets write in base 256.
spec fn be_digits(s: Seq<u8>) -> int {
    if s.len() == 1 {
        s[0] as int
    } else if s.len() == 2 {
        s[0] * 0x100 + s[1]
    } else if s.len() == 3 {
        s[0] * 0x1_0000 + s[1] * 0x100 + s[2]
    } else {
        s[0] * 0x100_0000 + s[1] * 0x1_0000 + s[2] * 0x100 + s[3]
    }
}

/// A length field is read as it is written.
pub proof fn lemma_length_field(n: nat, rest: Seq<u8>)
    requires
        n <= 0xffff_ffff,
    ensures
        der::length_field(length_octets(n) + rest) == Some((Some(n), length_octets(n).len())),
        1 <= length_octets(n).len() <= 5,
{
    let s = length_octets(n) + rest;
    if n >= 0x80 {
        let count = s[0] - 0x80;
        let digits = length_octets(n).skip(1);
        assert(s.subrange(1, 1 + count) =~= digits);
        lemma_be_value_digits(digits);
        assert(be_digits(digits) == n);
    }
}

/// The digits of a number in base 256.
proof fn lemma_base_256(a: int, b: int, c: int, d: int)
    requires
        0 <= a < 256,
        0 <= b < 256,
        0 <= c < 256,
        0 <= d < 256,
    ensures
        ({
            let n = a * 0x100_0000 + b * 0x1_0000 + c * 0x100 + d;
            &&& n / 0x100_0000 == a
            &&& n / 0x1_0000 == a * 0x100 + b
            &&& n / 0x100 == a * 0x1_0000 + b * 0x100 + c
            &&& n / 0x1_0000 % 0x100 == b
            &&& n / 0x100 % 0x100 == c
            &&& n % 0x100 == d
        }),
{
    let n = a * 0x100_0000 + b * 0x1_0000 + c * 0x100 + d;
    assert(n == (a * 0x1_0000 + b * 0x100 + c) * 0x100 + d);
    assert(n / 0x100 == a * 0x1_0000 + b * 0x100 + c);
    assert(n == (a * 0x100 + b) * 0x1_0000 + (c * 0x100 + d));
    assert(n / 0x1_0000 == a * 0x100 + b);
    assert(a * 0x1_0000 + b * 0x100 + c == (a * 0x100 + b) * 0x100 + c);
}

/// The digits of a length that needs them all are what is written of it.
proof fn lemma_digits_canonical(d: Seq<u8>)
    requires
        1 <= d.len() <= 4,
        d[0] > 0,
        d.len() == 1 ==> d[0] >= 0x80,
    ensures
        be_digits(d) <= 0xffff_ffff,
        length_octets(be_digits(d) as nat) == seq![(0x80 + d.len()) as u8] + d,
{
    let n = be_digits(d) as nat;
    if d.len() == 1 {
        assert(length_octets(n) =~= seq![0x81u8] + d);
    } else if d.len() == 2 {
        lemma_base_256(0, 0, d[0] as int, d[1] as int);
        assert(length_octets(n) =~= seq![0x82u8] + d);
    } else if d.len() == 3 {
        lemma_base_256(0, d[0] as int, d[1] as int, d[2] as int);
        assert(length_octets(n) =~= seq![0x83u8] + d);
    } else {
        lemma_base_256(d[0] as int, d[1] as int, d[2] as int, d[3] as int);
        assert(length_octets(n) =~= seq![0x84u8] + d);
    }
}

/// A definite length field is written as it was read.
pub proof fn lemma_length_field_canonical(s: Seq<u8>)
    ensures
        der::length_field(s) matches Some((Some(n), m)) ==> n <= 0xffff_ffff && m <= s.len() && s.take(
            m as int,
        ) == length_octets(n),
{
    if let Some((Some(n), m)) = der::length_field(s) {
        if s[0] >= 0x80 {
            let d = s.subrange(1, m as int);
            lemma_be_value_digits(d);
            lemma_digits_canonical(d);
            assert(s.take(m as int) =~= seq![(0x80 + d.len()) as u8] + d);
        } else {
            assert(s.take(m as int) =~= length_octets(n));
        }
    }
}

/// The header of a written value is read back.
pub proof fn lemma_tlv_header(id: u8, content: Seq<u8>, rest: Seq<u8>)
    requires
        content.len() <= 0xffff_ffff,
        der::is_low_tag(id),
    ensures
        der::header(tlv(id, content) + rest) == Some(
            (der::HeaderView {
                id,
                length: Some(content.len()),
                size: 1 + length_octets(content.len()).len(),
            }),
        ),
{
    let s = tlv(id, content) + rest;
    lemma_length_field(content.len(), content + rest);
    assert(s.skip(1) =~= length_octets(content.len()) + (content + rest));
}

/// A written value is read back with its contents, and what follows it is left.
pub proof fn lemma_tlv_next(id: u8, content: Seq<u8>, rest: Seq<u8>)
    requires
        content.len() <= 0xffff_ffff,
        der::is_low_tag(id),
    ensures
        forall|tag: u8|
            #![trigger der::next_if(tlv(id, content) + rest, tag)]
            der::next_if(tlv(id, content) + rest, tag) == if tag == der::tag_of(id) {
                (der::NextView::Present {
                    constructed: der::is_constructed(id),
                    content,
                    rest,
                })
            } else {
                der::NextView::Absent
            },
{
    let s = tlv(id, content) + rest;
    let size = 1 + length_octets(content.len()).len();
    lemma_tlv_header(id, content, rest);
    assert(s.subrange(size as int, (size + content.len()) as int) =~= content);
    assert(s.skip((size + content.len()) as int) =~= rest);
}

/// The tag and the form of a value give its identifier octet.
pub proof fn lemma_constructed_id(id: u8)
    requires
        der::is_constructed(id),
    ensures
        id == constructed_id(der::tag_of(id)),
{
}

/// A value that was read is what writing its contents gives.
pub proof fn lemma_tlv_canonical(s: Seq<u8>, tag: u8)
    ensures
        der::next_if(s, tag) matches der::NextView::Present {
            constructed,
            content,
            rest,
        } ==> content.len() <= 0xffff_ffff && s == tlv(s[0], content) + rest && der::tag_of(s[0])
            == tag && der::is_constructed(s[0]) == constructed,
{
    if let der::NextView::Present { constructed, content, rest } = der::next_if(s, tag) {
        lemma_length_field_canonical(s.skip(1));
        let m = length_octets(content.len()).len() as int;
        assert(s.skip(1).take(m) == length_octets(content.len()));
        assert forall|i: int| 0 <= i < m implies s[1 + i] == length_octets(content.len())[i] by {
            assert(s.skip(1).take(m)[i] == s[1 + i]);
        }
        assert(s =~= tlv(s[0], content) + rest);
    }
}

} // verus!
