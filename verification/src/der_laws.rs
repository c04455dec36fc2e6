//! What holds of values as they are written and read.
use crate::der;
use crate::encode;
use vstd::prelude::*;

verus! {

/// The value `id` with the contents `content`, or nothing.
pub open spec fn opt_tlv(id: u8, content: Option<Seq<u8>>) -> Seq<u8> {
    match content {
        Some(c) => encode::tlv(id, c),
        None => Seq::empty(),
    }
}

/// The values `id` with the contents `contents`, one behind the other.
pub open spec fn tlvs(id: u8, contents: Seq<Seq<u8>>) -> Seq<u8>
    decreases contents.len(),
{
    if contents.len() == 0 {
        Seq::empty()
    } else {
        encode::tlv(id, contents[0]) + tlvs(id, contents.skip(1))
    }
}

/// Whether `content` is short enough for a length field.
pub open spec fn is_short(content: Seq<u8>) -> bool {
    content.len() <= 0xffff_ffff
}

/// Whether the octets of `content`, if there is any, are short enough for a length field.
pub open spec fn is_opt_short(content: Option<Seq<u8>>) -> bool {
    content matches Some(c) ==> is_short(c)
}

/// Whether `s` is empty or starts with a value of another tag than `tag`.
pub open spec fn starts_without(s: Seq<u8>, tag: u8) -> bool {
    s.len() == 0 || (der::is_low_tag(s[0]) && der::tag_of(s[0]) != tag)
}

/// Whether `tag` is the identifier octet of a primitive value.
pub open spec fn is_plain(tag: u8) -> bool {
    der::is_low_tag(tag) && !der::is_constructed(tag)
}

/// A value holds its identifier octet, then the length of its contents, then the contents. A length
/// below 128 is one octet; a longer one is written in base 256 in as few octets as it needs, behind
/// an octet that says how many.
pub proof fn law_value_layout(id: u8, content: Seq<u8>)
    requires
        is_short(content),
    ensures
        ({
            let s = encode::tlv(id, content);
            let n = content.len();
            &&& s[0] == id
            &&& n < 0x80 ==> s[1] == n && s.skip(2) == content
            &&& n >= 0x80 ==> {
                let count = s[1] - 0x80;
                &&& 1 <= count <= 4
                &&& der::be_value(s.subrange(2, 2 + count)) == n
                &&& s[2] != 0
                &&& s.skip(2 + count) == content
            }
        }),
{
    let s = encode::tlv(id, content);
    let n = content.len();
    encode::lemma_length_field(n, Seq::empty());
    let field = encode::length_octets(n);
    assert(field + Seq::<u8>::empty() =~= field);
    if n < 0x80 {
        assert(s.skip(2) =~= content);
    } else {
        let count = field[0] - 0x80;
        assert(s[1] == field[0]);
        assert(field.len() == 1 + count);
        assert(s.subrange(2, 2 + count) =~= field.subrange(1, 1 + count));
        assert(s[2] == field[1]);
        assert(s.skip(2 + count) =~= content);
    }
}

/// A primitive value that is read stands there with all its contents, and what follows it is left.
pub proof fn law_primitive_read(s: Seq<u8>, tag: u8)
    requires
        is_plain(tag),
    ensures
        der::opt_primitive(s, tag) matches Some((o, rest)) ==> s == opt_tlv(tag, o) + rest
            && is_opt_short(o),
{
    encode::lemma_tlv_canonical(s, tag);
    assert(Seq::<u8>::empty() + s =~= s);
}

/// A constructed value that is read stands there with all its contents, and what follows it is left.
pub proof fn law_constructed_read(s: Seq<u8>, tag: u8)
    requires
        is_plain(tag),
    ensures
        der::opt_constructed(s, tag) matches Some((o, rest)) ==> s == opt_tlv(
            (tag + 32) as u8,
            o,
        ) + rest && is_opt_short(o),
{
    encode::lemma_tlv_canonical(s, tag);
    assert(Seq::<u8>::empty() + s =~= s);
    if let Some((Some(c), rest)) = der::opt_constructed(s, tag) {
        encode::lemma_constructed_id(s[0]);
    }
}

/// A primitive value that is written is read back. One that is missing is found missing where
/// another kind of value follows.
pub proof fn law_primitive_read_back(tag: u8, o: Option<Seq<u8>>, rest: Seq<u8>)
    requires
        is_plain(tag),
        is_opt_short(o),
        o is None ==> starts_without(rest, tag),
    ensures
        der::opt_primitive(opt_tlv(tag, o) + rest, tag) == Some((o, rest)),
{
    match o {
        Some(c) => {
            encode::lemma_tlv_next(tag, c, rest);
        },
        None => {
            assert(Seq::<u8>::empty() + rest =~= rest);
        },
    }
}

/// A constructed value that is written is read back. One that is missing is found missing where
/// another kind of value follows.
pub proof fn law_constructed_read_back(tag: u8, o: Option<Seq<u8>>, rest: Seq<u8>)
    requires
        is_plain(tag),
        is_opt_short(o),
        o is None ==> starts_without(rest, tag),
    ensures
        der::opt_constructed(opt_tlv((tag + 32) as u8, o) + rest, tag) == Some((o, rest)),
{
    match o {
        Some(c) => {
            encode::lemma_tlv_next((tag + 32) as u8, c, rest);
        },
        None => {
            assert(Seq::<u8>::empty() + rest =~= rest);
        },
    }
}

/// A value starts with its identifier octet.
pub proof fn lemma_starts(id: u8, o: Option<Seq<u8>>, rest: Seq<u8>)
    ensures
        o is Some ==> (opt_tlv(id, o) + rest).len() > 0 && (opt_tlv(id, o) + rest)[0] == id,
        o is None ==> opt_tlv(id, o) + rest == rest,
{
    if o is None {
        assert(Seq::<u8>::empty() + rest =~= rest);
    }
}

/// The first of some values stands first.
pub proof fn lemma_tlvs_first(id: u8, content: Seq<u8>, contents: Seq<Seq<u8>>)
    ensures
        tlvs(id, seq![content] + contents) == encode::tlv(id, content) + tlvs(id, contents),
{
    let all = seq![content] + contents;
    assert(all.skip(1) =~= contents);
}

/// The last of some values stands last.
pub proof fn lemma_tlvs_last(id: u8, contents: Seq<Seq<u8>>, c: Seq<u8>)
    ensures
        tlvs(id, contents.push(c)) == tlvs(id, contents) + encode::tlv(id, c),
    decreases contents.len(),
{
    let all = contents.push(c);
    if contents.len() == 0 {
        assert(all.skip(1) =~= Seq::<Seq<u8>>::empty());
        assert(tlvs(id, all.skip(1)) =~= Seq::<u8>::empty());
        assert(tlvs(id, all) =~= encode::tlv(id, c));
        assert(tlvs(id, contents) + encode::tlv(id, c) =~= encode::tlv(id, c));
    } else {
        lemma_tlvs_last(id, contents.skip(1), c);
        assert(all.skip(1) =~= contents.skip(1).push(c));
        assert(tlvs(id, all) =~= tlvs(id, contents) + encode::tlv(id, c));
    }
}

/// A header stands alone: what follows does not change it.
proof fn lemma_header_prefix(a: Seq<u8>, b: Seq<u8>)
    ensures
        der::header(a) matches Some(h) ==> der::header(a + b) == Some(h) && 2 <= h.size <= a.len(),
{
    if let Some(h) = der::header(a) {
        let s = a + b;
        let n = der::identifier_len(a)->0;
        assert(der::identifier_len(s) == Some(n));
        let f = a.skip(n as int);
        let g = s.skip(n as int);
        assert(g =~= f + b);
        if f[0] > 0x80 {
            let count = (f[0] - 0x80) as int;
            assert(f.subrange(1, 1 + count) =~= g.subrange(1, 1 + count));
        }
        assert(der::length_field(f) == der::length_field(g));
    }
}

/// A value stands alone: what follows does not change where it ends.
proof fn lemma_value_prefix(a: Seq<u8>, b: Seq<u8>)
    ensures
        der::value_len(a) matches Some(n) ==> der::value_len(a + b) == Some(n),
    decreases a.len(), 0nat,
{
    lemma_header_prefix(a, b);
    if let Some(n) = der::value_len(a) {
        let h = der::header(a)->0;
        match h.length {
            Some(m) => {
                assert(a.subrange(h.size as int, h.size + m as int) =~= (a + b).subrange(
                    h.size as int,
                    h.size + m as int,
                ));
            },
            None => {
                let inner = a.skip(h.size as int);
                assert((a + b).skip(h.size as int) =~= inner + b);
                lemma_to_end_prefix(inner, b);
            },
        }
    }
}

/// Values up to an end-of-contents marker stand alone.
proof fn lemma_to_end_prefix(a: Seq<u8>, b: Seq<u8>)
    ensures
        der::values_to_end(a) matches Some(n) ==> der::values_to_end(a + b) == Some(n),
    decreases a.len(), 1nat,
{
    lemma_header_prefix(a, b);
    if let Some(n) = der::values_to_end(a) {
        let h = der::header(a)->0;
        if !h.is_end_of_contents() {
            lemma_value_prefix(a, b);
            let m = der::value_len(a)->0;
            assert((a + b).skip(m as int) =~= a.skip(m as int) + b);
            lemma_to_end_prefix(a.skip(m as int), b);
        }
    }
}

/// Two runs of well-formed values make one.
pub proof fn law_values_append(a: Seq<u8>, b: Seq<u8>)
    requires
        der::all_values(a),
        der::all_values(b),
    ensures
        der::all_values(a + b),
    decreases a.len(),
{
    if a.len() == 0 {
        assert(a + b =~= b);
    } else {
        let n = der::value_len(a)->0;
        lemma_value_prefix(a, b);
        law_values_append(a.skip(n as int), b);
        assert((a + b).skip(n as int) =~= a.skip(n as int) + b);
    }
}

/// A written value is a well-formed one: a primitive value whatever its contents, a constructed one
/// where its contents are well-formed values, to any depth.
pub proof fn law_value_is_well_formed(id: u8, content: Seq<u8>)
    requires
        is_short(content),
        der::is_low_tag(id),
        id != 0,
        der::is_constructed(id) ==> der::all_values(content),
    ensures
        der::all_values(encode::tlv(id, content)),
{
    let s = encode::tlv(id, content);
    encode::lemma_tlv_header(id, content, Seq::empty());
    assert(s + Seq::<u8>::empty() =~= s);
    let h = der::header(s)->0;
    assert(s.subrange(h.size as int, h.size + content.len() as int) =~= content);
    assert(der::value_len(s) == Some(s.len()));
    assert(s.skip(s.len() as int) =~= Seq::<u8>::empty());
    assert(der::all_values(Seq::<u8>::empty()));
}

/// What is left of a run of well-formed values behind a written value is such a run too, and so are
/// the contents of a constructed one.
pub proof fn law_values_split(id: u8, content: Seq<u8>, rest: Seq<u8>)
    requires
        is_short(content),
        der::is_low_tag(id),
        der::all_values(encode::tlv(id, content) + rest),
    ensures
        id != 0,
        der::all_values(rest),
        der::is_constructed(id) ==> der::all_values(content),
{
    let s = encode::tlv(id, content) + rest;
    encode::lemma_tlv_header(id, content, rest);
    let h = der::header(s)->0;
    assert(s.subrange(h.size as int, h.size + content.len() as int) =~= content);
    assert(s.skip(h.size + content.len() as int) =~= rest);
    reveal_with_fuel(der::value_len, 2);
    reveal_with_fuel(der::all_values, 2);
    assert(der::value_len(s) == Some(h.size + content.len()));
}

/// Whether `tag` are the octets of a tag number that does not fit into the identifier octet: one to
/// three of them, the last with a clear top bit, the others with a set one.
pub open spec fn is_long_tag(tag: Seq<u8>) -> bool {
    &&& 1 <= tag.len() <= 3
    &&& tag.last() < 0x80
    &&& forall|k: int| 0 <= k < tag.len() - 1 ==> #[trigger] tag[k] >= 0x80
}

/// The header of a value with a long tag number is read, however long the number is within three
/// octets, and so such a value is well-formed where it is primitive or its contents are.
pub proof fn law_long_tag(id: u8, tag: Seq<u8>, content: Seq<u8>)
    requires
        !der::is_low_tag(id),
        is_long_tag(tag),
        is_short(content),
        der::is_constructed(id) ==> der::all_values(content),
    ensures
        der::all_values(seq![id] + tag + encode::length_octets(content.len()) + content),
{
    let field = encode::length_octets(content.len());
    let s = seq![id] + tag + field + content;
    let n = 1 + tag.len();
    assert(s[0] == id);
    assert forall|k: int| 0 <= k < tag.len() implies s[1 + k] == #[trigger] tag[k] by {
    }
    assert(s[n - 1] == tag.last());
    assert(tag.len() >= 2 ==> s[1] == tag[0] && tag[0] >= 0x80);
    assert(tag.len() >= 3 ==> s[2] == tag[1] && tag[1] >= 0x80);
    assert(der::identifier_len(s) == Some(n));
    encode::lemma_length_field(content.len(), content);
    assert(s.skip(n as int) =~= field + content);
    let h = der::header(s)->0;
    assert(h.size == n + field.len());
    assert(s.subrange(h.size as int, h.size + content.len() as int) =~= content);
    assert(der::value_len(s) == Some(s.len()));
    assert(s.skip(s.len() as int) =~= Seq::<u8>::empty());
    assert(der::all_values(Seq::<u8>::empty()));
}

/// Well-formed values up to an end-of-contents marker are found with it.
proof fn lemma_values_marked(content: Seq<u8>)
    requires
        der::all_values(content),
    ensures
        der::values_to_end(content + seq![0u8, 0u8]) == Some(content.len() + 2),
    decreases content.len(),
{
    let mark = seq![0u8, 0u8];
    let s = content + mark;
    if content.len() == 0 {
        assert(s =~= mark);
        assert(mark.skip(1)[0] == 0);
        assert(der::length_field(mark.skip(1)) == Some((Some(0nat), 1nat)));
        assert(der::header(mark) == Some((der::HeaderView { id: 0, length: Some(0nat), size: 2 })));
    } else {
        let n = der::value_len(content)->0;
        lemma_value_prefix(content, mark);
        lemma_header_prefix(content, mark);
        let h = der::header(content)->0;
        assert(!h.is_end_of_contents());
        lemma_values_marked(content.skip(n as int));
        assert(s.skip(n as int) =~= content.skip(n as int) + mark);
    }
}

/// A constructed value of indefinite length is well-formed where its contents are, up to its
/// end-of-contents marker.
pub proof fn law_indefinite_length(id: u8, content: Seq<u8>)
    requires
        der::is_low_tag(id),
        der::is_constructed(id),
        der::all_values(content),
    ensures
        der::all_values(seq![id, 0x80u8] + content + seq![0u8, 0u8]),
{
    let s = seq![id, 0x80u8] + content + seq![0u8, 0u8];
    assert(s.skip(1)[0] == 0x80);
    assert(der::header(s) == Some((der::HeaderView { id, length: None, size: 2 })));
    assert(s.skip(2) =~= content + seq![0u8, 0u8]);
    lemma_values_marked(content);
    assert(der::value_len(s) == Some(s.len()));
    assert(s.skip(s.len() as int) =~= Seq::<u8>::empty());
    assert(der::all_values(Seq::<u8>::empty()));
}

/// A number without a sign has one content: that of its value, however large it is.
pub proof fn law_integer_unique(c: Seq<u8>)
    requires
        der::is_integer(c),
        c[0] < 0x80,
    ensures
        c == der::unsigned_integer(der::be_value(c)),
    decreases c.len(),
{
    let n = der::be_value(c);
    let high = c.drop_last();
    reveal_with_fuel(der::be_value, 2);
    if c.len() == 1 {
        assert(der::be_value(high) == 0);
        assert(c =~= seq![c[0]]);
    } else {
        law_integer_unique(high);
        if der::be_value(high) == 0 {
            assert(high =~= seq![0u8]);
            assert(c[1] >= 0x80);
        }
        assert(n / 256 == der::be_value(high));
        assert(n % 256 == c.last());
        assert(c =~= high.push(c.last()));
    }
}

/// Every number has a content, and it is that of a number: every octet string is one but for an
/// empty one and for one whose first octet only repeats the sign of the second.
pub proof fn law_integer_contents(n: nat, c: Seq<u8>)
    ensures
        der::is_integer(der::unsigned_integer(n)),
        der::be_value(der::unsigned_integer(n)) == n,
        c.len() == 1 ==> der::is_integer(c),
        c.len() > 1 ==> der::is_integer(c) == der::is_integer(c.take(2)),
        der::is_integer(c) == der::is_integer(c.map_values(|b: u8| (255 - b) as u8)),
{
    der::lemma_unsigned_integer(n);
    let d = c.map_values(|b: u8| (255 - b) as u8);
    if c.len() > 0 {
        assert(d[0] == 255 - c[0]);
    }
    if c.len() > 1 {
        assert(d[1] == 255 - c[1]);
        assert(c.take(2)[0] == c[0] && c.take(2)[1] == c[1]);
    }
}

/// Whether octets are an object identifier depends on the last of them alone.
pub proof fn law_oid_contents(c: Seq<u8>, b: u8)
    ensures
        der::is_oid(c.push(b)) == (b < 0x80),
        !der::is_oid(Seq::<u8>::empty()),
{
    assert(c.push(b).last() == b);
}

} // verus!
