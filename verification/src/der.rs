//! The transfer syntax: identifier octets, length octets, and the values built from them.
//!
//! Reading is strict about lengths, which take the fewest octets that hold them. A value that is
//! looked into has a definite length; one that is only carried along may also have an indefinite
//! length, closed by an end-of-contents marker.
use vstd::prelude::*;
use vstd::slice::{slice_subrange, slice_to_vec};

verus! {

/// Tag of a BOOLEAN.
pub const BOOLEAN: u8 = 0x01;

/// Tag of an INTEGER.
pub const INTEGER: u8 = 0x02;

/// Tag of a BIT STRING.
pub const BIT_STRING: u8 = 0x03;

/// Tag of an OCTET STRING.
pub const OCTET_STRING: u8 = 0x04;

/// Tag of an OBJECT IDENTIFIER.
pub const OBJECT_IDENTIFIER: u8 = 0x06;

/// Tag of a UTF8String.
pub const UTF8_STRING: u8 = 0x0c;

/// Tag of a SEQUENCE.
pub const SEQUENCE: u8 = 0x10;

/// Tag of a SET.
pub const SET: u8 = 0x11;

/// Tag of a GeneralizedTime.
pub const GENERALIZED_TIME: u8 = 0x18;

/// Tag `[0]` of the context-specific class.
pub const CTX_0: u8 = 0x80;

/// Tag `[1]` of the context-specific class.
pub const CTX_1: u8 = 0x81;

/// Whether an identifier octet announces a constructed value.
pub open spec fn is_constructed(id: u8) -> bool {
    (id / 32) % 2 == 1
}

/// The tag of an identifier octet: the octet without its constructed bit.
pub open spec fn tag_of(id: u8) -> u8 {
    if is_constructed(id) {
        (id - 32) as u8
    } else {
        id
    }
}

/// Whether an identifier octet holds the whole tag number. Otherwise the number follows it.
pub open spec fn is_low_tag(id: u8) -> bool {
    id % 32 != 31
}

/// How many identifier octets `s` starts with. A tag number may take up to three further octets,
/// of which all but the last have their top bit set.
pub open spec fn identifier_len(s: Seq<u8>) -> Option<nat> {
    if s.len() == 0 {
        None
    } else if is_low_tag(s[0]) {
        Some(1)
    } else if s.len() >= 2 && s[1] < 0x80 {
        Some(2)
    } else if s.len() >= 3 && s[1] >= 0x80 && s[2] < 0x80 {
        Some(3)
    } else if s.len() >= 4 && s[1] >= 0x80 && s[2] >= 0x80 && s[3] < 0x80 {
        Some(4)
    } else {
        None
    }
}

/// The number that `s` writes in base 256, most significant octet first.
pub open spec fn be_value(s: Seq<u8>) -> nat
    decreases s.len(),
{
    if s.len() == 0 {
        0
    } else {
        be_value(s.drop_last()) * 256 + s.last() as nat
    }
}

/// The length field that `s` starts with: the length, or `None` for the indefinite form, and the
/// number of octets of the field. A definite length takes at most four octets behind the first
/// one, and no more than it needs.
pub open spec fn length_field(s: Seq<u8>) -> Option<(Option<nat>, nat)> {
    if s.len() == 0 {
        None
    } else if s[0] < 0x80 {
        Some((Some(s[0] as nat), 1))
    } else if s[0] == 0x80 {
        Some((None, 1))
    } else if s[0] > 0x84 || s.len() < 1 + (s[0] - 0x80) {
        None
    } else if s[1] == 0 || (s[0] == 0x81 && s[1] < 0x80) {
        None
    } else {
        let count = (s[0] - 0x80) as nat;
        Some((Some(be_value(s.subrange(1, 1 + count as int))), 1 + count))
    }
}

/// What the identifier and length octets of a value say.
pub struct HeaderView {
    /// The first identifier octet.
    pub id: u8,
    /// The length of the contents, or `None` for the indefinite form.
    pub length: Option<nat>,
    /// The number of octets of the header itself.
    pub size: nat,
}

impl HeaderView {
    /// Whether this is the tag of an end-of-contents marker.
    pub open spec fn is_end_of_contents(self) -> bool {
        self.id == 0
    }
}

/// The header that `s` starts with.
pub open spec fn header(s: Seq<u8>) -> Option<HeaderView> {
    match identifier_len(s) {
        None => None,
        Some(n) => match length_field(s.skip(n as int)) {
            None => None,
            Some((length, m)) => Some(HeaderView { id: s[0], length, size: n + m }),
        },
    }
}

/// The number of octets of the value that `s` starts with, if there is a well-formed one. The
/// contents of a constructed value are well-formed values themselves.
pub open spec fn value_len(s: Seq<u8>) -> Option<nat>
    decreases s.len(), 0nat,
{
    match header(s) {
        None => None,
        Some(h) => match h.length {
            Some(n) => if h.size + n > s.len() || h.is_end_of_contents() {
                None
            } else if is_constructed(h.id) && !(0 < h.size && all_values(
                s.subrange(h.size as int, h.size + n as int),
            )) {
                None
            } else {
                Some(h.size + n)
            },
            None => if is_constructed(h.id) && 0 < h.size <= s.len() {
                match values_to_end(s.skip(h.size as int)) {
                    None => None,
                    Some(n) => Some(h.size + n),
                }
            } else {
                None
            },
        },
    }
}

/// Whether `s` is a run of well-formed values.
pub open spec fn all_values(s: Seq<u8>) -> bool
    decreases s.len(), 1nat,
{
    if s.len() == 0 {
        true
    } else {
        match value_len(s) {
            None => false,
            Some(n) => 0 < n <= s.len() && all_values(s.skip(n as int)),
        }
    }
}

/// The number of octets of the run of well-formed values that `s` starts with, up to and with the
/// end-of-contents marker that closes it.
pub open spec fn values_to_end(s: Seq<u8>) -> Option<nat>
    decreases s.len(), 1nat,
{
    match header(s) {
        None => None,
        Some(h) => if h.is_end_of_contents() {
            if h.length == Some(0nat) {
                Some(h.size)
            } else {
                None
            }
        } else {
            match value_len(s) {
                None => None,
                Some(n) => if 0 < n <= s.len() {
                    match values_to_end(s.skip(n as int)) {
                        None => None,
                        Some(m) => Some(n + m),
                    }
                } else {
                    None
                },
            }
        },
    }
}

/// What `header` reads, in machine integers.
pub struct Header {
    pub id: u8,
    pub length: Option<usize>,
    pub size: usize,
}

impl Header {
    pub open spec fn view(&self) -> HeaderView {
        HeaderView {
            id: self.id,
            length: match self.length {
                Some(n) => Some(n as nat),
                None => None,
            },
            size: self.size as nat,
        }
    }
}

pub proof fn lemma_be_value_push(s: Seq<u8>, b: u8)
    ensures
        be_value(s.push(b)) == be_value(s) * 256 + b as nat,
{
    assert(s.push(b).drop_last() =~= s);
}

/// Reads the header that `s` starts with.
pub fn read_header(s: &[u8]) -> (res: Option<Header>)
    ensures
        match res {
            Some(h) => header(s@) == Some(h@) && 2 <= h.size <= s@.len() && h.size <= 9,
            None => header(s@) is None,
        },
{
    if s.len() == 0 {
        return None;
    }
    let id: u8 = s[0];
    let n: usize = if id % 32 != 31 {
        1
    } else if s.len() >= 2 && s[1] < 0x80 {
        2
    } else if s.len() >= 3 && s[1] >= 0x80 && s[2] < 0x80 {
        3
    } else if s.len() >= 4 && s[1] >= 0x80 && s[2] >= 0x80 && s[3] < 0x80 {
        4
    } else {
        return None;
    };
    let ghost rest = s@.skip(n as int);
    assert(identifier_len(s@) == Some(n as nat));
    if s.len() == n {
        return None;
    }
    let first: u8 = s[n];
    assert(first == rest[0]);
    if first < 0x80 {
        return Some(Header { id, length: Some(first as usize), size: n + 1 });
    }
    if first == 0x80 {
        return Some(Header { id, length: None, size: n + 1 });
    }
    if first > 0x84 {
        return None;
    }
    let count: usize = (first - 0x80) as usize;
    if s.len() - n < 1 + count {
        return None;
    }
    assert(s@[n + 1] == rest[1]);
    if s[n + 1] == 0 || (first == 0x81 && s[n + 1] < 0x80) {
        return None;
    }
    let mut length: u64 = 0;
    let mut i: usize = 0;
    assert(rest.subrange(1, 1) =~= Seq::<u8>::empty());
    while i < count
        invariant
            i <= count <= 4,
            n + 1 + count <= s@.len(),
            n <= 4,
            rest == s@.skip(n as int),
            length == be_value(rest.subrange(1, 1 + i as int)),
            i == 0 ==> length == 0,
            i == 1 ==> length < 0x100,
            i == 2 ==> length < 0x1_0000,
            i == 3 ==> length < 0x100_0000,
            i == 4 ==> length < 0x1_0000_0000,
        decreases count - i,
    {
        let b: u8 = s[n + 1 + i];
        proof {
            lemma_be_value_push(rest.subrange(1, 1 + i as int), b);
            assert(rest.subrange(1, 1 + i as int).push(b) =~= rest.subrange(1, 2 + i as int));
        }
        length = length * 256 + b as u64;
        i = i + 1;
    }
    Some(Header { id, length: Some(length as usize), size: n + 1 + count })
}

/// A constructed value that is being walked: where its contents end, or, for one of indefinite
/// length, where the value that holds it ends.
struct Frame {
    end: usize,
    indefinite: bool,
}

/// Whether what is left to walk of `s` from `pos` on is well-formed, with the values of `frames`
/// open, innermost last.
#[verifier::opaque]
spec fn walk_succeeds(s: Seq<u8>, pos: int, frames: Seq<Frame>) -> bool
    decreases frames.len(),
{
    if frames.len() == 0 {
        true
    } else {
        let top = frames.last();
        let open = s.subrange(pos, top.end as int);
        if top.indefinite {
            match values_to_end(open) {
                None => false,
                Some(n) => walk_succeeds(s, pos + n, frames.drop_last()),
            }
        } else {
            all_values(open) && walk_succeeds(s, top.end as int, frames.drop_last())
        }
    }
}

/// Whether each frame ends within the one below it.
spec fn frames_nest(s: Seq<u8>, pos: int, frames: Seq<Frame>) -> bool {
    &&& forall|i: int| 0 <= i < frames.len() ==> pos <= #[trigger] frames[i].end <= s.len()
    &&& forall|i: int, j: int|
        0 <= i < j < frames.len() ==> (#[trigger] frames[j]).end <= (#[trigger] frames[i]).end
}

/// What is open at the top of `frames` when the walk stands at `pos`.
spec fn open_part(s: Seq<u8>, pos: int, frames: Seq<Frame>) -> Seq<u8> {
    s.subrange(pos, frames.last().end as int)
}

/// A well-formed value at the front of what is open can be stepped over.
proof fn lemma_walk_over(s: Seq<u8>, pos: int, frames: Seq<Frame>, n: nat)
    requires
        0 <= pos,
        frames.len() > 0,
        frames_nest(s, pos, frames),
        value_len(open_part(s, pos, frames)) == Some(n),
        header(open_part(s, pos, frames)) matches Some(h) && !h.is_end_of_contents(),
        0 < n <= open_part(s, pos, frames).len(),
    ensures
        walk_succeeds(s, pos, frames) == walk_succeeds(s, pos + n, frames),
{
    reveal(walk_succeeds);
    let open = open_part(s, pos, frames);
    assert(frames.last() == frames[frames.len() - 1]);
    assert(open.skip(n as int) =~= s.subrange(pos + n, frames.last().end as int));
}

/// Where what is open starts with no well-formed value, the walk fails.
proof fn lemma_walk_stuck(s: Seq<u8>, pos: int, frames: Seq<Frame>)
    requires
        0 <= pos,
        frames.len() > 0,
        frames_nest(s, pos, frames),
        value_len(open_part(s, pos, frames)) is None,
        frames.last().indefinite || pos < frames.last().end,
        match header(open_part(s, pos, frames)) {
            Some(h) => h.is_end_of_contents() ==> !(frames.last().indefinite && h.length == Some(
                0nat,
            )),
            None => true,
        },
    ensures
        !walk_succeeds(s, pos, frames),
{
    reveal(walk_succeeds);
    assert(frames.last() == frames[frames.len() - 1]);
}

/// A constructed value of definite length is walked by walking its contents first.
proof fn lemma_walk_enter(s: Seq<u8>, pos: int, frames: Seq<Frame>, h: HeaderView, inner: Frame)
    requires
        0 <= pos,
        frames.len() > 0,
        frames_nest(s, pos, frames),
        header(open_part(s, pos, frames)) == Some(h),
        !h.is_end_of_contents(),
        is_constructed(h.id),
        match h.length {
            Some(n) => !inner.indefinite && inner.end == pos + h.size + n && inner.end
                <= frames.last().end,
            None => inner.indefinite && inner.end == frames.last().end,
        },
    ensures
        walk_succeeds(s, pos, frames) == walk_succeeds(s, pos + h.size, frames.push(inner)),
{
    reveal(walk_succeeds);
    let open = open_part(s, pos, frames);
    assert(frames.last() == frames[frames.len() - 1]);
    assert(frames.push(inner).drop_last() =~= frames);
    lemma_header_bound(open);
    match h.length {
        Some(n) => {
            assert(open.subrange(h.size as int, h.size + n as int) =~= s.subrange(
                pos + h.size,
                inner.end as int,
            ));
            if value_len(open) is Some {
                lemma_walk_over(s, pos, frames, h.size + n);
            } else {
                lemma_walk_stuck(s, pos, frames);
            }
        },
        None => {
            let rest = open.skip(h.size as int);
            assert(rest =~= s.subrange(pos + h.size, inner.end as int));
            lemma_values_to_end_bound(rest);
            if let Some(m) = values_to_end(rest) {
                lemma_walk_over(s, pos, frames, h.size + m);
            } else {
                lemma_walk_stuck(s, pos, frames);
            }
        },
    }
}

/// What is open is left behind at its end.
proof fn lemma_walk_leave(s: Seq<u8>, pos: int, frames: Seq<Frame>, next: int)
    requires
        0 <= pos,
        frames.len() > 0,
        frames_nest(s, pos, frames),
        if frames.last().indefinite {
            header(open_part(s, pos, frames)) matches Some(h) && h.is_end_of_contents()
                && h.length == Some(0nat) && next == pos + h.size
        } else {
            next == pos && pos == frames.last().end
        },
    ensures
        walk_succeeds(s, pos, frames) == walk_succeeds(s, next, frames.drop_last()),
        frames_nest(s, next, frames.drop_last()),
{
    reveal(walk_succeeds);
    lemma_header_bound(open_part(s, pos, frames));
    assert(frames.last() == frames[frames.len() - 1]);
    assert forall|i: int| 0 <= i < frames.len() - 1 implies next
        <= #[trigger] frames.drop_last()[i].end <= s.len() by {
        assert(frames[frames.len() - 1].end <= frames[i].end);
    }
}

/// What the walk does next.
enum Step {
    /// There is no well-formed value.
    Stuck,
    /// What is open ends. The walk goes on at `next`.
    Leave { next: usize },
    /// A value without values in it ends at `next`.
    Over { next: usize },
    /// A value with values in it, the first of them at `next`.
    Enter { inner: Frame, next: usize },
}

/// Whether `step` is what the walk does at `pos` with `top` open.
spec fn is_next_step(s: Seq<u8>, pos: int, top: Frame, step: Step) -> bool {
    let open = s.subrange(pos, top.end as int);
    match step {
        Step::Stuck => {
            &&& value_len(open) is None
            &&& top.indefinite || pos < top.end
            &&& header(open) matches Some(h) ==> !(h.is_end_of_contents() && top.indefinite
                && h.length == Some(0nat))
        },
        Step::Leave { next } => if top.indefinite {
            header(open) matches Some(h) && h.is_end_of_contents() && h.length == Some(0nat) && next
                == pos + h.size && next <= top.end
        } else {
            next == pos && pos == top.end
        },
        Step::Over { next } => {
            &&& pos < next <= top.end
            &&& value_len(open) == Some((next - pos) as nat)
            &&& header(open) matches Some(h) && !h.is_end_of_contents()
        },
        Step::Enter { inner, next } => {
            &&& pos < next <= inner.end <= top.end
            &&& header(open) matches Some(h) && !h.is_end_of_contents() && is_constructed(h.id)
                && next == pos + h.size && match h.length {
                Some(n) => !inner.indefinite && inner.end == next + n,
                None => inner.indefinite && inner.end == top.end,
            }
        },
    }
}

/// Finds out what the walk does at `pos` with a frame open.
fn next_step(s: &[u8], pos: usize, end: usize, indefinite: bool) -> (res: Step)
    requires
        pos <= end <= s@.len(),
    ensures
        is_next_step(s@, pos as int, Frame { end, indefinite }, res),
{
    if !indefinite && pos == end {
        return Step::Leave { next: pos };
    }
    let h = match read_header(slice_subrange(s, pos, end)) {
        Some(h) => h,
        None => {
            return Step::Stuck;
        },
    };
    let constructed: bool = (h.id / 32) % 2 == 1;
    let next: usize = pos + h.size;
    match h.length {
        Some(n) => {
            if h.id == 0 {
                if indefinite && n == 0 {
                    Step::Leave { next }
                } else {
                    Step::Stuck
                }
            } else if n > end - next {
                Step::Stuck
            } else if constructed {
                Step::Enter { inner: Frame { end: next + n, indefinite: false }, next }
            } else {
                Step::Over { next: next + n }
            }
        },
        None => {
            if h.id != 0 && constructed {
                Step::Enter { inner: Frame { end, indefinite: true }, next }
            } else {
                Step::Stuck
            }
        },
    }
}

/// Whether `s` is a run of well-formed values. Nesting takes heap, not stack.
pub fn check_all_values(s: &[u8]) -> (res: bool)
    ensures
        res == all_values(s@),
{
    let mut frames: Vec<Frame> = Vec::new();
    frames.push(Frame { end: s.len(), indefinite: false });
    let mut pos: usize = 0;
    proof {
        lemma_walk_start(s@, frames@);
    }
    while frames.len() > 0
        invariant
            pos <= s@.len(),
            frames_nest(s@, pos as int, frames@),
            walk_succeeds(s@, pos as int, frames@) == all_values(s@),
        decreases s@.len() - pos, frames@.len(),
    {
        let last: usize = frames.len() - 1;
        let end: usize = frames[last].end;
        let indefinite: bool = frames[last].indefinite;
        let ghost before = frames@;
        assert(before.last() == Frame { end, indefinite });
        match next_step(s, pos, end, indefinite) {
            Step::Stuck => {
                proof {
                    lemma_walk_stuck(s@, pos as int, before);
                }
                return false;
            },
            Step::Leave { next } => {
                proof {
                    lemma_walk_leave(s@, pos as int, before, next as int);
                }
                frames.pop();
                assert(frames@ =~= before.drop_last());
                pos = next;
            },
            Step::Over { next } => {
                proof {
                    lemma_walk_over(s@, pos as int, before, (next - pos) as nat);
                }
                pos = next;
            },
            Step::Enter { inner, next } => {
                proof {
                    let h = header(open_part(s@, pos as int, before))->0;
                    lemma_walk_enter(s@, pos as int, before, h, inner);
                }
                frames.push(inner);
                pos = next;
            },
        }
    }
    proof {
        reveal(walk_succeeds);
    }
    true
}

/// The walk starts with all of `s` open.
proof fn lemma_walk_start(s: Seq<u8>, frames: Seq<Frame>)
    requires
        frames.len() == 1,
        frames[0].end == s.len(),
        !frames[0].indefinite,
    ensures
        frames_nest(s, 0, frames),
        walk_succeeds(s, 0, frames) == all_values(s),
{
    assert(s.subrange(0, s.len() as int) =~= s);
    reveal_with_fuel(walk_succeeds, 2);
}

/// The values up to an end-of-contents marker lie within what is read.
proof fn lemma_values_to_end_bound(s: Seq<u8>)
    ensures
        values_to_end(s) matches Some(n) ==> 0 < n <= s.len(),
    decreases s.len(),
{
    lemma_header_bound(s);
    if let Some(n) = values_to_end(s) {
        let h = header(s)->0;
        if !h.is_end_of_contents() {
            let m = value_len(s)->0;
            lemma_values_to_end_bound(s.skip(m as int));
        }
    }
}

/// A header lies within what is read.
proof fn lemma_header_bound(s: Seq<u8>)
    ensures
        header(s) matches Some(h) ==> 2 <= h.size <= s.len() && h.size <= 9,
{
}

/// What comes next in the contents of a value.
pub enum NextView {
    /// The octets are no value.
    Malformed,
    /// There are no octets left, or the next value has another tag.
    Absent,
    /// The value that was asked for, and the octets behind it.
    Present { constructed: bool, content: Seq<u8>, rest: Seq<u8> },
}

/// The next value of `s` if it has the tag `tag`. A value that is looked into has a definite
/// length.
pub open spec fn next_if(s: Seq<u8>, tag: u8) -> NextView {
    if s.len() == 0 {
        NextView::Absent
    } else if identifier_len(s) is None {
        NextView::Malformed
    } else if !is_low_tag(s[0]) || tag_of(s[0]) != tag {
        NextView::Absent
    } else {
        match header(s) {
            None => NextView::Malformed,
            Some(h) => match h.length {
                None => NextView::Malformed,
                Some(n) => if h.size + n > s.len() {
                    NextView::Malformed
                } else {
                    NextView::Present {
                        constructed: is_constructed(h.id),
                        content: s.subrange(h.size as int, h.size + n as int),
                        rest: s.skip(h.size + n as int),
                    }
                },
            },
        }
    }
}

/// An optional primitive value with the tag `tag` at the front of `s`: its content, if it is
/// there, and what follows.
pub open spec fn opt_primitive(s: Seq<u8>, tag: u8) -> Option<(Option<Seq<u8>>, Seq<u8>)> {
    match next_if(s, tag) {
        NextView::Malformed => None,
        NextView::Absent => Some((None, s)),
        NextView::Present { constructed, content, rest } => if constructed {
            None
        } else {
            Some((Some(content), rest))
        },
    }
}

/// An optional constructed value with the tag `tag` at the front of `s`.
pub open spec fn opt_constructed(s: Seq<u8>, tag: u8) -> Option<(Option<Seq<u8>>, Seq<u8>)> {
    match next_if(s, tag) {
        NextView::Malformed => None,
        NextView::Absent => Some((None, s)),
        NextView::Present { constructed, content, rest } => if constructed {
            Some((Some(content), rest))
        } else {
            None
        },
    }
}

/// A primitive value with the tag `tag` at the front of `s`.
pub open spec fn primitive(s: Seq<u8>, tag: u8) -> Option<(Seq<u8>, Seq<u8>)> {
    match opt_primitive(s, tag) {
        Some((Some(content), rest)) => Some((content, rest)),
        _ => None,
    }
}

/// A constructed value with the tag `tag` at the front of `s`.
pub open spec fn constructed(s: Seq<u8>, tag: u8) -> Option<(Seq<u8>, Seq<u8>)> {
    match opt_constructed(s, tag) {
        Some((Some(content), rest)) => Some((content, rest)),
        _ => None,
    }
}

/// Whether `c` is the content of an INTEGER: at least one octet, and no octet that the sign of
/// the next one already says.
pub open spec fn is_integer(c: Seq<u8>) -> bool {
    &&& c.len() > 0
    &&& c.len() >= 2 ==> !(c[0] == 0 && c[1] < 0x80) && !(c[0] == 0xff && c[1] >= 0x80)
}

/// Whether `c` is the content of an OBJECT IDENTIFIER: at least one octet, with the last
/// component complete.
pub open spec fn is_oid(c: Seq<u8>) -> bool {
    c.len() > 0 && c.last() < 0x80
}

/// An INTEGER at the front of `s`.
pub open spec fn integer(s: Seq<u8>) -> Option<(Seq<u8>, Seq<u8>)> {
    match primitive(s, INTEGER) {
        Some((c, rest)) => if is_integer(c) {
            Some((c, rest))
        } else {
            None
        },
        None => None,
    }
}

/// An optional INTEGER at the front of `s`.
pub open spec fn opt_integer(s: Seq<u8>) -> Option<(Option<Seq<u8>>, Seq<u8>)> {
    match opt_primitive(s, INTEGER) {
        Some((Some(c), rest)) => if is_integer(c) {
            Some((Some(c), rest))
        } else {
            None
        },
        r => r,
    }
}

/// An INTEGER of one octet at the front of `s`.
pub open spec fn small_integer(s: Seq<u8>) -> Option<(u8, Seq<u8>)> {
    match primitive(s, INTEGER) {
        Some((c, rest)) => if c.len() == 1 {
            Some((c[0], rest))
        } else {
            None
        },
        None => None,
    }
}

/// An optional INTEGER of one octet at the front of `s`.
pub open spec fn opt_small_integer(s: Seq<u8>) -> Option<(Option<u8>, Seq<u8>)> {
    match opt_primitive(s, INTEGER) {
        Some((Some(c), rest)) => if c.len() == 1 {
            Some((Some(c[0]), rest))
        } else {
            None
        },
        Some((None, rest)) => Some((None, rest)),
        None => None,
    }
}

/// An OBJECT IDENTIFIER at the front of `s`.
pub open spec fn oid(s: Seq<u8>) -> Option<(Seq<u8>, Seq<u8>)> {
    match primitive(s, OBJECT_IDENTIFIER) {
        Some((c, rest)) => if is_oid(c) {
            Some((c, rest))
        } else {
            None
        },
        None => None,
    }
}

/// An optional OBJECT IDENTIFIER at the front of `s`.
pub open spec fn opt_oid(s: Seq<u8>) -> Option<(Option<Seq<u8>>, Seq<u8>)> {
    match opt_primitive(s, OBJECT_IDENTIFIER) {
        Some((Some(c), rest)) => if is_oid(c) {
            Some((Some(c), rest))
        } else {
            None
        },
        r => r,
    }
}

/// An OCTET STRING at the front of `s`.
pub open spec fn octets(s: Seq<u8>) -> Option<(Seq<u8>, Seq<u8>)> {
    primitive(s, OCTET_STRING)
}

/// An optional BOOLEAN at the front of `s`: one octet, all bits clear or all bits set.
pub open spec fn opt_boolean(s: Seq<u8>) -> Option<(Option<bool>, Seq<u8>)> {
    match opt_primitive(s, BOOLEAN) {
        Some((Some(c), rest)) => if c.len() == 1 && (c[0] == 0 || c[0] == 0xff) {
            Some((Some(c[0] == 0xff), rest))
        } else {
            None
        },
        Some((None, rest)) => Some((None, rest)),
        None => None,
    }
}

/// The views of what an optional read gives.
pub open spec fn opt_read_view(r: Option<(Option<&[u8]>, &[u8])>) -> Option<
    (Option<Seq<u8>>, Seq<u8>),
> {
    match r {
        Some((Some(c), rest)) => Some((Some(c@), rest@)),
        Some((None, rest)) => Some((None, rest@)),
        None => None,
    }
}

/// The views of what a read gives.
pub open spec fn read_view(r: Option<(&[u8], &[u8])>) -> Option<(Seq<u8>, Seq<u8>)> {
    match r {
        Some((c, rest)) => Some((c@, rest@)),
        None => None,
    }
}

/// Reads the next value of `s` if it has the tag `tag`: whether it is constructed, its content,
/// and what follows. The outer `None` stands for malformed octets.
fn read_if<'a>(s: &'a [u8], tag: u8) -> (res: Option<Option<(bool, &'a [u8], &'a [u8])>>)
    ensures
        match res {
            None => next_if(s@, tag) == NextView::Malformed,
            Some(None) => next_if(s@, tag) == NextView::Absent,
            Some(Some((constructed, content, rest))) => next_if(s@, tag) == (NextView::Present {
                constructed,
                content: content@,
                rest: rest@,
            }),
        },
{
    if s.len() == 0 {
        return Some(None);
    }
    let id: u8 = s[0];
    if id % 32 == 31 {
        let complete: bool = (s.len() >= 2 && s[1] < 0x80) || (s.len() >= 3 && s[1] >= 0x80 && s[2]
            < 0x80) || (s.len() >= 4 && s[1] >= 0x80 && s[2] >= 0x80 && s[3] < 0x80);
        if complete {
            return Some(None);
        }
        return None;
    }
    let is_cons: bool = (id / 32) % 2 == 1;
    let found: u8 = if is_cons {
        id - 32
    } else {
        id
    };
    if found != tag {
        return Some(None);
    }
    let h = match read_header(s) {
        Some(h) => h,
        None => {
            return None;
        },
    };
    let n = match h.length {
        Some(n) => n,
        None => {
            return None;
        },
    };
    if n > s.len() - h.size {
        return None;
    }
    let content = slice_subrange(s, h.size, h.size + n);
    let rest = slice_subrange(s, h.size + n, s.len());
    assert(rest@ =~= s@.skip(h.size + n as int));
    Some(Some((is_cons, content, rest)))
}

/// Reads an optional primitive value.
pub fn read_opt_primitive<'a>(s: &'a [u8], tag: u8) -> (res: Option<
    (Option<&'a [u8]>, &'a [u8]),
>)
    ensures
        opt_read_view(res) == opt_primitive(s@, tag),
{
    match read_if(s, tag) {
        None => None,
        Some(None) => Some((None, s)),
        Some(Some((is_cons, content, rest))) => if is_cons {
            None
        } else {
            Some((Some(content), rest))
        },
    }
}

/// Reads an optional constructed value.
pub fn read_opt_constructed<'a>(s: &'a [u8], tag: u8) -> (res: Option<
    (Option<&'a [u8]>, &'a [u8]),
>)
    ensures
        opt_read_view(res) == opt_constructed(s@, tag),
{
    match read_if(s, tag) {
        None => None,
        Some(None) => Some((None, s)),
        Some(Some((is_cons, content, rest))) => if is_cons {
            Some((Some(content), rest))
        } else {
            None
        },
    }
}

/// Reads a primitive value.
pub fn read_primitive<'a>(s: &'a [u8], tag: u8) -> (res: Option<(&'a [u8], &'a [u8])>)
    ensures
        read_view(res) == primitive(s@, tag),
{
    match read_opt_primitive(s, tag) {
        Some((Some(content), rest)) => Some((content, rest)),
        _ => None,
    }
}

/// Reads a constructed value.
pub fn read_constructed<'a>(s: &'a [u8], tag: u8) -> (res: Option<(&'a [u8], &'a [u8])>)
    ensures
        read_view(res) == constructed(s@, tag),
{
    match read_opt_constructed(s, tag) {
        Some((Some(content), rest)) => Some((content, rest)),
        _ => None,
    }
}

/// Whether `c` is the content of an INTEGER.
pub fn check_integer(c: &[u8]) -> (res: bool)
    ensures
        res == is_integer(c@),
{
    c.len() > 0 && (c.len() < 2 || (!(c[0] == 0 && c[1] < 0x80) && !(c[0] == 0xff && c[1]
        >= 0x80)))
}

/// The content of the INTEGER `n`: base 256, most significant octet first, with the sign in the top
/// bit of the first octet.
pub open spec fn unsigned_integer(n: nat) -> Seq<u8>
    decreases n,
{
    if n < 0x80 {
        seq![n as u8]
    } else {
        unsigned_integer(n / 256).push((n % 256) as u8)
    }
}

/// Whether `c` is the content of an OBJECT IDENTIFIER.
pub fn check_oid(c: &[u8]) -> (res: bool)
    ensures
        res == is_oid(c@),
{
    c.len() > 0 && c[c.len() - 1] < 0x80
}

/// Reads an INTEGER.
pub fn read_integer<'a>(s: &'a [u8]) -> (res: Option<(&'a [u8], &'a [u8])>)
    ensures
        read_view(res) == integer(s@),
{
    match read_primitive(s, INTEGER) {
        Some((c, rest)) => if check_integer(c) {
            Some((c, rest))
        } else {
            None
        },
        None => None,
    }
}

/// Reads an optional INTEGER.
pub fn read_opt_integer<'a>(s: &'a [u8]) -> (res: Option<(Option<&'a [u8]>, &'a [u8])>)
    ensures
        opt_read_view(res) == opt_integer(s@),
{
    match read_opt_primitive(s, INTEGER) {
        Some((Some(c), rest)) => if check_integer(c) {
            Some((Some(c), rest))
        } else {
            None
        },
        r => r,
    }
}

/// Reads an INTEGER of one octet.
pub fn read_small_integer<'a>(s: &'a [u8]) -> (res: Option<(u8, &'a [u8])>)
    ensures
        match res {
            Some((v, rest)) => small_integer(s@) == Some((v, rest@)),
            None => small_integer(s@) is None,
        },
{
    match read_primitive(s, INTEGER) {
        Some((c, rest)) => if c.len() == 1 {
            Some((c[0], rest))
        } else {
            None
        },
        None => None,
    }
}

/// Reads an optional INTEGER of one octet.
pub fn read_opt_small_integer<'a>(s: &'a [u8]) -> (res: Option<(Option<u8>, &'a [u8])>)
    ensures
        match res {
            Some((v, rest)) => opt_small_integer(s@) == Some((v, rest@)),
            None => opt_small_integer(s@) is None,
        },
{
    match read_opt_primitive(s, INTEGER) {
        Some((Some(c), rest)) => if c.len() == 1 {
            Some((Some(c[0]), rest))
        } else {
            None
        },
        Some((None, rest)) => Some((None, rest)),
        None => None,
    }
}

/// Reads an OBJECT IDENTIFIER.
pub fn read_oid<'a>(s: &'a [u8]) -> (res: Option<(&'a [u8], &'a [u8])>)
    ensures
        read_view(res) == oid(s@),
{
    match read_primitive(s, OBJECT_IDENTIFIER) {
        Some((c, rest)) => if check_oid(c) {
            Some((c, rest))
        } else {
            None
        },
        None => None,
    }
}

/// Reads an optional OBJECT IDENTIFIER.
pub fn read_opt_oid<'a>(s: &'a [u8]) -> (res: Option<(Option<&'a [u8]>, &'a [u8])>)
    ensures
        opt_read_view(res) == opt_oid(s@),
{
    match read_opt_primitive(s, OBJECT_IDENTIFIER) {
        Some((Some(c), rest)) => if check_oid(c) {
            Some((Some(c), rest))
        } else {
            None
        },
        r => r,
    }
}

/// Reads an OCTET STRING.
pub fn read_octets<'a>(s: &'a [u8]) -> (res: Option<(&'a [u8], &'a [u8])>)
    ensures
        read_view(res) == octets(s@),
{
    read_primitive(s, OCTET_STRING)
}

/// Reads an optional BOOLEAN.
pub fn read_opt_boolean<'a>(s: &'a [u8]) -> (res: Option<(Option<bool>, &'a [u8])>)
    ensures
        match res {
            Some((v, rest)) => opt_boolean(s@) == Some((v, rest@)),
            None => opt_boolean(s@) is None,
        },
{
    match read_opt_primitive(s, BOOLEAN) {
        Some((Some(c), rest)) => if c.len() == 1 && (c[0] == 0 || c[0] == 0xff) {
            Some((Some(c[0] == 0xff), rest))
        } else {
            None
        },
        Some((None, rest)) => Some((None, rest)),
        None => None,
    }
}

/// A copy of the octets, where there are any.
pub fn opt_to_vec(o: Option<&[u8]>) -> (res: Option<Vec<u8>>)
    ensures
        match o {
            Some(c) => res matches Some(v) && v@ == c@,
            None => res is None,
        },
{
    match o {
        Some(c) => Some(slice_to_vec(c)),
        None => None,
    }
}

/// The view of octets that may be missing.
pub open spec fn opt_view(o: Option<Vec<u8>>) -> Option<Seq<u8>> {
    match o {
        Some(v) => Some(v@),
        None => None,
    }
}

/// The content of a number is that of an INTEGER without a sign, and has the value of the number.
pub proof fn lemma_unsigned_integer(n: nat)
    ensures
        is_integer(unsigned_integer(n)),
        unsigned_integer(n)[0] < 0x80,
        be_value(unsigned_integer(n)) == n,
        n >= 0x80 ==> unsigned_integer(n).len() >= 2,
    decreases n,
{
    if n < 0x80 {
        let s = seq![n as u8];
        assert(s.drop_last() =~= Seq::<u8>::empty());
        assert(be_value(s.drop_last()) == 0);
        assert(be_value(s) == n);
    } else {
        let high = unsigned_integer(n / 256);
        lemma_unsigned_integer(n / 256);
        lemma_be_value_push(high, (n % 256) as u8);
        if n / 256 < 0x80 {
            assert(high[0] == n / 256);
            assert(unsigned_integer(n)[1] == n % 256);
        }
    }
}

/// The content of a machine integer has at most nine octets.
pub proof fn lemma_unsigned_integer_len(n: u64)
    ensures
        unsigned_integer(n as nat).len() <= 9,
{
    reveal_with_fuel(unsigned_integer, 10);
    assert(n / 256 / 256 / 256 / 256 / 256 / 256 / 256 / 256 == 0);
}

} // verus!
