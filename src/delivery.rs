//! Bounding outgoing text to the chat platform's message size.

use vstd::prelude::*;
use crate::text::{chars_of, string_of};

verus! {

/// The largest message the platform delivers, in characters.
pub const MAX_MESSAGE_CHARS: usize = 4096;

/// Appended to a plain message that had to be cut.
pub const TRIM_SUFFIX_PLAIN: &'static str = "\n... (message trimmed)";

/// Appended to a fenced message that had to be cut; it closes the fence again.
pub const TRIM_SUFFIX_FENCED: &'static str = "\n... (message trimmed)```";

/// The fence marker of a preformatted block.
pub open spec fn fence() -> Seq<char> {
    seq!['`', '`', '`']
}

pub open spec fn starts_with(s: Seq<char>, p: Seq<char>) -> bool {
    p.len() <= s.len() && s.take(p.len() as int) == p
}

pub open spec fn ends_with(s: Seq<char>, p: Seq<char>) -> bool {
    p.len() <= s.len() && s.skip(s.len() - p.len()) == p
}

/// A preformatted block: the text opens and closes with the fence marker.
pub open spec fn is_fenced(s: Seq<char>) -> bool {
    starts_with(s, fence()) && ends_with(s, fence())
}

/// The suffix that marks a cut message.
pub open spec fn trim_suffix(s: Seq<char>) -> Seq<char> {
    if is_fenced(s) {
        TRIM_SUFFIX_FENCED@
    } else {
        TRIM_SUFFIX_PLAIN@
    }
}

/// The text as delivered: unchanged when it fits, else cut so that the cut
/// text and its suffix fill the limit exactly.
pub open spec fn bounded_for_delivery(s: Seq<char>) -> Seq<char> {
    if s.len() <= MAX_MESSAGE_CHARS {
        s
    } else {
        s.take(MAX_MESSAGE_CHARS - trim_suffix(s).len()) + trim_suffix(s)
    }
}

pub proof fn lemma_suffix_lengths()
    ensures
        TRIM_SUFFIX_PLAIN@.len() == 22,
        TRIM_SUFFIX_FENCED@.len() == 25,
        ends_with(TRIM_SUFFIX_FENCED@, fence()),
{
    reveal_strlit("\n... (message trimmed)");
    reveal_strlit("\n... (message trimmed)```");
    assert(TRIM_SUFFIX_FENCED@.skip(22) =~= fence());
}

fn fenced(v: &Vec<char>) -> (r: bool)
    ensures
        r == is_fenced(v@),
{
    let n = v.len();
    if n < 3 {
        return false;
    }
    let r = v[0] == '`' && v[1] == '`' && v[2] == '`' && v[n - 3] == '`' && v[n - 2] == '`'
        && v[n - 1] == '`';
    assert(r == (v@.take(3) =~= fence() && v@.skip(n - 3) =~= fence()));
    r
}

/// Cuts `s` to at most `MAX_MESSAGE_CHARS` characters, marking the cut and
/// keeping a preformatted block closed.
pub fn trim_message(s: &str) -> (r: String)
    ensures
        r@ == bounded_for_delivery(s@),
        s@.len() <= MAX_MESSAGE_CHARS ==> r@ == s@,
        s@.len() > MAX_MESSAGE_CHARS ==> r@.len() == MAX_MESSAGE_CHARS,
        s@.len() > MAX_MESSAGE_CHARS ==> (is_fenced(s@) <==> is_fenced(r@)),
        s@.len() > MAX_MESSAGE_CHARS ==> r@.take(MAX_MESSAGE_CHARS - trim_suffix(s@).len())
            == s@.take(MAX_MESSAGE_CHARS - trim_suffix(s@).len()),
{
    let v = chars_of(s);
    if v.len() <= MAX_MESSAGE_CHARS {
        return string_of(&v, 0, v.len());
    }
    proof {
        lemma_suffix_lengths();
    }
    let is_md = fenced(&v);
    let suffix = if is_md {
        TRIM_SUFFIX_FENCED
    } else {
        TRIM_SUFFIX_PLAIN
    };
    let keep: usize = if is_md {
        MAX_MESSAGE_CHARS - 25
    } else {
        MAX_MESSAGE_CHARS - 22
    };
    let mut r = string_of(&v, 0, keep);
    r.append(suffix);
    proof {
        let out = r@;
        assert(v@.subrange(0, keep as int) == v@.take(keep as int));
        assert(out.take(keep as int) =~= s@.take(keep as int));
        assert(out.take(3) =~= s@.take(3));
        assert(out.skip(out.len() - 3) =~= suffix@.skip(suffix@.len() - 3));
        if !is_md {
            // a plain suffix ends in ')', so the result is not a closed fence
            reveal_strlit("\n... (message trimmed)");
            assert(out[out.len() - 1] == ')');
            assert(out.skip(out.len() - 3)[2] == ')');
        }
    }
    r
}

} // verus!
