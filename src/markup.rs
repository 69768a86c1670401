//! Escaping for the platform's MarkdownV2 dialect, and preformatted blocks.

use vstd::prelude::*;
use crate::delivery::fence;

verus! {

broadcast use vstd::string::group_string_axioms;

/// The characters that MarkdownV2 reserves.
pub open spec fn is_reserved(c: char) -> bool {
    c == '_' || c == '*' || c == '[' || c == ']' || c == '(' || c == ')' || c == '~' || c == '`'
        || c == '>' || c == '#' || c == '+' || c == '-' || c == '=' || c == '|' || c == '{'
        || c == '}' || c == '.' || c == '!'
}

/// One character as escaped text.
pub open spec fn escape_char(c: char) -> Seq<char> {
    if is_reserved(c) {
        seq!['\\', c]
    } else {
        seq![c]
    }
}

/// `s` with a backslash put before each reserved character.
pub open spec fn md_escaped(s: Seq<char>) -> Seq<char>
    decreases s.len(),
{
    if s.len() == 0 {
        s
    } else {
        md_escaped(s.drop_last()) + escape_char(s.last())
    }
}

/// Relies on teloxide's `utils::markdown::escape`: a backslash before each
/// of its eighteen reserved characters, every character kept in order.
#[verifier::external_body]
fn md_escape(s: &str) -> (r: String)
    ensures
        r@ == md_escaped(s@),
{
    teloxide::utils::markdown::escape(s)
}

/// Escapes `s` so that the platform shows it literally.
pub fn escape(s: &str) -> (r: String)
    ensures
        r@ == md_escaped(s@),
{
    md_escape(s)
}

pub open spec fn fence_open() -> Seq<char> {
    fence().push('\n')
}

pub open spec fn fence_close() -> Seq<char> {
    seq!['\n'] + fence()
}

/// A preformatted block holding `s`, escaped.
pub open spec fn wrapped(s: Seq<char>) -> Seq<char> {
    fence_open() + md_escaped(s) + fence_close()
}

/// Escapes `s` and fences it as a preformatted block.
pub fn wrap_in_md(s: &str) -> (r: String)
    ensures
        r@ == wrapped(s@),
{
    let mut r = String::from_str("```\n");
    let body = md_escape(s);
    r.append(body.as_str());
    r.append("\n```");
    proof {
        reveal_strlit("```\n");
        reveal_strlit("\n```");
        assert(r@ =~= wrapped(s@));
    }
    r
}

/// The number of backslashes that `t` ends with.
pub open spec fn trailing_backslashes(t: Seq<char>) -> nat
    decreases t.len(),
{
    if t.len() > 0 && t.last() == '\\' {
        1 + trailing_backslashes(t.drop_last())
    } else {
        0
    }
}

/// Every backtick of `t` follows an odd run of backslashes, so none of them
/// can open or close a fence.
pub open spec fn backticks_escaped(t: Seq<char>) -> bool
    decreases t.len(),
{
    if t.len() == 0 {
        true
    } else if t.last() == '`' {
        backticks_escaped(t.drop_last()) && trailing_backslashes(t.drop_last()) % 2 == 1
    } else {
        backticks_escaped(t.drop_last())
    }
}

/// No backtick of `s` follows an odd run of backslashes: escaping would make
/// that run even, leaving the backtick live.
pub open spec fn no_escaped_backtick(s: Seq<char>) -> bool
    decreases s.len(),
{
    if s.len() == 0 {
        true
    } else if s.last() == '`' {
        no_escaped_backtick(s.drop_last()) && trailing_backslashes(s.drop_last()) % 2 == 0
    } else {
        no_escaped_backtick(s.drop_last())
    }
}

proof fn lemma_trailing_after(t: Seq<char>, c: char)
    ensures
        trailing_backslashes(t.push(c)) == if c == '\\' {
            1 + trailing_backslashes(t)
        } else {
            0
        },
{
    assert(t.push(c).drop_last() =~= t);
}

proof fn lemma_escaped_trailing(s: Seq<char>)
    ensures
        trailing_backslashes(md_escaped(s)) == trailing_backslashes(s),
    decreases s.len(),
{
    if s.len() > 0 {
        let p = s.drop_last();
        let c = s.last();
        lemma_escaped_trailing(p);
        assert(s =~= p.push(c));
        lemma_trailing_after(p, c);
        if is_reserved(c) {
            assert(md_escaped(s) =~= md_escaped(p).push('\\').push(c));
            lemma_trailing_after(md_escaped(p).push('\\'), c);
        } else {
            assert(md_escaped(s) =~= md_escaped(p).push(c));
            lemma_trailing_after(md_escaped(p), c);
        }
    }
}

proof fn lemma_escaped_backticks(s: Seq<char>)
    requires
        no_escaped_backtick(s),
    ensures
        backticks_escaped(md_escaped(s)),
    decreases s.len(),
{
    if s.len() > 0 {
        let p = s.drop_last();
        let c = s.last();
        let e = md_escaped(p);
        lemma_escaped_backticks(p);
        if is_reserved(c) {
            assert(md_escaped(s) =~= e.push('\\').push(c));
            assert(e.push('\\').push(c).drop_last() =~= e.push('\\'));
            assert(e.push('\\').drop_last() =~= e);
            assert(backticks_escaped(e.push('\\')));
            if c == '`' {
                lemma_escaped_trailing(p);
                lemma_trailing_after(e, '\\');
                assert(trailing_backslashes(p) % 2 == 0);
            }
            assert(backticks_escaped(e.push('\\').push(c)));
        } else {
            assert(md_escaped(s) =~= e.push(c));
            assert(e.push(c).drop_last() =~= e);
            assert(backticks_escaped(e.push(c)));
        }
    }
}

/// Escaped text cannot break out of the block it is fenced in: inside a
/// preformatted block every backtick of the escaped text is itself escaped,
/// and the closing fence follows a line break, so it is not. This holds of
/// every text in which no backtick already follows an odd run of
/// backslashes; the escape leaves backslashes as they are.
pub proof fn lemma_fence_cannot_break(s: Seq<char>)
    requires
        no_escaped_backtick(s),
    ensures
        wrapped(s) == fence_open() + md_escaped(s) + fence_close(),
        backticks_escaped(md_escaped(s)),
        trailing_backslashes(fence_open() + md_escaped(s) + seq!['\n']) == 0,
{
    lemma_escaped_backticks(s);
    lemma_trailing_after(fence_open() + md_escaped(s), '\n');
    assert((fence_open() + md_escaped(s)).push('\n') =~= fence_open() + md_escaped(s) + seq!['\n']);
}

} // verus!
