//! Recovering a compile request, or a listing argument, from chat text.

use vstd::prelude::*;
use crate::text::{
    chars_of, decimal, decimal_string, is_whitespace_char, is_ws, remove_occurrences, removed,
    split_words, string_of, words,
};

verus! {

broadcast use vstd::string::group_string_axioms;

/// What the platform marked a stretch of a message as.
#[derive(Clone, Copy, Debug, PartialEq, Eq, Structural)]
pub enum SpanKind {
    /// Inline code.
    Code,
    /// A preformatted block.
    Pre,
    /// Any other markup.
    Other,
}

/// A marked stretch of a message, with the text it covers.
#[derive(Debug)]
pub struct Span {
    pub kind: SpanKind,
    pub text: String,
}

/// An incoming chat message: its text and the stretches marked in it.
#[derive(Debug)]
pub struct ChatMessage {
    pub text: String,
    pub spans: Vec<Span>,
}

pub open spec fn is_code(k: SpanKind) -> bool {
    k is Code || k is Pre
}

/// The texts of the code spans, in order.
pub open spec fn code_texts(spans: Seq<Span>) -> Seq<Seq<char>>
    decreases spans.len(),
{
    if spans.len() == 0 {
        Seq::empty()
    } else if is_code(spans.last().kind) {
        code_texts(spans.drop_last()).push(spans.last().text@)
    } else {
        code_texts(spans.drop_last())
    }
}

pub open spec fn count_error(n: nat) -> Seq<char> {
    "expected exactly one code block, got "@ + decimal(n)
}

pub open spec fn command_error() -> Seq<char> {
    "expected compile command"@
}

/// The compiler id and code of a compile message, or why there are none:
/// exactly one code span must be marked, and the text with that code
/// removed must hold a command word and then the compiler id.
pub open spec fn compile_request(text: Seq<char>, spans: Seq<Span>) -> Result<
    (Seq<char>, Seq<char>),
    Seq<char>,
> {
    let codes = code_texts(spans);
    if codes.len() != 1 {
        Err(count_error(codes.len()))
    } else {
        let ws = words(removed(text, codes[0]));
        if ws.len() >= 2 {
            Ok((ws[1], codes[0]))
        } else {
            Err(command_error())
        }
    }
}

fn code_spans(spans: &Vec<Span>) -> (r: Vec<String>)
    ensures
        r@.map_values(|s: String| s@) == code_texts(spans@),
{
    let mut r: Vec<String> = Vec::new();
    let mut i: usize = 0;
    while i < spans.len()
        invariant
            i <= spans@.len(),
            r@.map_values(|s: String| s@) == code_texts(spans@.take(i as int)),
        decreases spans@.len() - i,
    {
        assert(spans@.take(i + 1).drop_last() =~= spans@.take(i as int));
        if spans[i].kind == SpanKind::Code || spans[i].kind == SpanKind::Pre {
            r.push(spans[i].text.clone());
            assert(r@.map_values(|s: String| s@) =~= r@.drop_last().map_values(|s: String| s@).push(
                spans@[i as int].text@,
            ));
        }
        i = i + 1;
    }
    assert(spans@.take(i as int) =~= spans@);
    r
}

/// Extracts the compiler id and the code from a compile message, or the
/// reason, for the user, why the message holds no compile request.
pub fn parse_compile_msg(msg: &ChatMessage) -> (r: Result<(String, String), String>)
    ensures
        match r {
            Ok((id, code)) => compile_request(msg.text@, msg.spans@) == Ok::<
                (Seq<char>, Seq<char>),
                Seq<char>,
            >((id@, code@)),
            Err(e) => compile_request(msg.text@, msg.spans@) == Err::<
                (Seq<char>, Seq<char>),
                Seq<char>,
            >(e@),
        },
        code_texts(msg.spans@).len() == 1 && words(
            removed(msg.text@, code_texts(msg.spans@)[0]),
        ).len() >= 2 ==> (r matches Ok((id, code)) && id@ == words(
            removed(msg.text@, code_texts(msg.spans@)[0]),
        )[1] && code@ == code_texts(msg.spans@)[0]),
        code_texts(msg.spans@).len() != 1 ==> (r matches Err(e) && e@ == count_error(
            code_texts(msg.spans@).len(),
        )),
{
    let codes = code_spans(&msg.spans);
    if codes.len() != 1 {
        let mut e = String::from_str("expected exactly one code block, got ");
        let n = decimal_string(codes.len());
        e.append(n.as_str());
        return Err(e);
    }
    assert(codes@[0]@ == code_texts(msg.spans@)[0]);
    let code = codes[0].clone();
    let text = chars_of(msg.text.as_str());
    let pat = chars_of(code.as_str());
    let rest = remove_occurrences(&text, &pat);
    let ws = split_words(&rest);
    if ws.len() >= 2 {
        assert(ws@[1]@ == words(rest@)[1]);
        let id = string_of(&ws[1], 0, ws[1].len());
        assert(ws[1]@.subrange(0, ws[1]@.len() as int) =~= ws[1]@);
        Ok((id, code))
    } else {
        Err(String::from_str("expected compile command"))
    }
}

/// The first index at or after `i` that holds whitespace, or the length.
pub open spec fn next_ws(t: Seq<char>, i: int) -> int
    decreases t.len() - i,
{
    if i < 0 || i >= t.len() {
        t.len() as int
    } else if is_ws(t[i]) {
        i
    } else {
        next_ws(t, i + 1)
    }
}

/// The first index at or after `i` that holds no whitespace, or the length.
pub open spec fn next_non_ws(t: Seq<char>, i: int) -> int
    decreases t.len() - i,
{
    if i < 0 || i >= t.len() {
        t.len() as int
    } else if !is_ws(t[i]) {
        i
    } else {
        next_non_ws(t, i + 1)
    }
}

/// The end of `t.take(e)` once its trailing whitespace is dropped.
pub open spec fn trimmed_end(t: Seq<char>, e: int) -> int
    decreases e,
{
    if e <= 0 || e > t.len() {
        0
    } else if is_ws(t[e - 1]) {
        trimmed_end(t, e - 1)
    } else {
        e
    }
}

/// `s` without leading and trailing whitespace.
pub open spec fn trimmed(s: Seq<char>) -> Seq<char> {
    let b = next_non_ws(s, 0);
    let e = trimmed_end(s, s.len() as int);
    if b < e {
        s.subrange(b, e)
    } else {
        Seq::empty()
    }
}

/// The first word of the trimmed argument, and what follows the whitespace
/// run after it.
pub open spec fn split_argument(s: Seq<char>) -> (Seq<char>, Seq<char>) {
    let t = trimmed(s);
    let i = next_ws(t, 0);
    (t.take(i), t.skip(next_non_ws(t, i)))
}

fn skip_ws(v: &Vec<char>, from: usize) -> (r: usize)
    requires
        from <= v@.len(),
    ensures
        r == next_non_ws(v@, from as int),
        from <= r <= v@.len(),
{
    let mut i = from;
    while i < v.len() && is_whitespace_char(v[i])
        invariant
            from <= i <= v@.len(),
            next_non_ws(v@, i as int) == next_non_ws(v@, from as int),
        decreases v@.len() - i,
    {
        i = i + 1;
    }
    i
}

fn find_ws(v: &Vec<char>, from: usize) -> (r: usize)
    requires
        from <= v@.len(),
    ensures
        r == next_ws(v@, from as int),
        from <= r <= v@.len(),
{
    let mut i = from;
    while i < v.len() && !is_whitespace_char(v[i])
        invariant
            from <= i <= v@.len(),
            next_ws(v@, i as int) == next_ws(v@, from as int),
        decreases v@.len() - i,
    {
        i = i + 1;
    }
    i
}

/// Splits a listing argument into a language id and a compiler-name filter.
pub fn parse_compilers_language(s: &str) -> (r: (String, String))
    ensures
        (r.0@, r.1@) == split_argument(s@),
{
    let v = chars_of(s);
    let b = skip_ws(&v, 0);
    let mut e = v.len();
    while e > 0 && is_whitespace_char(v[e - 1])
        invariant
            e <= v@.len(),
            trimmed_end(v@, e as int) == trimmed_end(v@, v@.len() as int),
        decreases e,
    {
        e = e - 1;
    }
    let t: Vec<char> = if b < e {
        chars_of(string_of(&v, b, e).as_str())
    } else {
        Vec::new()
    };
    assert(t@ =~= trimmed(s@));
    let i = find_ws(&t, 0);
    let j = skip_ws(&t, i);
    let first = string_of(&t, 0, i);
    let rest = string_of(&t, j, t.len());
    assert(first@ =~= t@.take(i as int));
    assert(rest@ =~= t@.skip(j as int));
    (first, rest)
}

} // verus!
