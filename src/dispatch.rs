//! What the bot does with each command, and the replies it sends.

use vstd::prelude::*;
use crate::delivery::{bounded_for_delivery, trim_message};
use crate::extract::{compile_request, parse_compile_msg, parse_compilers_language, split_argument, ChatMessage};
use crate::godbolt::{CompilationOutput, Compiler, Language};
use crate::markup::{wrap_in_md, wrapped};
use crate::table::{compilers_listing, format_compilers, format_languages, language_header, language_rows, table};
use crate::text::{chars_of, contains, contains_chars};

verus! {

broadcast use vstd::string::group_string_axioms;

/// A command of the bot.
#[derive(Debug)]
pub enum Command {
    Help,
    Ping,
    Compile,
    Languages,
    Compilers { language: String },
}

/// The next step for a command.
#[derive(Debug)]
pub enum Action {
    /// Send the list of commands.
    SendHelp,
    /// Send this text without markup.
    SendPlain(String),
    /// Fetch the languages, then reply with `languages_reply`.
    FetchLanguages,
    /// Fetch the compilers of a language, then reply with `compilers_reply`.
    FetchCompilers { language_id: String, filter: String },
    /// Compile the code, then reply with `compilation_reply`.
    Compile { compiler_id: String, code: String },
}

/// Decides what to do with a command that came with a message.
pub fn plan(cmd: Command, msg: &ChatMessage) -> (r: Action)
    ensures
        match cmd {
            Command::Help => r is SendHelp,
            Command::Ping => r matches Action::SendPlain(t) && t@ == "Pong"@,
            Command::Languages => r is FetchLanguages,
            Command::Compilers { language } => r matches Action::FetchCompilers {
                language_id,
                filter,
            } && (language_id@, filter@) == split_argument(language@),
            Command::Compile => match compile_request(msg.text@, msg.spans@) {
                Ok((id, code)) => r matches Action::Compile { compiler_id, code: c } && compiler_id@
                    == id && c@ == code,
                Err(e) => r matches Action::SendPlain(t) && t@ == bounded_for_delivery(e),
            },
        },
{
    match cmd {
        Command::Help => Action::SendHelp,
        Command::Ping => Action::SendPlain(String::from_str("Pong")),
        Command::Languages => Action::FetchLanguages,
        Command::Compilers { language } => {
            let (language_id, filter) = parse_compilers_language(language.as_str());
            Action::FetchCompilers { language_id, filter }
        },
        Command::Compile => match parse_compile_msg(msg) {
            Ok((compiler_id, code)) => Action::Compile { compiler_id, code },
            Err(e) => Action::SendPlain(trim_message(e.as_str())),
        },
    }
}

/// The compilers whose name holds `filter`, in their order.
pub fn filter_compilers(compilers: &[Compiler], filter: &str) -> (r: Vec<Compiler>)
    ensures
        r@ == compilers@.filter(|c: Compiler| contains(c.name@, filter@)),
{
    let f = chars_of(filter);
    let mut r: Vec<Compiler> = Vec::new();
    let mut i: usize = 0;
    while i < compilers.len()
        invariant
            i <= compilers@.len(),
            f@ == filter@,
            r@ == compilers@.take(i as int).filter(|c: Compiler| contains(c.name@, filter@)),
        decreases compilers@.len() - i,
    {
        proof {
            reveal(Seq::filter);
            assert(compilers@.take(i + 1).drop_last() =~= compilers@.take(i as int));
        }
        let c = &compilers[i];
        let name = chars_of(c.name.as_str());
        if contains_chars(&name, &f) {
            r.push(Compiler { id: c.id.clone(), name: c.name.clone(), semver: c.semver.clone() });
        }
        i = i + 1;
    }
    assert(compilers@.take(i as int) =~= compilers@);
    r
}

/// The reply to a listing of languages.
pub fn languages_reply(langs: &[Language]) -> (r: String)
    ensures
        r@ == bounded_for_delivery(wrapped(table(language_header(), language_rows(langs@)))),
{
    let t = format_languages(langs);
    trim_message(t.as_str())
}

/// The reply to a listing of compilers: those whose name holds `filter`.
pub fn compilers_reply(compilers: &[Compiler], filter: &str) -> (r: String)
    ensures
        r@ == bounded_for_delivery(
            compilers_listing(compilers@.filter(|c: Compiler| contains(c.name@, filter@))),
        ),
{
    let kept = filter_compilers(compilers, filter);
    let t = format_compilers(kept.as_slice());
    trim_message(t.as_str())
}

/// A preformatted reply holding `text`.
pub fn preformatted_reply(text: &str) -> (r: String)
    ensures
        r@ == bounded_for_delivery(wrapped(text@)),
{
    let t = wrap_in_md(text);
    trim_message(t.as_str())
}

/// `s` with its terminal control sequences removed.
pub uninterp spec fn ansi_stripped(s: Seq<char>) -> Seq<char>;

/// Relies on `strip_ansi_escapes::strip_str`: the text without its ANSI
/// escape sequences, which depends on the text alone.
#[verifier::external_body]
fn strip_ansi(s: &str) -> (r: String)
    ensures
        r@ == ansi_stripped(s@),
{
    strip_ansi_escapes::strip_str(s)
}

/// The reply to a compilation: the assembly, or the diagnostics without
/// their terminal color codes.
pub fn compilation_reply(output: &CompilationOutput) -> (r: String)
    ensures
        match output {
            CompilationOutput::Assembly(a) => r@ == bounded_for_delivery(wrapped(a@)),
            CompilationOutput::Stderr(e) => r@ == bounded_for_delivery(wrapped(ansi_stripped(e@))),
        },
{
    match output {
        CompilationOutput::Assembly(a) => preformatted_reply(a.as_str()),
        CompilationOutput::Stderr(e) => {
            let clean = strip_ansi(e.as_str());
            preformatted_reply(clean.as_str())
        },
    }
}

} // verus!
