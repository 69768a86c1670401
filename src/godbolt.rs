//! The data of the Compiler Explorer API, and what the library makes of its
//! answers.

use vstd::prelude::*;

verus! {

broadcast use vstd::string::group_string_axioms;

/// A source language the service supports.
#[derive(Debug)]
pub struct Language {
    pub id: String,
    pub name: String,
}

/// One compiler of a language.
#[derive(Debug)]
pub struct Compiler {
    pub id: String,
    pub name: String,
    pub semver: String,
}

/// What a compile request gave back.
#[derive(Debug)]
pub enum CompilationOutput {
    /// The assembly listing, when the compiler wrote no diagnostics.
    Assembly(String),
    /// The compiler's diagnostics.
    Stderr(String),
}

/// What a compile-and-run request gave back.
#[derive(Debug)]
pub enum ExecutionOutput {
    /// The build failed; its diagnostics.
    BuildFailure(String),
    /// The program ran.
    ExecutionSuccess { stdout: String, stderr: String, exit_code: i32 },
    /// The service answered without a result.
    ApiError(String),
}

/// The result part of a compile-and-run answer, each output as its lines.
#[derive(Debug)]
pub struct ExecReport {
    pub code: i32,
    pub stdout: Vec<String>,
    pub stderr: Vec<String>,
    pub build_code: i32,
    pub build_stderr: Vec<String>,
}

/// Where the service is.
pub const GODBOLT_URL: &'static str = "https://godbolt.org";

pub open spec fn api_url(path: Seq<char>) -> Seq<char> {
    GODBOLT_URL@ + "/api/"@ + path
}

/// The address of an API path.
pub fn route(path: &str) -> (r: String)
    ensures
        r@ == api_url(path@),
{
    let mut r = String::from_str(GODBOLT_URL);
    r.append("/api/");
    r.append(path);
    r
}

/// The address to compile with a compiler.
pub fn compile_url(compiler_id: &str) -> (r: String)
    ensures
        r@ == api_url("compiler/"@ + compiler_id@ + "/compile"@),
{
    let mut p = String::from_str("compiler/");
    p.append(compiler_id);
    p.append("/compile");
    route(p.as_str())
}

/// The address listing the compilers of a language.
pub fn compilers_url(language_id: &str) -> (r: String)
    ensures
        r@ == api_url("compilers/"@ + language_id@),
{
    let mut p = String::from_str("compilers/");
    p.append(language_id);
    route(p.as_str())
}

/// The address listing the languages.
pub fn languages_url() -> (r: String)
    ensures
        r@ == api_url("languages"@),
{
    route("languages")
}

/// The lines joined by line breaks.
pub open spec fn joined(lines: Seq<Seq<char>>) -> Seq<char>
    decreases lines.len(),
{
    if lines.len() == 0 {
        Seq::empty()
    } else if lines.len() == 1 {
        lines[0]
    } else {
        joined(lines.drop_last()) + seq!['\n'] + lines.last()
    }
}

pub open spec fn texts(lines: Seq<String>) -> Seq<Seq<char>> {
    lines.map_values(|l: String| l@)
}

/// The lines joined by line breaks.
pub fn join_lines(lines: &Vec<String>) -> (r: String)
    ensures
        r@ == joined(texts(lines@)),
{
    let ghost ls = texts(lines@);
    let mut r = String::new();
    let mut i: usize = 0;
    assert(ls.take(0) =~= Seq::<Seq<char>>::empty());
    while i < lines.len()
        invariant
            ls == texts(lines@),
            i <= lines@.len(),
            r@ == joined(ls.take(i as int)),
        decreases lines@.len() - i,
    {
        assert(ls.take(i + 1).drop_last() =~= ls.take(i as int));
        if i > 0 {
            r.append("\n");
        }
        r.append(lines[i].as_str());
        proof {
            reveal_strlit("\n");
            if i == 0 {
                assert(r@ =~= joined(ls.take(1)));
            } else {
                assert(r@ =~= joined(ls.take(i + 1)));
            }
        }
        i = i + 1;
    }
    assert(ls.take(i as int) =~= ls);
    r
}

/// The outcome of a compilation from its assembly and diagnostic lines: the
/// diagnostics when there are any, else the assembly.
pub fn compilation_output(assembly: &Vec<String>, stderr: &Vec<String>) -> (r: CompilationOutput)
    ensures
        match r {
            CompilationOutput::Assembly(a) => stderr@.len() == 0 && a@ == joined(texts(assembly@)),
            CompilationOutput::Stderr(e) => stderr@.len() > 0 && e@ == joined(texts(stderr@)),
        },
{
    if stderr.len() > 0 {
        CompilationOutput::Stderr(join_lines(stderr))
    } else {
        CompilationOutput::Assembly(join_lines(assembly))
    }
}

pub open spec fn no_result_text() -> Seq<char> {
    "API did not return an execution result."@
}

/// The outcome of a compile-and-run request: the build's diagnostics when it
/// failed, else what the program wrote and its exit code.
pub fn execution_output(report: Option<ExecReport>) -> (r: ExecutionOutput)
    ensures
        match report {
            None => r matches ExecutionOutput::ApiError(m) && m@ == no_result_text(),
            Some(x) => if x.build_code != 0 {
                r matches ExecutionOutput::BuildFailure(e) && e@ == joined(texts(x.build_stderr@))
            } else {
                r matches ExecutionOutput::ExecutionSuccess { stdout, stderr, exit_code }
                    && stdout@ == joined(texts(x.stdout@)) && stderr@ == joined(texts(x.stderr@))
                    && exit_code == x.code
            },
        },
{
    match report {
        None => ExecutionOutput::ApiError(String::from_str("API did not return an execution result.")),
        Some(x) => {
            if x.build_code != 0 {
                ExecutionOutput::BuildFailure(join_lines(&x.build_stderr))
            } else {
                ExecutionOutput::ExecutionSuccess {
                    stdout: join_lines(&x.stdout),
                    stderr: join_lines(&x.stderr),
                    exit_code: x.code,
                }
            }
        },
    }
}

} // verus!
