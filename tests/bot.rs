use godbolt_bot::delivery::trim_message;
use godbolt_bot::dispatch::{
    compilation_reply, compilers_reply, filter_compilers, languages_reply, plan, preformatted_reply,
    Action, Command,
};
use godbolt_bot::extract::{parse_compile_msg, parse_compilers_language, ChatMessage, Span, SpanKind};
use godbolt_bot::godbolt::{
    compilation_output, compile_url, compilers_url, execution_output, join_lines, languages_url,
    route, CompilationOutput, Compiler, ExecReport, ExecutionOutput, Language,
};
use godbolt_bot::markup::{escape, wrap_in_md};
use godbolt_bot::table::{format_compilers, format_languages, render_table};
use godbolt_bot::text::decimal_string;

fn message(text: &str, spans: &[(SpanKind, &str)]) -> ChatMessage {
    ChatMessage {
        text: text.to_string(),
        spans: spans
            .iter()
            .map(|(k, t)| Span { kind: *k, text: t.to_string() })
            .collect(),
    }
}

fn compiler(id: &str, name: &str, semver: &str) -> Compiler {
    Compiler { id: id.to_string(), name: name.to_string(), semver: semver.to_string() }
}

fn strings(v: &[&str]) -> Vec<String> {
    v.iter().map(|s| s.to_string()).collect()
}

#[test]
fn split_language_and_filter() {
    assert_eq!(parse_compilers_language("rust gcc"), ("rust".to_string(), "gcc".to_string()));
}

#[test]
fn split_empty_argument() {
    assert_eq!(parse_compilers_language(""), (String::new(), String::new()));
    assert_eq!(parse_compilers_language("   "), (String::new(), String::new()));
}

#[test]
fn split_single_word_trimmed() {
    assert_eq!(parse_compilers_language("  rust \t"), ("rust".to_string(), String::new()));
}

#[test]
fn split_keeps_inner_whitespace_of_rest() {
    assert_eq!(
        parse_compilers_language(" c++   x86 gcc  12 "),
        ("c++".to_string(), "x86 gcc  12".to_string())
    );
}

#[test]
fn filter_keeps_names_holding_filter() {
    let all = vec![
        compiler("g122", "x86-64 gcc 12.2", "12.2"),
        compiler("clang150", "x86-64 clang 15.0", "15.0"),
        compiler("g95", "x86-64 gcc 9.5", "9.5"),
    ];
    let kept = filter_compilers(&all, "gcc");
    let ids: Vec<&str> = kept.iter().map(|c| c.id.as_str()).collect();
    assert_eq!(ids, vec!["g122", "g95"]);
    assert_eq!(filter_compilers(&all, "").len(), 3);
    assert_eq!(filter_compilers(&all, "GCC").len(), 0);
}

#[test]
fn compile_message_scenario() {
    let msg = message("/c g122\n```int main(){}```", &[(SpanKind::Pre, "int main(){}")]);
    assert_eq!(
        parse_compile_msg(&msg),
        Ok(("g122".to_string(), "int main(){}".to_string()))
    );
}

#[test]
fn compile_message_ignores_extra_words() {
    let msg = message("/compile clang150 -O2 int x;", &[(SpanKind::Code, "int x;")]);
    assert_eq!(parse_compile_msg(&msg), Ok(("clang150".to_string(), "int x;".to_string())));
}

#[test]
fn compile_message_two_code_blocks() {
    let msg = message(
        "/c g122 a b",
        &[(SpanKind::Code, "a"), (SpanKind::Other, "g122"), (SpanKind::Pre, "b")],
    );
    assert_eq!(
        parse_compile_msg(&msg),
        Err("expected exactly one code block, got 2".to_string())
    );
}

#[test]
fn compile_message_no_code_block() {
    let msg = message("/c g122", &[(SpanKind::Other, "g122")]);
    assert_eq!(
        parse_compile_msg(&msg),
        Err("expected exactly one code block, got 0".to_string())
    );
}

#[test]
fn compile_message_many_code_blocks() {
    let spans: Vec<(SpanKind, &str)> = (0..12).map(|_| (SpanKind::Code, "x")).collect();
    let msg = message("/c g122", &spans);
    assert_eq!(
        parse_compile_msg(&msg),
        Err("expected exactly one code block, got 12".to_string())
    );
}

#[test]
fn compile_message_without_compiler_id() {
    let msg = message("/c int main(){}", &[(SpanKind::Pre, "int main(){}")]);
    assert_eq!(parse_compile_msg(&msg), Err("expected compile command".to_string()));
}

#[test]
fn compile_message_removes_every_copy_of_code() {
    let msg = message("x /c x g122 x", &[(SpanKind::Code, "x")]);
    assert_eq!(parse_compile_msg(&msg), Ok(("g122".to_string(), "x".to_string())));
}

#[test]
fn escape_reserved_characters() {
    assert_eq!(escape("a.b_c*[d](e)~`>#+-=|{}!"), "a\\.b\\_c\\*\\[d\\]\\(e\\)\\~\\`\\>\\#\\+\\-\\=\\|\\{\\}\\!");
    assert_eq!(escape("plain text 123"), "plain text 123");
    assert_eq!(escape("back\\slash"), "back\\slash");
}

#[test]
fn wrap_fences_escaped_text() {
    assert_eq!(wrap_in_md("x_y"), "```\nx\\_y\n```");
    assert_eq!(wrap_in_md(""), "```\n\n```");
}

#[test]
fn fenced_code_cannot_close_the_fence() {
    let w = wrap_in_md("a ``` b");
    let inner = &w[4..w.len() - 4];
    assert_eq!(inner, "a \\`\\`\\` b");
    assert!(!inner.contains("``"));
}

#[test]
fn trim_leaves_short_text() {
    assert_eq!(trim_message("hello"), "hello");
    let exact = "é".repeat(4096);
    assert_eq!(trim_message(&exact), exact);
}

#[test]
fn trim_plain_long_text() {
    let s = "a".repeat(5000);
    let t = trim_message(&s);
    assert_eq!(t.chars().count(), 4096);
    assert!(t.ends_with("\n... (message trimmed)"));
    assert_eq!(&t[..4074], &s[..4074]);
}

#[test]
fn trim_counts_characters_not_bytes() {
    let s = "é".repeat(4097);
    let t = trim_message(&s);
    assert_eq!(t.chars().count(), 4096);
    assert!(t.starts_with(&"é".repeat(4074)));
    assert!(t.ends_with("\n... (message trimmed)"));
}

#[test]
fn trim_keeps_fence_closed() {
    let s = format!("```\n{}\n```", "b".repeat(6000));
    let t = trim_message(&s);
    assert_eq!(t.chars().count(), 4096);
    assert!(t.starts_with("```"));
    assert!(t.ends_with("\n... (message trimmed)```"));
}

#[test]
fn long_assembly_is_wrapped_then_bounded() {
    let listing = "x".repeat(10000);
    let reply = trim_message(&wrap_in_md(&listing));
    assert_eq!(reply.chars().count(), 4096);
    assert!(reply.ends_with("\n... (message trimmed)```"));
    assert_eq!(preformatted_reply(&listing), reply);
}

#[test]
fn table_exact_layout() {
    let header = strings(&["id", "name"]);
    let rows = vec![strings(&["c", "C"]), strings(&["rust", "Rust"])];
    assert_eq!(
        render_table(&header, &rows),
        "id   | name\n---- | ----\nc    | C   \nrust | Rust\n"
    );
}

#[test]
fn table_pads_by_characters() {
    let header = strings(&["id", "name"]);
    let rows = vec![strings(&["日本語", "é"])];
    assert_eq!(render_table(&header, &rows), "id  | name\n--- | ----\n日本語 | é   \n");
}

#[test]
fn table_shorter_row_keeps_widths() {
    let header = strings(&["id", "name"]);
    let mut rows = vec![strings(&["rust", "Rust"])];
    let before = render_table(&header, &rows);
    rows.push(strings(&["c", "C"]));
    let after = render_table(&header, &rows);
    assert!(after.starts_with(&before));
    assert_eq!(&after[before.len()..], "c    | C   \n");
    assert_eq!(render_table(&header, &rows), after);
}

#[test]
fn table_wider_row_grows_widths() {
    let header = strings(&["id", "name"]);
    let rows = vec![strings(&["c", "C"]), strings(&["python3", "Python"])];
    assert_eq!(
        render_table(&header, &rows),
        "id      | name  \n------- | ------\nc       | C     \npython3 | Python\n"
    );
}

#[test]
fn languages_table_is_escaped_and_fenced() {
    let langs = vec![Language { id: "c".to_string(), name: "C".to_string() }];
    let expected = format!("```\n{}\n```", escape("id | name\n-- | ----\nc  | C   \n"));
    assert_eq!(format_languages(&langs), expected);
    assert_eq!(languages_reply(&langs), expected);
}

#[test]
fn empty_languages_table_has_header_only() {
    let expected = format!("```\n{}\n```", escape("id | name\n-- | ----\n"));
    assert_eq!(format_languages(&[]), expected);
}

#[test]
fn compilers_table() {
    let list = vec![compiler("g122", "x86-64 gcc 12.2", "12.2")];
    let expected = format!(
        "```\n{}\n```",
        escape("ID   | Name            | Version\n---- | --------------- | -------\ng122 | x86-64 gcc 12.2 | 12.2   \n")
    );
    assert_eq!(format_compilers(&list), expected);
}

#[test]
fn no_compilers_note() {
    assert_eq!(format_compilers(&[]), "```\nNo compilers found for this language\\.\n```");
    let list = vec![compiler("g122", "x86-64 gcc 12.2", "12.2")];
    assert_eq!(
        compilers_reply(&list, "clang"),
        "```\nNo compilers found for this language\\.\n```"
    );
}

#[test]
fn compilers_reply_filters() {
    let list = vec![
        compiler("g122", "gcc 12.2", "12.2"),
        compiler("clang150", "clang 15.0", "15.0"),
    ];
    let expected = format_compilers(&[compiler("g122", "gcc 12.2", "12.2")]);
    assert_eq!(compilers_reply(&list, "gcc"), expected);
}

#[test]
fn api_addresses() {
    assert_eq!(route("languages"), "https://godbolt.org/api/languages");
    assert_eq!(languages_url(), "https://godbolt.org/api/languages");
    assert_eq!(compilers_url("rust"), "https://godbolt.org/api/compilers/rust");
    assert_eq!(compile_url("g122"), "https://godbolt.org/api/compiler/g122/compile");
}

#[test]
fn lines_are_joined() {
    assert_eq!(join_lines(&strings(&[])), "");
    assert_eq!(join_lines(&strings(&["a"])), "a");
    assert_eq!(join_lines(&strings(&["a", "", "b"])), "a\n\nb");
}

#[test]
fn diagnostics_win_over_assembly() {
    match compilation_output(&strings(&["mov"]), &strings(&["e1", "e2"])) {
        CompilationOutput::Stderr(e) => assert_eq!(e, "e1\ne2"),
        other => panic!("unexpected {:?}", other),
    }
    match compilation_output(&strings(&["mov", "ret"]), &strings(&[])) {
        CompilationOutput::Assembly(a) => assert_eq!(a, "mov\nret"),
        other => panic!("unexpected {:?}", other),
    }
}

#[test]
fn execution_outcomes() {
    match execution_output(None) {
        ExecutionOutput::ApiError(m) => assert_eq!(m, "API did not return an execution result."),
        other => panic!("unexpected {:?}", other),
    }
    let failed = ExecReport {
        code: -1,
        stdout: strings(&[]),
        stderr: strings(&[]),
        build_code: 1,
        build_stderr: strings(&["error: x", "note: y"]),
    };
    match execution_output(Some(failed)) {
        ExecutionOutput::BuildFailure(e) => assert_eq!(e, "error: x\nnote: y"),
        other => panic!("unexpected {:?}", other),
    }
    let ran = ExecReport {
        code: 3,
        stdout: strings(&["hi", "there"]),
        stderr: strings(&["warn"]),
        build_code: 0,
        build_stderr: strings(&[]),
    };
    match execution_output(Some(ran)) {
        ExecutionOutput::ExecutionSuccess { stdout, stderr, exit_code } => {
            assert_eq!(stdout, "hi\nthere");
            assert_eq!(stderr, "warn");
            assert_eq!(exit_code, 3);
        }
        other => panic!("unexpected {:?}", other),
    }
}

#[test]
fn diagnostics_lose_color_codes() {
    let out = CompilationOutput::Stderr("\x1b[32mfoo\x1b[m bar".to_string());
    assert_eq!(compilation_reply(&out), "```\nfoo bar\n```");
    let listing = CompilationOutput::Assembly("ret".to_string());
    assert_eq!(compilation_reply(&listing), "```\nret\n```");
}

#[test]
fn plan_simple_commands() {
    let msg = message("", &[]);
    assert!(matches!(plan(Command::Help, &msg), Action::SendHelp));
    assert!(matches!(plan(Command::Languages, &msg), Action::FetchLanguages));
    match plan(Command::Ping, &msg) {
        Action::SendPlain(t) => assert_eq!(t, "Pong"),
        other => panic!("unexpected {:?}", other),
    }
}

#[test]
fn plan_compilers_command() {
    let msg = message("/compilers rust gcc", &[]);
    match plan(Command::Compilers { language: "rust gcc".to_string() }, &msg) {
        Action::FetchCompilers { language_id, filter } => {
            assert_eq!(language_id, "rust");
            assert_eq!(filter, "gcc");
        }
        other => panic!("unexpected {:?}", other),
    }
}

#[test]
fn plan_compile_command() {
    let good = message("/c g122 int x;", &[(SpanKind::Code, "int x;")]);
    match plan(Command::Compile, &good) {
        Action::Compile { compiler_id, code } => {
            assert_eq!(compiler_id, "g122");
            assert_eq!(code, "int x;");
        }
        other => panic!("unexpected {:?}", other),
    }
    let bad = message("/c g122", &[]);
    match plan(Command::Compile, &bad) {
        Action::SendPlain(t) => assert_eq!(t, "expected exactly one code block, got 0"),
        other => panic!("unexpected {:?}", other),
    }
}

#[test]
fn decimal_digits() {
    assert_eq!(decimal_string(0), "0");
    assert_eq!(decimal_string(7), "7");
    assert_eq!(decimal_string(1234567890), "1234567890");
}
