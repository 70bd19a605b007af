use js_worker::JsWorker;

#[test]
fn return_terminated_line_unchanged() {
    assert_eq!(JsWorker::ensure_return_last_expression("return 1;"), "return 1;\n");
}

#[test]
fn normalizing_twice_changes_nothing_more() {
    let once = JsWorker::ensure_return_last_expression("1 + 2;");
    let twice = JsWorker::ensure_return_last_expression(&once);
    assert_eq!(once, "return 1 + 2;\n");
    assert_eq!(twice, once);
}

#[test]
fn trailing_expression_rewritten() {
    assert_eq!(JsWorker::ensure_return_last_expression("1 + 2;"), "return 1 + 2;\n");
}

#[test]
fn keyword_guarded_line_not_rewritten() {
    assert_eq!(JsWorker::ensure_return_last_expression("const x = 5;"), "const x = 5;\n");
}

#[test]
fn multi_line_snippet_rewrites_only_last_line() {
    let out = JsWorker::ensure_return_last_expression("let a = 1;\na + 1;");
    assert_eq!(out, "let a = 1;\nreturn a + 1;\n");
}

#[test]
fn interior_lines_copied_verbatim() {
    let out = JsWorker::ensure_return_last_expression("const user = { age: 30 };\nuser.age + 1;");
    assert_eq!(out, "const user = { age: 30 };\nreturn user.age + 1;\n");
}

#[test]
fn blank_snippet_comes_back_unchanged() {
    assert_eq!(JsWorker::ensure_return_last_expression(""), "");
    assert_eq!(JsWorker::ensure_return_last_expression("   \n  "), "   \n  ");
}

#[test]
fn line_without_terminator_not_rewritten() {
    assert_eq!(JsWorker::ensure_return_last_expression("1 + 2"), "1 + 2\n");
}

#[test]
fn surrounding_whitespace_trimmed_before_split() {
    assert_eq!(JsWorker::ensure_return_last_expression("  1 + 2;  \n"), "return 1 + 2;\n");
}

#[test]
fn indented_last_line_rewritten_from_its_trimmed_form() {
    let out = JsWorker::ensure_return_last_expression("let a = 1;\n    a + 1;");
    assert_eq!(out, "let a = 1;\nreturn a + 1;\n");
}

#[test]
fn carriage_returns_dropped_like_line_splitting_does() {
    let out = JsWorker::ensure_return_last_expression("let a = 1;\r\na + 2;");
    assert_eq!(out, "let a = 1;\nreturn a + 2;\n");
}

#[test]
fn normalizing_twice_is_idempotent_on_ordinary_snippets() {
    let snippets = ["return 1;", "1 + 2;", "const x = 5;", "let a = 1;\na + 1;", "1 + 2", ""];
    for snippet in snippets {
        let once = JsWorker::ensure_return_last_expression(snippet);
        let twice = JsWorker::ensure_return_last_expression(&once);
        assert_eq!(twice, once);
    }
}

#[test]
fn doubled_carriage_returns_are_consumed_one_per_pass() {
    // The one exception to idempotence: line splitting strips a single
    // trailing carriage return per pass, so a line ending in two loses one
    // on each of the first two passes.
    let once = JsWorker::ensure_return_last_expression("x\r\r\ny;");
    assert_eq!(once, "x\r\nreturn y;\n");
    let twice = JsWorker::ensure_return_last_expression(&once);
    assert_eq!(twice, "x\nreturn y;\n");
}

#[test]
fn keyword_prefix_of_identifier_also_guards() {
    // Documented limitation of the line-oriented heuristic: the guard is a
    // plain prefix test, so an identifier that merely begins with a guarded
    // keyword suppresses the rewrite too.
    assert_eq!(JsWorker::ensure_return_last_expression("constant;"), "constant;\n");
}

#[test]
fn every_guard_keyword_suppresses_rewrite() {
    let cases = [
        "return 1;",
        "const a = 1;",
        "let b = 2;",
        "var c = 3;",
        "function f() {};",
        "class C {};",
        "interface I {};",
        "type T = number;",
        "if (x) {};",
        "for (;;) {};",
        "while (x) {};",
        "switch (x) {};",
    ];
    for snippet in cases {
        let out = JsWorker::ensure_return_last_expression(snippet);
        assert_eq!(out, format!("{}\n", snippet));
    }
}
