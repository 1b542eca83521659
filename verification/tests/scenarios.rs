use hardhat_ts::ast::{Expr, Module, Node, Stmt, StmtKind};
use hardhat_ts::ignore::Config;
use hardhat_ts::source_map::SourceMap;
use hardhat_ts::span::{ByteSpan, LineColumn};
use hardhat_ts::visitor::{analyze, visit, AnalysisError, Candidate};

/// The span of the `nth` occurrence of `piece` in `text`, as a parser that
/// counts bytes from 1 reports it.
fn nth(text: &str, piece: &str, nth: usize) -> ByteSpan {
    let (at, _) = text.match_indices(piece).nth(nth).unwrap();
    ByteSpan::new(1 + at as u32, 1 + (at + piece.len()) as u32)
}

fn at(text: &str, piece: &str) -> ByteSpan {
    nth(text, piece, 0)
}

/// The span of `piece` inside the first occurrence of `outer`.
fn within(text: &str, outer: &str, piece: &str) -> ByteSpan {
    let start = text.find(outer).unwrap();
    let at = start + outer.find(piece).unwrap();
    ByteSpan::new(1 + at as u32, 1 + (at + piece.len()) as u32)
}

fn ident_within(text: &str, outer: &str, name: &str) -> Expr {
    Expr::identifier(within(text, outer, name), name.to_string())
}

fn ident(text: &str, name: &str) -> Expr {
    Expr::identifier(at(text, name), name.to_string())
}

fn expr_stmt(text: &str, piece: &str, expr: Expr) -> Node {
    Node::Stmt(Stmt::expr(at(text, piece), expr))
}

/// `it("message", () => { ... })` around `stmts`, as the only statement of a
/// module.
fn test_module(text: &str, message: &str, arrow: &str, stmts: Vec<Node>) -> Module {
    let quoted = format!("\"{message}\"");
    let call = Expr::call(
        at(text, text.trim_end_matches(';')),
        ident(text, "it"),
        vec![
            Node::Expr(Expr::string(at(text, &quoted), message.to_string())),
            Node::Expr(Expr::arrow_block(at(text, arrow), vec![], stmts, vec![])),
        ],
        vec![],
    );
    Module::new(at(text, text), vec![expr_stmt(text, text, call)])
}

fn run(text: &str, module: &Module) -> Vec<Candidate> {
    let config = Config::new(vec![]).unwrap();
    let source_map = SourceMap::new(text.to_string()).unwrap();
    analyze(&config, &source_map, "/project".to_string(), "/project/test/a.ts".to_string(), module)
        .unwrap()
}

/// The candidates as the pieces of a one-line text that they cover.
fn covered(text: &str, candidates: &[Candidate]) -> Vec<String> {
    candidates
        .iter()
        .map(|c| {
            assert_eq!(c.span.start.line, 1);
            assert_eq!(c.span.end.line, 1);
            text.chars().skip(c.span.start.column).take(c.span.end.column - c.span.start.column).collect()
        })
        .collect()
}

#[test]
fn awaited_method_call_in_a_test() {
    let text = r#"it("a", async () => { await contract.foo(); });"#;
    let call = Expr::call(
        at(text, "contract.foo()"),
        Expr::member(at(text, "contract.foo"), ident(text, "contract"), "foo".to_string()),
        vec![],
        vec![],
    );
    let awaited = Expr::await_of(at(text, "await contract.foo()"), call);
    let module = test_module(
        text,
        "a",
        "async () => { await contract.foo(); }",
        vec![expr_stmt(text, "await contract.foo();", awaited)],
    );
    let candidates = run(text, &module);
    assert_eq!(covered(text, &candidates), vec![".foo()", "await contract.foo();"]);
    assert!(candidates.iter().all(|c| c.it_message == "a"));
    assert_eq!(candidates[1].span.start, LineColumn { line: 1, column: 22 });
    assert_eq!(candidates[1].span.end, LineColumn { line: 1, column: 43 });
    assert_eq!(candidates[1].span.source_file.root, "/project");
    assert_eq!(candidates[1].span.source_file.path, "/project/test/a.ts");
}

#[test]
fn trailing_to_number_is_not_reported() {
    let text = r#"it("b", async () => { (await contract.foo()).toNumber(); });"#;
    let call = Expr::call(
        at(text, "contract.foo()"),
        Expr::member(at(text, "contract.foo"), ident(text, "contract"), "foo".to_string()),
        vec![],
        vec![],
    );
    let awaited = Expr::await_of(at(text, "await contract.foo()"), call);
    let paren = Expr::other(at(text, "(await contract.foo())"), vec![Node::Expr(awaited)]);
    let outer = Expr::call(
        at(text, "(await contract.foo()).toNumber()"),
        Expr::member(at(text, "(await contract.foo()).toNumber"), paren, "toNumber".to_string()),
        vec![],
        vec![],
    );
    let module = test_module(
        text,
        "b",
        "async () => { (await contract.foo()).toNumber(); }",
        vec![expr_stmt(text, "(await contract.foo()).toNumber();", outer)],
    );
    let candidates = run(text, &module);
    let covered = covered(text, &candidates);
    assert_eq!(covered, vec![".foo()", "(await contract.foo()).toNumber();"]);
    assert!(!covered.contains(&".toNumber()".to_string()));
    assert!(candidates.iter().all(|c| c.it_message == "b"));
}

fn expect_to_equal(text: &str) -> Module {
    let expect = Expr::call(
        at(text, "expect(x)"),
        ident(text, "expect"),
        vec![Node::Expr(ident_within(text, "(x)", "x"))],
        vec![],
    );
    let to = Expr::member(at(text, "expect(x).to"), expect, "to".to_string());
    let equal = Expr::member(at(text, "expect(x).to.equal"), to, "equal".to_string());
    let call = Expr::call(
        at(text, "expect(x).to.equal(1)"),
        equal,
        vec![Node::Expr(Expr::other(at(text, "1"), vec![]))],
        vec![],
    );
    test_module(
        text,
        "c",
        "() => { expect(x).to.equal(1); }",
        vec![expr_stmt(text, "expect(x).to.equal(1);", call)],
    )
}

#[test]
fn expectation_yields_nothing() {
    let text = r#"it("c", () => { expect(x).to.equal(1); });"#;
    let candidates = run(text, &expect_to_equal(text));
    assert!(candidates.is_empty());
}

#[test]
fn method_chain_reports_suffixes_before_the_statement() {
    let text = r#"it("d", () => { a.b().c(); });"#;
    let inner = Expr::call(
        at(text, "a.b()"),
        Expr::member(at(text, "a.b"), ident(text, "a"), "b".to_string()),
        vec![],
        vec![],
    );
    let outer = Expr::call(
        at(text, "a.b().c()"),
        Expr::member(at(text, "a.b().c"), inner, "c".to_string()),
        vec![],
        vec![],
    );
    let module =
        test_module(text, "d", "() => { a.b().c(); }", vec![expr_stmt(text, "a.b().c();", outer)]);
    let candidates = run(text, &module);
    assert_eq!(covered(text, &candidates), vec![".b()", ".c()", "a.b().c();"]);
    assert!(candidates.iter().all(|c| c.it_message == "d"));
}

#[test]
fn only_the_innermost_statement_is_reported() {
    let text = r#"it("e", () => { if (x) { foo(); } });"#;
    let foo = Expr::call(at(text, "foo()"), ident(text, "foo"), vec![], vec![]);
    let block = Stmt::new(at(text, "{ foo(); }"), StmtKind::Other, vec![expr_stmt(text, "foo();", foo)]);
    let if_stmt = Stmt::new(
        at(text, "if (x) { foo(); }"),
        StmtKind::Other,
        vec![Node::Expr(ident(text, "x")), Node::Stmt(block)],
    );
    let module = test_module(text, "e", "() => { if (x) { foo(); } }", vec![Node::Stmt(if_stmt)]);
    let candidates = run(text, &module);
    assert_eq!(covered(text, &candidates), vec!["foo();"]);
    assert_eq!(candidates[0].it_message, "e");
}

#[test]
fn return_is_not_reported() {
    let text = r#"it("f", () => { return x; });"#;
    let ret = Stmt::new(at(text, "return x;"), StmtKind::Return, vec![Node::Expr(ident(text, "x"))]);
    let module = test_module(text, "f", "() => { return x; }", vec![Node::Stmt(ret)]);
    assert!(run(text, &module).is_empty());
}

#[test]
fn break_continue_and_declarations_are_not_reported() {
    let text = r#"it("g", () => { break; continue; let y = 1; });"#;
    let stmts = vec![
        Node::Stmt(Stmt::new(at(text, "break;"), StmtKind::Break, vec![])),
        Node::Stmt(Stmt::new(at(text, "continue;"), StmtKind::Continue, vec![])),
        Node::Stmt(Stmt::new(
            at(text, "let y = 1;"),
            StmtKind::Decl,
            vec![Node::Expr(Expr::other(at(text, "1"), vec![]))],
        )),
    ];
    let module = test_module(text, "g", "() => { break; continue; let y = 1; }", stmts);
    assert!(run(text, &module).is_empty());
}

#[test]
fn statements_outside_a_test_are_not_reported() {
    let text = "foo(); a.b();";
    let foo = Expr::call(at(text, "foo()"), ident(text, "foo"), vec![], vec![]);
    let ab = Expr::call(
        at(text, "a.b()"),
        Expr::member(at(text, "a.b"), ident(text, "a"), "b".to_string()),
        vec![],
        vec![],
    );
    let module = Module::new(
        at(text, text),
        vec![expr_stmt(text, "foo();", foo), expr_stmt(text, "a.b();", ab)],
    );
    assert!(run(text, &module).is_empty());
}

#[test]
fn arguments_of_an_ignored_call_are_walked() {
    let text = r#"it("h", () => { expect(x.foo()).to.equal(y.bar()); });"#;
    let x_foo = Expr::call(
        at(text, "x.foo()"),
        Expr::member(at(text, "x.foo"), ident_within(text, "x.foo", "x"), "foo".to_string()),
        vec![],
        vec![],
    );
    let y_bar = Expr::call(
        at(text, "y.bar()"),
        Expr::member(at(text, "y.bar"), ident(text, "y"), "bar".to_string()),
        vec![],
        vec![],
    );
    let expect =
        Expr::call(at(text, "expect(x.foo())"), ident(text, "expect"), vec![Node::Expr(x_foo)], vec![]);
    let to = Expr::member(at(text, "expect(x.foo()).to"), expect, "to".to_string());
    let equal = Expr::member(at(text, "expect(x.foo()).to.equal"), to, "equal".to_string());
    let call =
        Expr::call(at(text, "expect(x.foo()).to.equal(y.bar())"), equal, vec![Node::Expr(y_bar)], vec![]);
    let module = test_module(
        text,
        "h",
        "() => { expect(x.foo()).to.equal(y.bar()); }",
        vec![expr_stmt(text, "expect(x.foo()).to.equal(y.bar());", call)],
    );
    // Only the arguments of `expect(..)` itself are walked.
    assert_eq!(covered(text, &run(text, &module)), vec![".foo()"]);
}

#[test]
fn type_arguments_of_an_ignored_call_are_walked_after_its_arguments() {
    let text = r#"it("i", () => { assert.ok<T[a.t()]>(b.u()); });"#;
    let a_t = Expr::call(
        at(text, "a.t()"),
        Expr::member(at(text, "a.t"), ident_within(text, "a.t", "a"), "t".to_string()),
        vec![],
        vec![],
    );
    let b_u = Expr::call(
        at(text, "b.u()"),
        Expr::member(at(text, "b.u"), ident_within(text, "b.u", "b"), "u".to_string()),
        vec![],
        vec![],
    );
    let callee = Expr::member(at(text, "assert.ok"), ident(text, "assert"), "ok".to_string());
    let call = Expr::call(
        at(text, "assert.ok<T[a.t()]>(b.u())"),
        callee,
        vec![Node::Expr(b_u)],
        vec![Node::Expr(a_t)],
    );
    let module = test_module(
        text,
        "i",
        "() => { assert.ok<T[a.t()]>(b.u()); }",
        vec![expr_stmt(text, "assert.ok<T[a.t()]>(b.u());", call)],
    );
    assert_eq!(covered(text, &run(text, &module)), vec![".u()", ".t()"]);
}

#[test]
fn block_around_an_ignored_call_is_a_leaf() {
    let text = r#"it("c", () => { expect(x).to.equal(1); });"#;
    let inner = expect_to_equal(text);
    // The same statement inside a block: the block is reported, because the
    // ignored call in it counts as no leaf.
    let text2 = r#"it("c", () => { { expect(x).to.equal(1); } });"#;
    let expect = Expr::call(
        at(text2, "expect(x)"),
        ident(text2, "expect"),
        vec![Node::Expr(ident_within(text2, "(x)", "x"))],
        vec![],
    );
    let to = Expr::member(at(text2, "expect(x).to"), expect, "to".to_string());
    let equal = Expr::member(at(text2, "expect(x).to.equal"), to, "equal".to_string());
    let call = Expr::call(
        at(text2, "expect(x).to.equal(1)"),
        equal,
        vec![Node::Expr(Expr::other(at(text2, "1"), vec![]))],
        vec![],
    );
    let block = Stmt::new(
        at(text2, "{ expect(x).to.equal(1); }"),
        StmtKind::Other,
        vec![expr_stmt(text2, "expect(x).to.equal(1);", call)],
    );
    let module =
        test_module(text2, "c", "() => { { expect(x).to.equal(1); } }", vec![Node::Stmt(block)]);
    assert!(run(text, &inner).is_empty());
    assert_eq!(covered(text2, &run(text2, &module)), vec!["{ expect(x).to.equal(1); }"]);
}

#[test]
fn two_tests_keep_their_own_messages() {
    let text = r#"describe("s", () => { it("one", () => { f(); }); it("two", () => { g(); }); });"#;
    let f = Expr::call(at(text, "f()"), ident(text, "f"), vec![], vec![]);
    let g = Expr::call(at(text, "g()"), ident(text, "g"), vec![], vec![]);
    let it = |n: usize, message: &str, arrow: &str, whole: &str, body: Node| {
        let call = Expr::call(
            at(text, whole.trim_end_matches(';')),
            Expr::identifier(nth(text, "it(", n).lo_to(2), "it".to_string()),
            vec![
                Node::Expr(Expr::string(at(text, &format!("\"{message}\"")), message.to_string())),
                Node::Expr(Expr::arrow_block(at(text, arrow), vec![], vec![body], vec![])),
            ],
            vec![],
        );
        expr_stmt(text, whole, call)
    };
    let first = it(0, "one", "() => { f(); }", r#"it("one", () => { f(); });"#, expr_stmt(text, "f();", f));
    let second = it(1, "two", "() => { g(); }", r#"it("two", () => { g(); });"#, expr_stmt(text, "g();", g));
    let outer_arrow = Expr::arrow_block(
        at(text, r#"() => { it("one", () => { f(); }); it("two", () => { g(); }); }"#),
        vec![],
        vec![first, second],
        vec![],
    );
    let describe = Expr::call(
        at(text, text.trim_end_matches(';')),
        ident(text, "describe"),
        vec![Node::Expr(Expr::string(at(text, "\"s\""), "s".to_string())), Node::Expr(outer_arrow)],
        vec![],
    );
    let module = Module::new(at(text, text), vec![expr_stmt(text, text, describe)]);
    let candidates = run(text, &module);
    assert_eq!(covered(text, &candidates), vec!["f();", "g();"]);
    assert_eq!(candidates[0].it_message, "one");
    assert_eq!(candidates[1].it_message, "two");
}

trait LoTo {
    fn lo_to(self, len: u32) -> ByteSpan;
}

impl LoTo for ByteSpan {
    fn lo_to(self, len: u32) -> ByteSpan {
        ByteSpan::new(self.lo, self.lo + len)
    }
}

fn nested(text: &str) -> Module {
    let g = Expr::call(at(text, "g()"), ident(text, "g"), vec![], vec![]);
    let inner = Expr::call(
        at(text, r#"it("in", () => { g(); })"#),
        Expr::identifier(nth(text, "it(", 1).lo_to(2), "it".to_string()),
        vec![
            Node::Expr(Expr::string(at(text, "\"in\""), "in".to_string())),
            Node::Expr(Expr::arrow_block(
                at(text, "() => { g(); }"),
                vec![],
                vec![expr_stmt(text, "g();", g)],
                vec![],
            )),
        ],
        vec![],
    );
    let call = Expr::call(
        at(text, text.trim_end_matches(';')),
        Expr::identifier(nth(text, "it(", 0).lo_to(2), "it".to_string()),
        vec![
            Node::Expr(Expr::string(at(text, "\"out\""), "out".to_string())),
            Node::Expr(Expr::arrow_block(
                at(text, r#"() => { it("in", () => { g(); }); }"#),
                vec![],
                vec![expr_stmt(text, r#"it("in", () => { g(); });"#, inner)],
                vec![],
            )),
        ],
        vec![],
    );
    Module::new(at(text, text), vec![expr_stmt(text, text, call)])
}

#[test]
fn test_inside_a_test_is_refused() {
    let text = r#"it("out", () => { it("in", () => { g(); }); });"#;
    let module = nested(text);
    let config = Config::new(vec![]).unwrap();
    let source_map = SourceMap::new(text.to_string()).unwrap();
    let r = analyze(&config, &source_map, "/p".to_string(), "/p/test/a.ts".to_string(), &module);
    assert!(matches!(r, Err(AnalysisError::NestedTestCase)));
}

#[test]
fn overlapping_children_are_refused() {
    let text = "f(); g();";
    let f = Expr::call(at(text, "f()"), ident(text, "f"), vec![], vec![]);
    let g = Expr::call(at(text, "g()"), ident(text, "g"), vec![], vec![]);
    let module = Module::new(
        at(text, text),
        vec![
            Node::Stmt(Stmt::expr(ByteSpan::new(1, 7), f)),
            expr_stmt(text, "g();", g),
        ],
    );
    let config = Config::new(vec![]).unwrap();
    let source_map = SourceMap::new(text.to_string()).unwrap();
    let r = analyze(&config, &source_map, "/p".to_string(), "/p/test/a.ts".to_string(), &module);
    assert!(matches!(r, Err(AnalysisError::Malformed)));
}

#[test]
fn empty_statement_span_is_refused() {
    let text = "f();";
    let module =
        Module::new(at(text, text), vec![Node::Stmt(Stmt::new(ByteSpan::new(2, 2), StmtKind::Other, vec![]))]);
    let config = Config::new(vec![]).unwrap();
    let source_map = SourceMap::new(text.to_string()).unwrap();
    let r = analyze(&config, &source_map, "/p".to_string(), "/p/test/a.ts".to_string(), &module);
    assert!(matches!(r, Err(AnalysisError::Malformed)));
}

#[test]
fn span_behind_the_text_is_refused() {
    let text = "f();";
    let f = Expr::call(at(text, "f()"), ident(text, "f"), vec![], vec![]);
    let module = Module::new(ByteSpan::new(1, 9), vec![Node::Stmt(Stmt::expr(ByteSpan::new(1, 9), f))]);
    let config = Config::new(vec![]).unwrap();
    let source_map = SourceMap::new(text.to_string()).unwrap();
    let r = analyze(&config, &source_map, "/p".to_string(), "/p/test/a.ts".to_string(), &module);
    assert!(matches!(r, Err(AnalysisError::OutOfSource)));
}

#[test]
fn visit_agrees_with_analyze() {
    let text = r#"it("d", () => { a.b().c(); });"#;
    let build = || {
        let inner = Expr::call(
            at(text, "a.b()"),
            Expr::member(at(text, "a.b"), ident(text, "a"), "b".to_string()),
            vec![],
            vec![],
        );
        let outer = Expr::call(
            at(text, "a.b().c()"),
            Expr::member(at(text, "a.b().c"), inner, "c".to_string()),
            vec![],
            vec![],
        );
        test_module(text, "d", "() => { a.b().c(); }", vec![expr_stmt(text, "a.b().c();", outer)])
    };
    let config = Config::new(vec![]).unwrap();
    let source_map = SourceMap::new(text.to_string()).unwrap();
    let module = build();
    assert!(module.check_wf());
    assert!(module.check_fits(&source_map));
    let visited = visit(&config, &source_map, "/p".to_string(), "/p/t.ts".to_string(), &module);
    let analyzed = run(text, &build());
    assert_eq!(covered(text, &visited), covered(text, &analyzed));
    // The same module and configuration give the same list again.
    let again = visit(&config, &source_map, "/p".to_string(), "/p/t.ts".to_string(), &module);
    assert_eq!(covered(text, &visited), covered(text, &again));
}

#[test]
fn configured_function_is_ignored() {
    let text = r#"it("j", () => { helpers.check(x.foo()); });"#;
    let build = || {
        let x_foo = Expr::call(
            at(text, "x.foo()"),
            Expr::member(at(text, "x.foo"), ident(text, "x"), "foo".to_string()),
            vec![],
            vec![],
        );
        let callee = Expr::member(at(text, "helpers.check"), ident(text, "helpers"), "check".to_string());
        let call = Expr::call(at(text, "helpers.check(x.foo())"), callee, vec![Node::Expr(x_foo)], vec![]);
        test_module(
            text,
            "j",
            "() => { helpers.check(x.foo()); }",
            vec![expr_stmt(text, "helpers.check(x.foo());", call)],
        )
    };
    assert_eq!(
        covered(text, &run(text, &build())),
        vec![".foo()", ".check(x.foo())", "helpers.check(x.foo());"]
    );
    let config = Config::new(vec!["helpers.check".to_string()]).unwrap();
    let source_map = SourceMap::new(text.to_string()).unwrap();
    let module = build();
    let candidates =
        analyze(&config, &source_map, "/p".to_string(), "/p/t.ts".to_string(), &module).unwrap();
    assert_eq!(covered(text, &candidates), vec![".foo()"]);
}
