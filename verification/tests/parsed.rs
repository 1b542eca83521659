use hardhat_ts::ast::{Callee, Expr, Module, Node, Stmt, StmtKind};
use hardhat_ts::ignore::Config;
use hardhat_ts::source_map::SourceMap;
use hardhat_ts::span::ByteSpan;
use hardhat_ts::visitor::{analyze, AnalysisError, Candidate};
use swc_core::common::sync::Lrc;
use swc_core::common::{FileName, SourceMap as ParserSourceMap, Span, Spanned};
use swc_core::ecma::ast;
use swc_core::ecma::ast::EsVersion;
use swc_core::ecma::parser::{lexer::Lexer, Parser, StringInput, Syntax, TsSyntax};
use swc_core::ecma::visit::{Visit, VisitWith};

#[derive(Default)]
struct Collector {
    found: Vec<Node>,
}

impl Visit for Collector {
    fn visit_stmt(&mut self, stmt: &ast::Stmt) {
        self.found.push(Node::Stmt(convert_stmt(stmt)));
    }

    fn visit_expr(&mut self, expr: &ast::Expr) {
        self.found.push(Node::Expr(convert_expr(expr)));
    }
}

fn below<T: VisitWith<Collector>>(node: &T) -> Vec<Node> {
    let mut collector = Collector::default();
    node.visit_children_with(&mut collector);
    collector.found
}

fn within<T: VisitWith<Collector>>(node: &T) -> Vec<Node> {
    let mut collector = Collector::default();
    node.visit_with(&mut collector);
    collector.found
}

fn convert_span(span: Span) -> ByteSpan {
    ByteSpan::new(span.lo.0, span.hi.0)
}

fn convert_stmt(stmt: &ast::Stmt) -> Stmt {
    let kind = match stmt {
        ast::Stmt::Expr(_) => StmtKind::Expr,
        ast::Stmt::Break(_) => StmtKind::Break,
        ast::Stmt::Continue(_) => StmtKind::Continue,
        ast::Stmt::Return(_) => StmtKind::Return,
        ast::Stmt::Decl(_) => StmtKind::Decl,
        _ => StmtKind::Other,
    };
    Stmt::new(convert_span(stmt.span()), kind, below(stmt))
}

fn convert_expr(expr: &ast::Expr) -> Expr {
    let span = convert_span(expr.span());
    match expr {
        ast::Expr::Call(call) => {
            let args = call.args.iter().map(|arg| Node::Expr(convert_expr(&arg.expr))).collect();
            let type_args = within(&call.type_args);
            match &call.callee {
                ast::Callee::Expr(callee) => Expr::call(span, convert_expr(callee), args, type_args),
                ast::Callee::Super(_) => Expr::keyword_call(span, Callee::Super, args, type_args),
                ast::Callee::Import(_) => Expr::keyword_call(span, Callee::Import, args, type_args),
            }
        }
        ast::Expr::Member(member) => {
            let object = convert_expr(&member.obj);
            match &member.prop {
                ast::MemberProp::Ident(name) => Expr::member(span, object, name.sym.to_string()),
                ast::MemberProp::PrivateName(_) => Expr::private_member(span, object),
                ast::MemberProp::Computed(computed) => {
                    Expr::computed_member(span, object, convert_expr(&computed.expr))
                }
            }
        }
        ast::Expr::Ident(ident) => Expr::identifier(span, ident.sym.to_string()),
        ast::Expr::Lit(ast::Lit::Str(literal)) => {
            Expr::string(span, literal.value.to_string_lossy().into_owned())
        }
        ast::Expr::Arrow(arrow) => {
            let params = within(&arrow.params);
            let mut types = within(&arrow.type_params);
            types.extend(within(&arrow.return_type));
            match &*arrow.body {
                ast::ArrowFunctionBody::FunctionBody(body) => {
                    let stmts = body.stmts.iter().map(|s| Node::Stmt(convert_stmt(s))).collect();
                    Expr::arrow_block(span, params, stmts, types)
                }
                ast::ArrowFunctionBody::Expr(body) => {
                    Expr::arrow_expr(span, params, convert_expr(body), types)
                }
            }
        }
        ast::Expr::Await(awaited) => Expr::await_of(span, convert_expr(&awaited.arg)),
        _ => Expr::other(span, below(expr)),
    }
}

fn parse(text: &str) -> Module {
    let parser_map = ParserSourceMap::default();
    let source_file = parser_map.new_source_file(Lrc::new(FileName::Anon), text.to_string());
    let lexer = Lexer::new(
        Syntax::Typescript(TsSyntax::default()),
        EsVersion::default(),
        StringInput::from(&*source_file),
        None,
    );
    let module = Parser::new_from(lexer).parse_typescript_module().unwrap();
    Module::new(convert_span(module.span), below(&module))
}

fn candidates(text: &str, ignored: &[&str]) -> Result<Vec<Candidate>, AnalysisError> {
    let config = Config::new(ignored.iter().map(|s| s.to_string()).collect()).unwrap();
    let source_map = SourceMap::new(text.to_string()).unwrap();
    let module = parse(text);
    analyze(&config, &source_map, "/p".to_string(), "/p/test/t.ts".to_string(), &module)
}

/// The pieces of `text` that the candidates cover, each with its message.
fn covered(text: &str, ignored: &[&str]) -> Vec<(String, String)> {
    let lines: Vec<&str> = text.split('\n').collect();
    let offset = |line: usize, column: usize| -> usize {
        let before: usize = lines[..line - 1].iter().map(|l| l.chars().count() + 1).sum();
        before + column
    };
    candidates(text, ignored)
        .unwrap()
        .iter()
        .map(|c| {
            let start = offset(c.span.start.line, c.span.start.column);
            let end = offset(c.span.end.line, c.span.end.column);
            (text.chars().skip(start).take(end - start).collect(), c.it_message.clone())
        })
        .collect()
}

fn pieces(text: &str) -> Vec<String> {
    covered(text, &[]).into_iter().map(|(piece, _)| piece).collect()
}

#[test]
fn parsed_awaited_method_call() {
    let text = r#"it("a", async () => { await contract.foo(); });"#;
    assert_eq!(pieces(text), vec![".foo()", "await contract.foo();"]);
}

#[test]
fn parsed_trailing_to_number() {
    let text = r#"it("b", async () => { (await contract.foo()).toNumber(); });"#;
    assert_eq!(pieces(text), vec![".foo()", "(await contract.foo()).toNumber();"]);
}

#[test]
fn parsed_expectation() {
    let text = r#"it("c", () => { expect(x).to.equal(1); });"#;
    assert!(pieces(text).is_empty());
}

#[test]
fn parsed_method_chain() {
    let text = r#"it("d", () => { a.b().c(); });"#;
    assert_eq!(pieces(text), vec![".b()", ".c()", "a.b().c();"]);
}

#[test]
fn parsed_statement_in_if() {
    let text = r#"it("e", () => { if (x) { foo(); } });"#;
    assert_eq!(pieces(text), vec!["foo();"]);
}

#[test]
fn parsed_return() {
    let text = r#"it("f", () => { return x; });"#;
    assert!(pieces(text).is_empty());
}

#[test]
fn parsed_test_file() {
    let text = r#"import { expect } from "chai";
import { ethers } from "hardhat";

describe("Token", function () {
    let token: Token;

    beforeEach(async () => {
        token = await deploy<Token>("Token");
    });

    it("mints", async () => {
        const [owner, other] = await ethers.getSigners();
        await token.mint(owner.address, 100);
        expect(await token.balanceOf(owner.address)).to.equal(100);
        for (const signer of [owner, other]) {
            if (signer === other) {
                continue;
            }
            await token.connect(signer).burn(1);
        }
        expect((await token.totalSupply()).toNumber()).to.be.greaterThan(0);
    });

    it.skip("is skipped", async () => {
        await token.mint(other.address, 1);
    });

    it("reverts", async () => {
        await expect(token.burn(1000)).to.be.reverted;
        try {
            await token.pause();
        } catch (e: any) {
            console.log(e.message);
            throw e;
        }
    });
});
"#;
    let found = covered(text, &["console.log"]);
    let expected: Vec<(&str, &str)> = vec![
        (".getSigners()", "mints"),
        (".mint(owner.address, 100)", "mints"),
        ("await token.mint(owner.address, 100);", "mints"),
        (".balanceOf(owner.address)", "mints"),
        (".connect(signer)", "mints"),
        (".burn(1)", "mints"),
        ("await token.connect(signer).burn(1);", "mints"),
        (".totalSupply()", "mints"),
        (".burn(1000)", "reverts"),
        (".pause()", "reverts"),
        ("await token.pause();", "reverts"),
        ("throw e;", "reverts"),
    ];
    let found: Vec<(&str, &str)> = found.iter().map(|(p, m)| (p.as_str(), m.as_str())).collect();
    assert_eq!(found, expected);
}

#[test]
fn parsed_trees_are_well_formed() {
    let text = r#"
class A<T> extends B {
    private x = 1;
    constructor(private y = f()) { super(y); }
    get z(): number { return this.x?.y ?? g<{ [k]: T }>(h)!; }
    static async *m([a, b = c()]: number[], { d = e() }: any = {}) { yield* a as any; }
}
const o = { a, [b()]: `x${c}y${d()}`, e() { return <any>tag`t${f}`; }, ...g };
label: for (let i = 0, j = k(); i < j; i++) { switch (i) { case l(): break label; default: continue; } }
export default async function () { await import("m"); new N(...args); }
export const p = (q = r()): s is T => (q, typeof q === "x" ? q : -q);
enum E { A = f(), B }
namespace NS { export const v = w(); }
do ; while (x());
"#;
    let module = parse(text);
    assert!(module.check_wf());
    let source_map = SourceMap::new(text.to_string()).unwrap();
    assert!(module.check_fits(&source_map));
    assert!(candidates(text, &[]).unwrap().is_empty());
}

#[test]
fn parsed_nested_test_is_refused() {
    let text = r#"it("out", () => { it("in", () => { g(); }); });"#;
    assert!(matches!(candidates(text, &[]), Err(AnalysisError::NestedTestCase)));
    // Inside the skipped part of an ignored call the walk meets nothing.
    let text = r#"it("out", () => { expect(x).to.satisfy(() => { it("in", () => {}); }); });"#;
    assert!(candidates(text, &[]).unwrap().is_empty());
}

#[test]
fn parsed_candidates_on_later_lines() {
    let text = "it(\"m\", () => {\n\tfoo();\n\tx.y(\n\t\t1\n\t);\n});\n";
    let found = candidates(text, &[]).unwrap();
    let texts: Vec<String> = found.iter().map(|c| c.span.to_text()).collect();
    // A tab is four columns wide.
    assert_eq!(
        texts,
        vec!["test/t.ts:2:4-2:10", "test/t.ts:3:5-5:5", "test/t.ts:3:4-5:6"]
    );
}

const SAMPLE: &str = r#"describe("Vault", () => {
    it("deposits", async () => {
        await vault.connect(alice).deposit(10);
        if (await vault.paused()) {
            return;
        }
        while (queue.length) {
            const next = queue.pop();
            next.run();
            break;
        }
        expect(await vault.total()).to.equal(10);
        (await vault.total()).toString();
        amount.toNumber();
        amount.should.be.above(0);
    });

    it("withdraws", async () => {
        await vault.withdraw(5);
    });
});
"#;

/// The first and the last line of each test case of `SAMPLE`.
fn test_lines(message: &str) -> (usize, usize) {
    match message {
        "deposits" => (2, 16),
        "withdraws" => (18, 20),
        other => panic!("no test case {other}"),
    }
}

#[test]
fn every_span_starts_no_later_than_it_ends() {
    let found = candidates(SAMPLE, &[]).unwrap();
    assert_eq!(found.len(), 14);
    for candidate in &found {
        assert!(candidate.span.start.precedes_or_equals(&candidate.span.end));
        assert!(candidate.span.start.line >= 1);
    }
}

#[test]
fn every_span_lies_within_its_test_case() {
    for candidate in candidates(SAMPLE, &[]).unwrap() {
        let (first, last) = test_lines(&candidate.it_message);
        assert!(first <= candidate.span.start.line);
        assert!(candidate.span.end.line <= last);
    }
}

#[test]
fn no_reported_statement_contains_another() {
    let found = covered(SAMPLE, &[]);
    let spans = candidates(SAMPLE, &[]).unwrap();
    let statements: Vec<usize> =
        (0..found.len()).filter(|&i| !found[i].0.starts_with('.')).collect();
    assert_eq!(statements.len(), 6);
    for &a in &statements {
        for &b in &statements {
            if a != b {
                let (outer, inner) = (&spans[a].span, &spans[b].span);
                let contains = outer.start.precedes_or_equals(&inner.start)
                    && inner.end.precedes_or_equals(&outer.end);
                assert!(!contains);
            }
        }
    }
}

#[test]
fn ignored_methods_are_not_reported() {
    let found: Vec<String> = covered(SAMPLE, &[]).into_iter().map(|(piece, _)| piece).collect();
    for piece in &found {
        assert!(!piece.starts_with(".should"));
        assert!(!piece.starts_with(".to."));
        assert_ne!(piece, ".toString()");
        assert_ne!(piece, ".toNumber()");
    }
    // The statements around them are reported all the same.
    assert!(found.contains(&"(await vault.total()).toString();".to_string()));
    assert!(found.contains(&"amount.toNumber();".to_string()));
    assert!(found.contains(&"amount.should.be.above(0);".to_string()));
    // A conversion with an argument is no conversion.
    let text = r#"it("m", () => { n.toString(16); n.toNumber().toString(); });"#;
    assert_eq!(
        pieces(text),
        vec![".toString(16)", "n.toString(16);", "n.toNumber().toString();"]
    );
}

#[test]
fn control_flow_and_declarations_are_not_reported() {
    let found: Vec<String> = covered(SAMPLE, &[]).into_iter().map(|(piece, _)| piece).collect();
    for piece in &found {
        assert!(!piece.starts_with("return"));
        assert!(!piece.starts_with("break"));
        assert!(!piece.starts_with("const"));
    }
    // What a declaration holds is walked.
    assert!(found.contains(&".pop()".to_string()));
}

#[test]
fn order_is_that_of_the_walk() {
    let found: Vec<String> = covered(SAMPLE, &[]).into_iter().map(|(piece, _)| piece).collect();
    assert_eq!(
        found,
        vec![
            ".connect(alice)",
            ".deposit(10)",
            "await vault.connect(alice).deposit(10);",
            ".paused()",
            ".pop()",
            ".run()",
            "next.run();",
            ".total()",
            ".total()",
            "(await vault.total()).toString();",
            "amount.toNumber();",
            "amount.should.be.above(0);",
            ".withdraw(5)",
            "await vault.withdraw(5);",
        ]
    );
}

#[test]
fn same_input_gives_the_same_list() {
    let texts = |found: Vec<Candidate>| -> Vec<(String, String)> {
        found.into_iter().map(|c| (c.span.to_text(), c.it_message)).collect()
    };
    let first = texts(candidates(SAMPLE, &["queue.pop"]).unwrap());
    let second = texts(candidates(SAMPLE, &["queue.pop"]).unwrap());
    assert_eq!(first, second);
    // Only the functions listed count, not how often or in which order.
    let third = texts(candidates(SAMPLE, &["other", "queue.pop", "queue.pop"]).unwrap());
    let fourth = texts(candidates(SAMPLE, &["queue.pop", "other"]).unwrap());
    assert_eq!(third, fourth);
}

#[test]
fn block_around_an_expectation_is_reported_whole() {
    // The callback is no argument of `expect(..)` itself, so the walk does
    // not enter it, and the block counts as a leaf.
    let text = r#"it("t", () => { { expect(x).to.satisfy(() => { return true; }); } });"#;
    assert_eq!(pieces(text), vec!["{ expect(x).to.satisfy(() => { return true; }); }"]);
}

#[test]
fn parsed_text_with_wide_characters() {
    let text = "it(\"ü\", () => { f(\"世界🙂\"); x.y(); });";
    let found = candidates(text, &[]).unwrap();
    let texts: Vec<String> = found.iter().map(|c| c.span.to_text()).collect();
    // `世` and `界` are two columns wide each; `🙂` is two columns wide and
    // counts as two characters.
    assert_eq!(
        texts,
        vec!["test/t.ts:1:16-1:29", "test/t.ts:1:31-1:35", "test/t.ts:1:30-1:36"]
    );
    assert!(found.iter().all(|c| c.it_message == "ü"));
}
