use tian::ast::Program;
use tian::fmt::c_str_lit;
use tian::lexer::{lex, lex_spanned, Tok};
use tian::parser::{is_token_stream, ParseEvent, Parser};

fn parse_src(src: &str) -> Program {
    let toks = lex_spanned(src).expect("词法失败");
    assert!(is_token_stream(&toks));
    let mut p = Parser::new(toks, "<内存源码>".to_string(), Vec::new());
    loop {
        match p.resume().expect("解析失败") {
            ParseEvent::Done(prog) => return prog,
            ParseEvent::Returned => {}
            ParseEvent::Import(name) => panic!("意外的导入 {}", name),
        }
    }
}

fn roundtrip(src: &str) -> String {
    let prog = parse_src(src);
    tian::fmt::format(&prog)
}

#[test]
fn test_fmt_idempotent() {
    let src = "//a=20\n`a/2\n//cnt=1\nw/cnt<=3{\n    cnt=cnt+1\n    `cnt/a\n}\n";
    let once = roundtrip(src);
    // 幂等：第二次 fmt 与第一次完全一致
    let twice = roundtrip(&once);
    assert_eq!(once, twice, "fmt 必须幂等");
    assert!(once.contains("`a / 2"));
}

#[test]
fn test_fmt_reorders_and_compiles() {
    // 函数在顶层语句之后使用 → fmt 规范化顺序后仍可解析
    let src = "`add(1,2)\nf/add(x:i64,y:i64):i64{\n    r/x+y\n}\n";
    let out = roundtrip(src);
    assert!(out.find("f/add").unwrap() < out.find("`add").unwrap());
}

#[test]
fn test_fmt_literals() {
    let src = "//s=\"天\\n\" \n`\"引\\\"号\"\n`3.50\n`true\n";
    let out = roundtrip(src);
    assert!(out.contains("\"天\\n\""));
    assert!(out.contains("\"引\\\"号\""));
    assert!(out.contains("3.5"));
}

#[test]
fn fmt_exact_layout() {
    let out = roundtrip("`1\nf/g(&a:[]i64, b):(i64, str){\n@pre: b>0\n@example: g(x, 1) -> (1, \"a\")\nr/1, \"a\"\n}\nstruct P{x:i64, y:i64[2]}\n//q, r=g(x, 1)\ni/1<2{\nw/true{\nbreak\n}\n}e/{\n`-(1+2)*3\n}\n");
    let want = "struct P{x:i64  y:i64[2]}\n\nf/g(&a:[]i64, b):(i64, str){\n@pre: b > 0\n@example: g(x, 1) -> (1, \"a\")\n    r/1, \"a\"\n}\n\n`1\n//q, r=g(x, 1)\ni/1 < 2{\n    w/true{\n        break\n    }\n}e/{\n    `-(1 + 2) * 3\n}\n";
    assert_eq!(out, want);
}

#[test]
fn fmt_precedence_parens() {
    assert_eq!(roundtrip("`(1+2)*3\n"), "`(1 + 2) * 3\n");
    assert_eq!(roundtrip("`1+2*3\n"), "`1 + 2 * 3\n");
    assert_eq!(roundtrip("`1-(2-3)\n"), "`1 - (2 - 3)\n");
    assert_eq!(roundtrip("`1-2-3\n"), "`1 - 2 - 3\n");
    assert_eq!(roundtrip("`8/(4/2)\n"), "`8 / (4 / 2)\n");
    assert_eq!(roundtrip("`-(-1)\n"), "`-(-1)\n");
    assert_eq!(roundtrip("/m=map[str]i64{\"a\": 1}\n`has(m, \"a\")\n"), "/m=map[str]i64{\"a\": 1}\n`has(m, \"a\")\n");
}

#[test]
fn fmt_c_str_lit_escapes() {
    assert_eq!(c_str_lit("a\"b\\c\nd\te"), "\"a\\\"b\\\\c\\nd\\te\"");
    assert_eq!(c_str_lit(""), "\"\"");
}

#[test]
fn c_str_lit_lexes_back() {
    assert_eq!(c_str_lit("引\"号"), "\"引\\\"号\"");
    assert_eq!(c_str_lit("天\n"), "\"天\\n\"");
    for s in ["引\"号", "天\n", "a\\b\tc", ""] {
        let toks = lex(&c_str_lit(s)).unwrap();
        assert_eq!(toks, vec![Tok::Str(s.to_string()), Tok::Eof]);
    }
}
