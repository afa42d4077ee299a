use tian::lexer::{lex, lex_spanned, Tok};

fn toks(src: &str) -> Vec<Tok> {
    // 统一补充行尾换行（模拟真实源文件的行结束符）
    lex(&format!("{}\n", src)).unwrap()
}

fn id(s: &str) -> Tok {
    Tok::Ident(s.to_string())
}

#[test]
fn test_slash_decl_vs_division() {
    // 核心难点：/a 声明 vs a/2 除法
    assert_eq!(toks("/a=20"), vec![Tok::ReadOnlyDecl, id("a"), Tok::Assign, Tok::Int(20), Tok::Newline, Tok::Eof]);
    assert_eq!(toks("10/2"), vec![Tok::Int(10), Tok::Slash, Tok::Int(2), Tok::Newline, Tok::Eof]);
    assert_eq!(toks("a/2"), vec![id("a"), Tok::Slash, Tok::Int(2), Tok::Newline, Tok::Eof]);
    assert_eq!(toks("/ a"), vec![Tok::Slash, id("a"), Tok::Newline, Tok::Eof]);
    // 表达式内 / 恒为除号（a /b、cnt/a 均按除法）
    assert_eq!(toks("a /b"), vec![id("a"), Tok::Slash, id("b"), Tok::Newline, Tok::Eof]);
    assert_eq!(toks("cnt/a"), vec![id("cnt"), Tok::Slash, id("a"), Tok::Newline, Tok::Eof]);
    // 表达式结束后换行，下一行的 /a 仍是声明
    assert_eq!(
        toks("10/2\n/a=1"),
        vec![Tok::Int(10), Tok::Slash, Tok::Int(2), Tok::Newline, Tok::ReadOnlyDecl, id("a"), Tok::Assign, Tok::Int(1), Tok::Newline, Tok::Eof]
    );
}

#[test]
fn test_mutable_decl() {
    assert_eq!(toks("//cnt=1"), vec![Tok::MutableDecl, id("cnt"), Tok::Assign, Tok::Int(1), Tok::Newline, Tok::Eof]);
    // // 后不是标识符 → 除法除法
    assert_eq!(toks("8//2"), vec![Tok::Int(8), Tok::Slash, Tok::Slash, Tok::Int(2), Tok::Newline, Tok::Eof]);
}

#[test]
fn test_flow_markers() {
    assert_eq!(toks("w/cnt<=3{"), vec![Tok::While, id("cnt"), Tok::Le, Tok::Int(3), Tok::LBrace, Tok::Newline, Tok::Eof]);
    assert_eq!(toks("i/x==1{"), vec![Tok::If, id("x"), Tok::Eq, Tok::Int(1), Tok::LBrace, Tok::Newline, Tok::Eof]);
    assert_eq!(
        toks("f/add(x,y){"),
        vec![Tok::Fn, id("add"), Tok::LParen, id("x"), Tok::Comma, id("y"), Tok::RParen, Tok::LBrace, Tok::Newline, Tok::Eof]
    );
    // w 单独作为变量名合法
    assert_eq!(toks("/w=1"), vec![Tok::ReadOnlyDecl, id("w"), Tok::Assign, Tok::Int(1), Tok::Newline, Tok::Eof]);
    assert_eq!(toks("r/x"), vec![Tok::Return, id("x"), Tok::Newline, Tok::Eof]);
    assert_eq!(toks("}e/{"), vec![Tok::RBrace, Tok::Else, Tok::LBrace, Tok::Newline, Tok::Eof]);
    // 表达式内标记字不生效：a e/b 中 / 仍是除号
    assert_eq!(toks("a e/b"), vec![id("a"), id("e"), Tok::Slash, id("b"), Tok::Newline, Tok::Eof]);
}

#[test]
fn test_print_and_type_annotation() {
    assert_eq!(toks("`a"), vec![Tok::Backtick, id("a"), Tok::Newline, Tok::Eof]);
    assert_eq!(
        toks("/num:i32=10"),
        vec![Tok::ReadOnlyDecl, id("num"), Tok::Colon, id("i32"), Tok::Assign, Tok::Int(10), Tok::Newline, Tok::Eof]
    );
}

#[test]
fn test_literals() {
    let t = toks("3.14");
    assert_eq!(t.len(), 3);
    match &t[0] {
        Tok::Float(text) => assert_eq!(text.parse::<f64>().unwrap(), 3.14),
        other => panic!("期望浮点，实际 {:?}", other),
    }
    assert_eq!(&t[1..], &[Tok::Newline, Tok::Eof]);
    assert_eq!(toks("\"你好\\n\""), vec![Tok::Str("你好\n".into()), Tok::Newline, Tok::Eof]);
    assert_eq!(toks("true false"), vec![Tok::Bool(true), Tok::Bool(false), Tok::Newline, Tok::Eof]);
    assert_eq!(
        toks("toi(\"5\")"),
        vec![Tok::ConvertFn("toi".into()), Tok::LParen, Tok::Str("5".into()), Tok::RParen, Tok::Newline, Tok::Eof]
    );
}

#[test]
fn test_comment() {
    // 注释不吞换行符：换行仍是语句结束符，因此 Newline 在最前
    assert_eq!(
        toks("# 这是注释\n/a=1"),
        vec![Tok::Newline, Tok::ReadOnlyDecl, id("a"), Tok::Assign, Tok::Int(1), Tok::Newline, Tok::Eof]
    );
}

#[test]
fn test_errors() {
    assert!(lex("\"未闭合").is_err());
    assert!(lex("1.5x").is_err()); // 数字后直接跟标识符
    assert_eq!(lex("1.5x").unwrap_err().line, 1);
    assert!(lex("3./2").is_err()); // 小数点后无数字
}

#[test]
fn test_main_t_sample() {
    let src = "# main.t 天道示例\n/a=20\n`a/2\n//cnt=1\nw/cnt<=3{\n    cnt=cnt+1\n    `cnt/a\n}\nf/add(x,y){\n    /res=x+y\n    `res\n}\nadd(10,90)\n";
    let t = lex(src).unwrap();
    assert_eq!(t[0], Tok::Newline); // 注释行后
    assert_eq!(t[1], Tok::ReadOnlyDecl);
    assert_eq!(*t.last().unwrap(), Tok::Eof);
}

// ── 以下为补充测试 ──

#[test]
fn lex_error_messages_and_lines() {
    let e = lex("/a=1\n\"abc\n").unwrap_err();
    assert_eq!(e.msg, "字符串未闭合（字符串不可跨行）");
    assert_eq!(e.line, 3); // 换行已被读入
    let e = lex("\"abc").unwrap_err();
    assert_eq!(e.msg, "字符串未闭合（字符串不可跨行）");
    assert_eq!(e.line, 1);
    let e = lex("\"a\\").unwrap_err();
    assert_eq!(e.msg, "字符串未闭合");
    let e = lex("\"a\\q\"").unwrap_err();
    assert_eq!(e.msg, "未知转义 '\\q'");
    let e = lex("x ! y").unwrap_err();
    assert_eq!(e.msg, "孤立的 '!'（期望 != ）");
    let e = lex("\n\n$").unwrap_err();
    assert_eq!(e.msg, "无法识别的字符 '$'");
    assert_eq!(e.line, 3);
    let e = lex("12ab").unwrap_err();
    assert_eq!(e.msg, "数字 '12' 后不能直接跟标识符字符");
    let e = lex("3.").unwrap_err();
    assert_eq!(e.msg, "非法数字 '3.'（浮点小数点后必须有数字，若为整数请去掉小数点）");
    let e = lex("9223372036854775808").unwrap_err();
    assert_eq!(e.msg, "整数超出 i64 范围 '9223372036854775808'");
}

#[test]
fn lex_integer_limits_and_escapes() {
    assert_eq!(lex("9223372036854775807").unwrap(), vec![Tok::Int(i64::MAX), Tok::Eof]);
    assert_eq!(lex("007").unwrap(), vec![Tok::Int(7), Tok::Eof]);
    assert_eq!(
        lex("\"a\\\"b\\\\c\\td\"").unwrap(),
        vec![Tok::Str("a\"b\\c\td".into()), Tok::Eof]
    );
    assert_eq!(lex("").unwrap(), vec![Tok::Eof]);
}

#[test]
fn lex_operators_and_builtins() {
    assert_eq!(
        lex("a->b == c != d >= e < f > g = h").unwrap(),
        vec![id("a"), Tok::Arrow, id("b"), Tok::Eq, id("c"), Tok::Ne, id("d"), Tok::Ge, id("e"), Tok::Lt, id("f"), Tok::Gt, id("g"), Tok::Assign, id("h"), Tok::Eof]
    );
    assert_eq!(
        lex("struct use break continue keys values").unwrap(),
        vec![Tok::Struct, Tok::Use, Tok::Break, Tok::Continue, Tok::ConvertFn("keys".into()), id("values"), Tok::Eof]
    );
    assert_eq!(
        lex("&@.[]").unwrap(),
        vec![Tok::Amp, Tok::At, Tok::Dot, Tok::LBracket, Tok::RBracket, Tok::Eof]
    );
}

#[test]
fn lex_spanned_lines_and_newline_merging() {
    let t = lex_spanned("/a=1\n\n\n  `a\n").unwrap();
    let lines: Vec<usize> = t.iter().map(|(_, l)| *l).collect();
    assert_eq!(lines, vec![1, 1, 1, 1, 1, 4, 4, 4, 5]);
    assert_eq!(t[4].0, Tok::Newline);
    assert_eq!(t[5].0, Tok::Backtick);
    // 中文标识符
    assert_eq!(lex("天=1").unwrap(), vec![id("天"), Tok::Assign, Tok::Int(1), Tok::Eof]);
    // 下划线起首的声明
    assert_eq!(lex("/_x=1").unwrap()[0], Tok::ReadOnlyDecl);
}
