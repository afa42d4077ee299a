use tian::ast::Program;
use tian::checker::check;
use tian::lexer::{lex_spanned, Tok};
use tian::parser::{is_token_stream, ParseError, ParseEvent, Parser};

/// 驱动解析器直到入口文件结束（这些源码不含 use）
fn parse(toks: Vec<(Tok, usize)>) -> Result<Program, ParseError> {
    assert!(is_token_stream(&toks));
    let mut p = Parser::new(toks, "<内存源码>".to_string(), Vec::new());
    loop {
        match p.resume()? {
            ParseEvent::Done(prog) => return Ok(prog),
            ParseEvent::Returned => {}
            ParseEvent::Import(name) => panic!("意外的导入 {}", name),
        }
    }
}

fn check_src(src: &str) -> Result<(), String> {
    let prog = parse(lex_spanned(src).unwrap()).map_err(|e| e.display())?;
    check(&prog).map_err(|e| e.display())
}

#[test]
fn test_valid_main_t() {
    let src = "# main.t\n/a=20\n`a/2\n//cnt=1\nw/cnt<=3{\n    cnt=cnt+1\n    `cnt/a\n}\nf/add(x,y){\n    /res=x+y\n    `res\n}\nadd(10,90)\n";
    assert!(check_src(src).is_ok());
}

#[test]
fn test_readonly_assign_rejected() {
    let e = check_src("/a=1\na=2\n").unwrap_err();
    assert!(e.contains("只读"), "实际报错：{}", e);
}

#[test]
fn test_undeclared_var() {
    let e = check_src("`b\n").unwrap_err();
    assert!(e.contains("未声明"));
}

#[test]
fn test_str_number_mix() {
    assert!(check_src("`\"a\"+1\n").is_err());
    assert!(check_src("/a=\"hi\"\n`a*2\n").is_err());
}

#[test]
fn test_cond_must_be_bool() {
    let e = check_src("//x=1\nw/x{\n`x\n}\n").unwrap_err();
    assert!(e.contains("bool"), "实际报错：{}", e);
}

#[test]
fn test_v03_type_annotations() {
    assert!(check_src("f/join(a:str, b:str):str{\nr/a+b\n}\n`join(\"天\", \"道\")\n").is_ok());
    assert!(check_src("f/g(n:str){`n\ng(1)\n}\n").is_err());
    assert!(check_src("f/g(n:i64){`n\ng(\"x\")\n}\n").is_err());
    assert!(check_src("f/g():i64{\nr/\"a\"\n}\n").is_err());
    assert!(check_src("f/g():str{\nr/\"a\"\n}\n").is_ok());
    assert!(check_src("f/g():f64{\nr/3\n}\n`g()\n").is_ok());
    assert!(check_src("f/g():f64{\nr/1.5\n}\n`g()*2\n").is_ok());
    assert!(check_src("f/g():str{\nr/\n}\n").is_ok());
}

#[test]
fn test_v03_str_concat() {
    assert!(check_src("`\"天\"+\"道\"\n").is_ok());
    assert!(check_src("/a=\"x\"\n//b=\"y\"\n`a+b+a\n").is_ok());
    assert!(check_src("`\"a\"+1\n").is_err());
    assert!(check_src("`tos(1)+\"a\"\n").is_ok());
    assert!(check_src("`\"a\"-\"b\"\n").is_err());
}

#[test]
fn test_function_checks() {
    assert!(check_src("f/add(x,y){`x}\nadd(1)\n").is_err());
    assert!(check_src("sub(1,2)\n").is_err());
    assert!(check_src("f/g(x){r/x\n}\n/a=g(1)\n`a+g(2)\n").is_ok());
    assert!(check_src("f/g(x){r/1.5\n}\n").is_err());
    assert!(check_src("r/1\n").is_err());
}

#[test]
fn test_type_annotation() {
    assert!(check_src("/num:i32=10\n").is_ok());
    assert!(check_src("/num:i32=99999999999\n").is_err());
    assert!(check_src("/s:i32=\"hi\"\n").is_err());
}

#[test]
fn test_conversions() {
    assert!(check_src("`toi(\"42\")\n").is_ok());
    assert!(check_src("`toi(\"abc\")\n").is_err());
    assert!(check_src("/x=3.7\n`toi(x)\n").is_ok());
    assert!(check_src("`tos(42)\n").is_ok());
}

#[test]
fn test_move_then_use_rejected() {
    let e = check_src("//s=\"a\"\n//t=s\n`s\n").unwrap_err();
    assert!(e.contains("已被移动"), "实际报错：{}", e);
    assert!(check_src("//s=\"a\"\n//t=s\n`s==\"a\"\n").is_err());
    let e = check_src("f/g(x:str){`x\n}\n//s=\"a\"\ng(s)\ng(s)\n").unwrap_err();
    assert!(e.contains("已被移动"), "实际报错：{}", e);
}

#[test]
fn test_move_and_revive() {
    assert!(check_src("//s=\"a\"\n//t=s\ns=\"b\"\n`s\n").is_ok());
    let e = check_src("/s=\"a\"\n//t=s\ns=\"b\"\n").unwrap_err();
    assert!(e.contains("只读"), "实际报错：{}", e);
}

#[test]
fn test_copy_keeps_source() {
    assert!(check_src("//s=\"a\"\n//t=copy(s)\n`s\n`t\n").is_ok());
    assert!(check_src("`copy(1)\n").is_err());
}

#[test]
fn test_borrow_positions_do_not_move() {
    assert!(check_src("//s=\"a\"\n`s==\"a\"\n`s!=\"b\"\n`s\n").is_ok());
    assert!(check_src("//s=\"a\"\n//t=s+\"b\"\n`s\n").is_ok());
    assert!(check_src("//s=\"a\"\n`copy(s)\n`s\n").is_ok());
}

#[test]
fn test_str_call_moves_arg() {
    let e = check_src("f/g(x:str){`x\n}\n//s=\"a\"\n//t=g(s)\n`s\n").unwrap_err();
    assert!(e.contains("已被移动"), "实际报错：{}", e);
    assert!(check_src("f/g():str{\n//x=\"a\"\nr/x\n}\n//s=g()\n`s\n").is_ok());
    let e = check_src("f/g(x:str):i64{\nr/1\n}\n//s=\"a\"\n/g=g(s)+1\n`s\n").unwrap_err();
    assert!(e.contains("已被移动"), "实际报错：{}", e);
}

#[test]
fn test_move_in_branch_is_conservative() {
    let src = "//s=\"a\"\n//c=1\ni/c==1{\n//t=s\n}\ne/{\n`s\n}\n`s\n";
    assert!(check_src(src).is_err());
    let e = check_src(src).unwrap_err();
    assert!(e.contains("已被移动"), "实际报错：{}", e);
}

#[test]
fn test_borrow_ok() {
    assert!(check_src("f/lenstr(x:&str):i64{\nr/1\n}\n//s=\"a\"\n/g=lenstr(&s)\n`s\n").is_ok());
    assert!(check_src("f/lenstr(x:&str):i64{\nr/1\n}\n//s=\"a\"\n/g=lenstr(&s)\n//t=s\n").is_ok());
    assert!(check_src("f/shout(x:&str):str{\nr/x+\"!\"\n}\n").is_ok());
    assert!(check_src("f/eq(x:&str):bool{\nr/x==\"a\"\n}\n").is_ok());
    assert!(check_src("f/dup(x:&str):str{\nr/copy(x)\n}\n").is_ok());
}

#[test]
fn test_borrow_rejects() {
    let e = check_src("f/lenstr(x:&str):i64{\nr/1\n}\n//s=\"a\"\nlenstr(s)\n").unwrap_err();
    assert!(e.contains("& 前缀"), "实际报错：{}", e);
    let e = check_src("f/g(x:str){`x\n}\n//s=\"a\"\ng(&s)\n").unwrap_err();
    assert!(e.contains("不能是借用"), "实际报错：{}", e);
    let e = check_src("f/g(x:&str):str{\nr/x\n}\n").unwrap_err();
    assert!(e.contains("逃逸"), "实际报错：{}", e);
    let e = check_src("f/g():&str{\nr/\"a\"\n}\n").unwrap_err();
    assert!(e.contains("借用"), "实际报错：{}", e);
    let e = check_src("f/g(x:&str):i64{\n//t=x\nr/1\n}\n").unwrap_err();
    assert!(e.contains("所有权"), "实际报错：{}", e);
    assert!(check_src("//s=\"a\"\n//t=&s\n").is_err());
    let e = check_src("f/lenstr(x:&str):i64{\nr/1\n}\n//s=\"a\"\n//t=s\nlenstr(&s)\n").unwrap_err();
    assert!(e.contains("已被移动"), "实际报错：{}", e);
}

#[test]
fn test_contract_ok() {
    assert!(check_src(
        "f/wrap(s:&str):str{\n@pre: s != \"\"\n@post: ret != \"\"\n@example: wrap(\"hi\") -> \"hi!\"\nr/ s+\"!\"\n}\n"
    )
    .is_ok());
    assert!(check_src("f/w(s:&str):i64{\n@pre: s != \"\"\n@example: w(\"x\") -> 1\nr/ 1\n}\n").is_ok());
}

#[test]
fn test_contract_rejects() {
    let e = check_src("f/g(x:i64):i64{\n@pre: x+1\nr/ x\n}\n").unwrap_err();
    assert!(e.contains("@pre 必须"), "实际报错：{}", e);
    let e = check_src("f/g(x:i64):i64{\n@post: ret+1\nr/ x\n}\n").unwrap_err();
    assert!(e.contains("@post 必须"), "实际报错：{}", e);
    let e = check_src("f/g():i64{\nr/ 1\n}\nf/h():i64{\n@example: g() -> 1\nr/ 2\n}\n").unwrap_err();
    assert!(e.contains("@example 必须"), "实际报错：{}", e);
    let e = check_src("f/g():i64{\n@example: g() -> \"a\"\nr/ 1\n}\n").unwrap_err();
    assert!(e.contains("不符"), "实际报错：{}", e);
    assert!(check_src("f/g():i64{\n@foo: 1\nr/ 1\n}\n").is_err());
}

#[test]
fn test_tuple_contract() {
    assert!(check_src(
        "f/range_stats(n:i64):(i64, i64){\n@example: range_stats(3) -> (3, 6)\n//c=0\nr/n, n/2\n}\n"
    )
    .is_ok());
    assert!(check_src("f/div(a:i64,b:i64):(i64, f64){\n@example: div(5, 2) -> (2, 2.5)\nr/a, a/2.0\n}\n").is_ok());
    assert!(check_src("f/pair(n:i64):(i64, str){\n@example: pair(5) -> (5, \"hi\")\nr/n, \"hi\"\n}\n").is_ok());
    let e = check_src("f/g(x:i64):(i64, i64){\n@post: true\nr/x, x\n}\n").unwrap_err();
    assert!(e.contains("@post 不支持元组"), "实际报错：{}", e);
}

#[test]
fn test_tuple_rejected_positions() {
    let e = check_src("f/g(a:i64){`a}\nf/h(a:i64,b:i64):(i64,i64){r/a,b}\ng(h(1,2))\n").unwrap_err();
    assert!(e.contains("参数期望"), "tuple-as-arg 实际报错：{}", e);
    let e = check_src("f/h(a:i64,b:i64):(i64,i64){r/a,b}\n`h(1,2)\n").unwrap_err();
    assert!(e.contains("不能"), "tuple-print 实际报错：{}", e);
    let e = check_src("f/h(a:i64,b:i64):(i64,i64){r/a,b}\n`sel(true, h(1,2), h(2,3))\n").unwrap_err();
    assert!(e.contains("sel"), "tuple-sel 实际报错：{}", e);
}

// ───────── 其他检查 ─────────

#[test]
fn undeclared_var_suggests_candidate() {
    let e = check_src("//count=1\n`cout\n").unwrap_err();
    assert_eq!(e, "编译错误（第 2 行）：变量 'cout' 未声明；提示：是否想用 'count'？；候选：count");
}

#[test]
fn undefined_fn_suggests_candidate() {
    let e = check_src("f/add(x,y){`x}\nadd2(1,2)\n").unwrap_err();
    assert!(e.contains("函数 'add2' 未定义"), "实际报错：{}", e);
    assert!(e.contains("是否想调用 'add'？"), "实际报错：{}", e);
}

#[test]
fn duplicate_function_and_params() {
    let e = check_src("f/g(){`1}\nf/g(){`2}\n").unwrap_err();
    assert!(e.contains("函数 'g' 重复定义"), "实际报错：{}", e);
    let e = check_src("f/g(x, x){`x}\n").unwrap_err();
    assert!(e.contains("参数 'x' 重复"), "实际报错：{}", e);
}

#[test]
fn duplicate_declaration() {
    let e = check_src("/a=1\n/a=2\n").unwrap_err();
    assert_eq!(e, "编译错误（第 2 行）：变量 'a' 重复声明");
}

#[test]
fn break_outside_loop() {
    let e = check_src("break\n").unwrap_err();
    assert!(e.contains("break 只能出现在 w/ 循环体内"), "实际报错：{}", e);
    assert!(check_src("//i=0\nw/i<3{\ni=i+1\nbreak\n}\n").is_ok());
}

#[test]
fn function_cannot_see_top_level() {
    let e = check_src("/a=1\nf/g(){`a}\n").unwrap_err();
    assert!(e.contains("变量 'a' 未声明"), "实际报错：{}", e);
}

#[test]
fn block_declarations_do_not_leak() {
    let e = check_src("//c=1\ni/c==1{\n/x=1\n}\n`x\n").unwrap_err();
    assert!(e.contains("变量 'x' 未声明"), "实际报错：{}", e);
}

#[test]
fn i32_literal_range() {
    assert!(check_src("/n:i32=2147483647\n").is_ok());
    assert!(check_src("/n:i32=2147483648\n").is_err());
}
