use tian::ast::{BinOp, Expr, Program, Stmt, Ty};
use tian::lexer::{lex_spanned, Tok};
use tian::parser::{is_token_stream, ParseError, ParseEvent, Parser};

/// 驱动解析器直到入口文件结束（这些源码不含 use）
fn parse(toks: Vec<(Tok, usize)>) -> Result<Program, ParseError> {
    assert!(is_token_stream(&toks));
    let mut p = Parser::new(toks, "<内存源码>".to_string(), Vec::new());
    loop {
        match p.resume()? {
            ParseEvent::Done(prog) => return Ok(prog),
            ParseEvent::Returned => {}
            ParseEvent::Import(name) => panic!("意外的导入 {}", name),
        }
    }
}

fn parse_src(src: &str) -> Program {
    parse(lex_spanned(src).unwrap()).unwrap()
}

fn parse_err(src: &str) -> ParseError {
    match parse(lex_spanned(src).unwrap()) {
        Ok(p) => panic!("期望语法错误，实际解析成功：{:?}", p),
        Err(e) => e,
    }
}

#[test]
fn test_main_t_program() {
    let src = "# main.t 天道示例\n/a=20\n`a/2\n//cnt=1\nw/cnt<=3{\n    cnt=cnt+1\n    `cnt/a\n}\nf/add(x,y){\n    /res=x+y\n    `res\n}\nadd(10,90)\n";
    let prog = parse_src(src);
    assert_eq!(prog.top.len(), 5); // 声明a、打印、声明cnt、while、调用add
    assert_eq!(prog.funcs.len(), 1);
    assert_eq!(prog.funcs[0].name, "add");
    assert_eq!(prog.funcs[0].params[0].name, "x");
    assert_eq!(prog.funcs[0].params[1].name, "y");
    assert!(prog.funcs[0].params.iter().all(|p| p.ty.is_none()));
    assert_eq!(prog.funcs[0].ret, None);
    // add(10,90) 必须解析为函数调用语句
    match &prog.top[4] {
        Stmt::Expr(Expr::Call { name, args }, _) => {
            assert_eq!(name, "add");
            assert_eq!(args.len(), 2);
        }
        other => panic!("期望函数调用语句，实际 {:?}", other),
    }
}

#[test]
fn test_division_in_expr() {
    let prog = parse_src("`cnt/a\n");
    match &prog.top[0] {
        Stmt::Print(Expr::Bin { op, .. }, _) => assert_eq!(*op, BinOp::Div),
        other => panic!("期望除法表达式，实际 {:?}", other),
    }
}

#[test]
fn test_type_annotation_and_precedence() {
    let prog = parse_src("/num:i32=10\n");
    match &prog.top[0] {
        Stmt::Decl { ty: Some(Ty::I32), value: Expr::Int(10), .. } => {}
        other => panic!("期望 i32 声明，实际 {:?}", other),
    }
    // 优先级：1+2*3 → Add(1, Mul(2,3))
    let prog = parse_src("/x=1+2*3\n");
    match &prog.top[0] {
        Stmt::Decl { value: Expr::Bin { op: BinOp::Add, rhs, .. }, .. } => {
            assert!(matches!(rhs.as_ref(), Expr::Bin { op: BinOp::Mul, .. }));
        }
        other => panic!("期望加法，实际 {:?}", other),
    }
}

#[test]
fn test_parse_errors() {
    // 只读声明缺少初始化
    assert!(parse(lex_spanned("/a\n").unwrap()).is_err());
    // 赋值无换行结尾
    assert!(parse(lex_spanned("//a=1 //b=2\n").unwrap()).is_err());
    // 未闭合块
    assert!(parse(lex_spanned("w/1<2{\n/a=1\n").unwrap()).is_err());
}

#[test]
fn test_annotated_fn() {
    // 参数与返回类型标注
    let prog = parse_src("f/join(a:str, b:str):str{\nr/a+b\n}\n");
    let f = &prog.funcs[0];
    assert_eq!(f.params[0].ty, Some(Ty::Str));
    assert_eq!(f.params[1].ty, Some(Ty::Str));
    assert_eq!(f.ret, Some(Ty::Str));
    // 混合标注与省略
    let prog = parse_src("f/mix(x:f64, n):f64{\nr/x*n\n}\n");
    let f = &prog.funcs[0];
    assert_eq!(f.params[0].ty, Some(Ty::F64));
    assert_eq!(f.params[1].ty, None);
    assert_eq!(f.ret, Some(Ty::F64));
}

#[test]
fn test_return_and_else() {
    let src = "f/f(x){\nr/x\n}\n/sum=add(3,4)\n`sum\ni/sum>5{\n`1\n}e/{\n`0\n}\n".replace("add", "f");
    let prog = parse_src(&src);
    // 函数体含 r/x
    match &prog.funcs[0].body[0] {
        Stmt::Return(Some(Expr::Var(v)), _) => assert_eq!(v, "x"),
        other => panic!("期望返回语句，实际 {:?}", other),
    }
    // i/ 带 e/ 块
    match &prog.top[2] {
        Stmt::If { else_body: Some(b), .. } => assert_eq!(b.len(), 1),
        other => panic!("期望带 else 的 if，实际 {:?}", other),
    }
    // 裸 r/ → None
    let prog = parse_src("f/g(){\nr/\n}\n");
    match &prog.funcs[0].body[0] {
        Stmt::Return(None, _) => {}
        other => panic!("期望裸返回，实际 {:?}", other),
    }
}

#[test]
fn parser_error_messages_and_lines() {
    let e = parse_err("/a\n");
    assert_eq!(e.msg, "期望 '='，实际 '⏎'");
    assert_eq!(e.line, 1);
    let e = parse_err("w/1<2{\n/a=1\n");
    assert_eq!(e.msg, "块未闭合（缺少 }）");
    let e = parse_err("//a=1 //b=2\n");
    assert_eq!(e.msg, "期望表达式，实际 '/'");
    let e = parse_err("\n\n)\n");
    assert_eq!(e.msg, "无法识别的语句开头 ')'");
    assert_eq!(e.line, 3);
    let e = parse_err("`1+\n");
    assert_eq!(e.msg, "期望表达式，实际 '⏎'");
    let e = parse_err("/x:foo=1\n");
    assert_eq!(e.msg, "未知类型 'foo'（可用：i32 i64 f64 str bool &str 或已声明的结构体名）");
}

#[test]
fn parser_struct_and_literals() {
    let prog = parse_src("struct P{ x:i64  y:str }\n/p=P{x:1, y:\"a\"}\n`p.x\n");
    assert_eq!(prog.structs.len(), 1);
    assert_eq!(prog.structs[0].name, "P");
    assert_eq!(prog.structs[0].fields.len(), 2);
    assert_eq!(prog.structs[0].fields[1].ty, Ty::Str);
    match &prog.top[0] {
        Stmt::Decl { value: Expr::StructLit { name, fields, line }, .. } => {
            assert_eq!(name, "P");
            assert_eq!(fields.len(), 2);
            assert_eq!(fields[0].0.as_deref(), Some("x"));
            assert_eq!(*line, 2);
        }
        other => panic!("期望结构体字面量，实际 {:?}", other),
    }
    let e = parse_err("struct P{ x:i64 }\nstruct P{ y:i64 }\n");
    assert_eq!(e.msg, "结构体 'P' 重复定义");
    let e = parse_err("struct P{ x:i64  x:str }\n");
    assert_eq!(e.msg, "结构体 'P' 的字段 'x' 重复");
}

#[test]
fn parser_type_tables_dedup() {
    // []str 与 []i64 预先登记为 0 和 1；[]bool 为 4
    let prog = parse_src("/a:[]i64=[]i64{1,2}\n/b:[]bool=[]bool{}\n/c:i64[3]=i64[3]{1,2,3}\n/d:i64[3]=i64[3]{4,5,6}\n");
    assert_eq!(prog.darrs.len(), 5);
    match &prog.top[0] {
        Stmt::Decl { ty: Some(Ty::DArr(1)), value: Expr::DArrLit { darr: 1, elems }, .. } => {
            assert_eq!(elems.len(), 2)
        }
        other => panic!("期望 []i64，实际 {:?}", other),
    }
    match &prog.top[1] {
        Stmt::Decl { ty: Some(Ty::DArr(4)), .. } => {}
        other => panic!("期望 []bool，实际 {:?}", other),
    }
    // 同一 (元素, 长度) 的数组类型只登记一次
    assert_eq!(prog.arrs.len(), 1);
    assert_eq!(prog.arrs[0].len, 3);
    let prog = parse_src("/m=map[str]i64{\"a\": 1, \"b\": 2}\n/n:map[str]i64=m\n");
    assert_eq!(prog.maps.len(), 1);
    match &prog.top[0] {
        Stmt::Decl { value: Expr::MapLit { map: 0, entries }, .. } => assert_eq!(entries.len(), 2),
        other => panic!("期望 map 字面量，实际 {:?}", other),
    }
}

#[test]
fn parser_tuple_return_and_contract() {
    let prog = parse_src("f/dm(a:i64):(i64, i64){\n@example: dm(5) -> (5, 10)\nr/a, a*2\n}\n//q, r=dm(5)\n");
    assert_eq!(prog.tuples.len(), 1);
    assert_eq!(prog.tuples[0].elems, vec![Ty::I64, Ty::I64]);
    let f = &prog.funcs[0];
    assert_eq!(f.ret, Some(Ty::Tuple(0)));
    assert_eq!(f.contracts.len(), 1);
    match &f.body[0] {
        Stmt::Return(Some(Expr::TupExpr { elems, tup: 0 }), _) => assert_eq!(elems.len(), 2),
        other => panic!("期望元组返回，实际 {:?}", other),
    }
    match &prog.top[0] {
        Stmt::MultiDecl { mutable: true, names, .. } => assert_eq!(names.len(), 2),
        other => panic!("期望多声明，实际 {:?}", other),
    }
    let e = parse_err("f/g(a:i64):(i64, i64){\nr/a, a, a\n}\n");
    assert_eq!(e.msg, "元组返回期望 2 个元素，实际更多");
    let e = parse_err("f/g(a:i64){\nr/a, a\n}\n");
    assert_eq!(e.msg, "多值返回要求函数返回类型是元组 (T1, T2, ...)");
    let e = parse_err("f/g():(i64){\nr/1\n}\n");
    assert_eq!(e.msg, "元组元素个数须为 2–4 个（实际 1 个）");
}

#[test]
fn parser_call_on_non_name_rejected() {
    let e = parse_err("`(1)(2)\n");
    assert_eq!(e.msg, "只有函数名可直接调用");
}

#[test]
fn parser_use_event_and_import() {
    // 入口流：use m 之后打印；导入流定义函数 g
    let main = lex_spanned("use m\n`g()\n").unwrap();
    let imported = lex_spanned("f/g(){\nr/1\n}\n").unwrap();
    let mut p = Parser::new(main, "main.t".to_string(), vec!["/abs/main.t".to_string()]);
    match p.resume().unwrap() {
        ParseEvent::Import(name) => assert_eq!(name, "m"),
        _ => panic!("期望导入事件"),
    }
    assert_eq!(p.current_file(), "main.t");
    assert!(p.register_import("/abs/m.t".to_string(), "m".to_string()));
    p.enter("m.t".to_string(), imported);
    assert_eq!(p.current_file(), "m.t");
    match p.resume().unwrap() {
        ParseEvent::Returned => {}
        _ => panic!("期望回到入口文件"),
    }
    // 重复导入被跳过
    assert!(!p.register_import("/abs/m.t".to_string(), "m".to_string()));
    let prog = match p.resume().unwrap() {
        ParseEvent::Done(prog) => prog,
        _ => panic!("期望解析完毕"),
    };
    assert_eq!(prog.uses, vec!["m".to_string()]);
    assert_eq!(prog.funcs.len(), 1);
    assert!(prog.funcs[0].imported);
    assert_eq!(prog.top.len(), 1);
}

#[test]
fn parser_error_in_imported_file_is_prefixed() {
    let main = lex_spanned("use m\n").unwrap();
    let imported = lex_spanned("\n)\n").unwrap();
    let mut p = Parser::new(main, "main.t".to_string(), Vec::new());
    assert!(matches!(p.resume().unwrap(), ParseEvent::Import(_)));
    assert!(p.register_import("m.t".to_string(), "m".to_string()));
    p.enter("dir/m.t".to_string(), imported);
    let e = match p.resume() {
        Err(e) => e,
        Ok(_) => panic!("期望错误"),
    };
    assert_eq!(e.msg, "[dir/m.t] 无法识别的语句开头 ')'");
    assert_eq!(e.line, 2);
}

#[test]
fn parsed_type_tables_are_seeded_and_deduplicated() {
    let prog = parse_src(
        "//m=map[str]i64{\"a\": 1}\n//n=map[str]i64{\"b\": 2}\n//a=[]i64{1, 2}\n//b=[]f64{1.5}\n/x:i64[3]=i64[3]{1, 2, 3}\n/y:i64[3]=i64[3]{4, 5, 6}\n",
    );
    let elems: Vec<Ty> = prog.darrs.iter().map(|d| d.elem).collect();
    assert_eq!(elems, vec![Ty::Str, Ty::I64, Ty::I32, Ty::F64, Ty::Bool]);
    assert_eq!(prog.maps.len(), 1);
    assert_eq!(prog.arrs.len(), 1);
    assert!(prog.arrs[0].len > 0);
}
