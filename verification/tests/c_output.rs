use tian::ast::Program;
use tian::c_ready::{gen_ready, try_generate};
use tian::gen_c::generate;
use tian::checker::check;
use tian::lexer::{lex_spanned, Tok};
use tian::parser::{is_token_stream, ParseError, ParseEvent, Parser};

/// 驱动解析器直到入口文件结束（这些源码不含 use）
fn parse(toks: Vec<(Tok, usize)>) -> Result<Program, ParseError> {
    assert!(is_token_stream(&toks));
    let mut p = Parser::new(toks, "<内存源码>".to_string(), Vec::new());
    loop {
        match p.resume()? {
            ParseEvent::Done(prog) => return Ok(prog),
            ParseEvent::Returned => {}
            ParseEvent::Import(name) => panic!("意外的导入 {}", name),
        }
    }
}

fn gen(src: &str) -> String {
    let prog = parse(lex_spanned(src).unwrap()).unwrap();
    check(&prog).unwrap();
    generate(&prog)
}

#[test]
fn test_gen_main_t() {
    let src = "# main.t\n/a=20\n`a/2\n//cnt=1\nw/cnt<=3{\n    cnt=cnt+1\n    `cnt/a\n}\nf/add(x,y){\n    /res=x+y\n    `res\n}\nadd(10,90)\n";
    let c = gen(src);
    assert!(c.contains("long long t_a = 20;"));
    assert!(c.contains("__t_idiv_l(t_a, 2)"));
    assert!(c.contains("while ((t_cnt <= 3))"));
    assert!(c.contains("static long long t_add(long long t_x, long long t_y)"));
    assert!(c.contains("t_add(10, 90);"));
    assert!(c.contains("int main(void)"));
}

#[test]
fn test_chinese_ident_mangling() {
    let src = "/天=1\n`天\n";
    let c = gen(src);
    assert!(c.contains("t_x5929 = 1;"));
}

#[test]
fn test_gen_ownership() {
    let src = "//s=\"天\"\n//c=copy(s)\n`s+\"道\"\n//t=s\n`t\n";
    let c = gen(src);
    assert!(c.contains("const char* t_s = NULL;"));
    assert!(c.contains("t_s = __t_dup(\"天\");"), "生成的 C：\n{}", c);
    assert!(c.contains("__t_dup(t_s)"));
    assert!(c.contains("t_t = t_s;"));
    assert!(c.contains("t_s = NULL;"));
    assert!(c.contains("__t_free(t_s); t_s = NULL;"));
}

#[test]
fn test_gen_self_consuming_assign() {
    let src = "f/echo(x:str):str{\nr/x\n}\n//s=\"a\"\ns=echo(s)\n`s\n";
    let c = gen(src);
    assert!(!c.contains("__t_free(t_s);\n    t_s = __t_tmp;"), "不应释放被消费的旧值：\n{}", c);
    assert!(c.contains("t_echo(t_s)"));
}

#[test]
fn test_gen_borrow() {
    let src = "f/shout(x:&str):str{\nr/x+\"!\"\n}\n//s=\"天\"\n`shout(&s)\n`s\n";
    let c = gen(src);
    assert!(c.contains("const char* t_x)"), "生成的 C：\n{}", c);
    assert!(!c.contains("__t_free(t_x)"), "借用形参不应被释放：\n{}", c);
    assert_eq!(c.matches("t_s = NULL;").count(), 2, "借用不应移动源变量：\n{}", c);
    assert!(c.contains("t_shout(t_s)"));
}

#[test]
fn map_borrow_param_keeps_source() {
    let src = "f/n(m:&map[str]i64):i64{\nr/len(m)\n}\n//m=map[str]i64{\"a\": 1}\n`n(m)\n`len(m)\n";
    let c = gen(src);
    assert_eq!(c.matches("t_m = NULL;").count(), 2, "map 借用不应移动源变量：\n{}", c);
}

#[test]
fn test_gen_contracts() {
    let src = "f/wrap(s:&str):str{\n@pre: s != \"\"\n@post: ret != \"\"\n@example: wrap(\"hi\") -> \"hi!\"\nr/ s+\"!\"\n}\n`wrap(\"x\")\n";
    let c = gen(src);
    assert!(c.contains("@pre 契约失败：wrap"), "生成的 C：\n{}", c);
    assert!(c.contains("@post 契约失败"), "生成的 C：\n{}", c);
    assert!(c.contains("__t_seq("), "生成的 C：\n{}", c);
    assert!(c.contains("@example 契约失败：wrap"), "生成的 C：\n{}", c);
}

#[test]
fn test_gen_tuple_v45() {
    let src = "\
f/stats(n:i64):(i64, i64){
    r/n, n*2
}
//c, s=stats(5)
`c
`s
";
    let c = gen(src);
    assert!(c.contains("__t_malloc(16)"), "生成的 C：\n{}", c);
    assert!(c.contains("((long long*)t_ret)[0]"), "生成的 C：\n{}", c);
    assert!(c.contains("((long long*)t_ret)[1]"), "生成的 C：\n{}", c);
    assert!(c.contains("((long long*)__t_t)[0]"), "生成的 C：\n{}", c);
    assert!(c.contains("__t_free(__t_t)"), "生成的 C：\n{}", c);
    assert!(c.contains("long long t_c;"), "生成的 C：\n{}", c);
}

#[test]
fn test_gen_tuple_str_elem_v45() {
    let src = "\
f/pair(n:i64):(i64, str){
    r/n, \"hello\"
}
//num, label=pair(5)
`num
`label
";
    let c = gen(src);
    assert!(c.contains("((long long*)t_ret)[1] = (long long)(__t_dup(\"hello\"));"), "生成的 C：\n{}", c);
    assert!(c.contains("t_label = (const char*) ((long long*)__t_t)[1];"), "生成的 C：\n{}", c);
    assert!(c.contains("const char* t_label = NULL;"), "生成的 C：\n{}", c);
}

#[test]
fn gen_whole_unit_layout() {
    let c = gen("`1\n");
    assert!(c.starts_with("/* 由 tc（Tian Compiler v2.0，天权）生成 */\n#include <stdio.h>\n"));
    assert!(c.contains("static long long __t_idiv_l(long long a, long long b)"));
    assert!(c.ends_with("int main(void) {\n    printf(\"%lld\\n\", (long long)(1));\n    return 0;\n}\n\n"), "生成的 C：\n{}", c);
}

#[test]
fn gen_struct_and_function_definitions() {
    let src = "struct 点{x:i64, 名:str}\nf/mk(a:i64):点{\nr/点{a, \"p\"}\n}\n";
    let c = gen(src);
    assert!(c.contains("typedef struct {\n    long long t_x;\n    const char* t_x540d;\n} t_x70b9;\n\n"), "生成的 C：\n{}", c);
    assert!(c.contains("static t_x70b9* __t_new_t_x70b9(long long t0, const char* t1) {"), "生成的 C：\n{}", c);
    assert!(c.contains("    __t_free(p->t_x540d); p->t_x540d = NULL;\n"), "生成的 C：\n{}", c);
    assert!(c.contains("static t_x70b9* t_mk(long long t_a);\n"), "生成的 C：\n{}", c);
    assert!(c.contains("    return NULL;\n}\n\n"), "生成的 C：\n{}", c);
}

#[test]
fn gen_statements() {
    let src = "//a=[]i64{1, 2}\npush(a, 3)\na[0]=5\n`len(a)\npop(a)\n/m=map[str]i64{\"k\": 1}\n`has(m, \"k\")\n";
    let c = gen(src);
    assert!(c.contains("    { void* __t_h = __t_dnew(2);\n      __t_dpush_i(__t_h, 1);\n"), "生成的 C：\n{}", c);
    assert!(c.contains("    t_a = __t_dpush_i(t_a, 3);\n"), "生成的 C：\n{}", c);
    assert!(c.contains("    __t_dset_i(t_a, 0, 5);\n"), "生成的 C：\n{}", c);
    assert!(c.contains("    __t_dpop(t_a);\n"), "生成的 C：\n{}", c);
    assert!(c.contains("__t_h = __t_mset_si(__t_h, __t_dup(\"k\"), (long long)(1));"), "生成的 C：\n{}", c);
    assert!(c.contains("__t_mhas_s(t_m, \"k\")"), "生成的 C：\n{}", c);
}

#[test]
fn gen_control_flow_and_checks() {
    let src = "//i=0\nw/i<10{\ni=i+1\ni/i==3{\ncontinue\n}\ne/{\nbreak\n}\n}\ncheck(i>0, \"正\")\npanic(\"停\")\n";
    let c = gen(src);
    assert!(c.contains("    while ((t_i < 10)) {\n        t_i = (t_i + 1);\n        if ((t_i == 3)) {\n            continue;\n        } else {\n            break;\n        }\n    }\n"), "生成的 C：\n{}", c);
    assert!(c.contains("    if (!((t_i > 0))) { __t_panic(__t_dup(\"正\")); }\n"), "生成的 C：\n{}", c);
    assert!(c.contains("    __t_panic(__t_dup(\"停\"));\n"), "生成的 C：\n{}", c);
}

#[test]
fn gen_post_on_fallthrough_and_scalar_return() {
    let src = "f/g(x:i64):i64{\n@post: ret >= 0\ni/x>0{\nr/x\n}\n}\nf/h(x:i32):i32{\nr/x\n}\n";
    let c = gen(src);
    assert!(c.contains("{ long long t_ret = t_x;\n"), "生成的 C：\n{}", c);
    assert!(c.contains("    { long long t_ret = 0;\n    if (!((t_ret >= 0))) { fprintf(stderr, \"@post 契约失败（第 2 行）\\n\"); exit(1); } return t_ret; }\n}\n\n"), "生成的 C：\n{}", c);
    assert!(c.contains("\n    return (int)(t_x);\n    return 0;\n}\n\n"), "生成的 C：\n{}", c);
}

#[test]
fn checked_programs_are_generable() {
    let src = "# main.t\n/a=20\n`a/2\n//cnt=1\nw/cnt<=3{\n    cnt=cnt+1\n    `cnt/a\n}\nf/add(x,y){\n    /res=x+y\n    `res\n}\nadd(10,90)\n";
    let prog = parse(lex_spanned(src).unwrap()).unwrap();
    check(&prog).unwrap();
    assert!(gen_ready(&prog));
    assert_eq!(try_generate(&prog), Some(generate(&prog)));
}

#[test]
fn unprintable_value_is_not_generable() {
    // 未经类型检查：打印动态数组不在生成规则覆盖的形态里
    let prog = parse(lex_spanned("//a=[]i64{1}\n`a\n").unwrap()).unwrap();
    assert!(check(&prog).is_err());
    assert!(!gen_ready(&prog));
    assert_eq!(try_generate(&prog), None);
}

#[test]
fn len_of_array_literal_generates() {
    let prog = parse(lex_spanned("`len(i64[3]{1, 2, 3})\n").unwrap()).unwrap();
    check(&prog).unwrap();
    assert!(gen_ready(&prog));
    let c = try_generate(&prog).unwrap();
    assert!(c.contains("(long long)3"), "生成的 C：\n{}", c);
}

#[test]
fn checked_map_literal_argument_is_not_generable() {
    // 检查器接受把 map 字面量直接传给接管所有权的 map 形参，但生成规则只在声明与赋值右侧生成 map 字面量
    let src = "f/n(m:map[str]i64):i64{\nr/len(m)\n}\n`n(map[str]i64{\"a\": 1})\n";
    let prog = parse(lex_spanned(src).unwrap()).unwrap();
    assert!(check(&prog).is_ok());
    assert!(!gen_ready(&prog));
    assert_eq!(try_generate(&prog), None);
}
