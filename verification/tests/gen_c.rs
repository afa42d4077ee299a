use tian::ast::{ArrDef, BinOp, DArrDef, Expr, FieldDef, MapDef, StructDef, TupleDef, Ty};
use tian::gen_c::{
    arr_of, binds_dup, c_ty, cname, emit_bind, emit_expr, emit_move_nulls, free_fn, free_slot, has_move_nulls,
    indent, map_key_wire, map_val_wire, map_wire, new_fn,
};
use tian::type_check::{consumes_var, ty_of, FuncSig, FuncTable, Scope, TypeTables, VarInfo};

fn point() -> StructDef {
    StructDef {
        name: "点".to_string(),
        fields: vec![FieldDef { name: "x".to_string(), ty: Ty::I64, line: 1 }],
        line: 1,
        imported: false,
    }
}

fn tables() -> TypeTables {
    let mut t = TypeTables::new();
    t.set_arrs(&[ArrDef { elem: Ty::F64, len: 3 }]);
    t.set_darrs(&[DArrDef { elem: Ty::Str }, DArrDef { elem: Ty::I64 }]);
    t.set_maps(&[MapDef { key: Ty::Str, val: Ty::F64 }, MapDef { key: Ty::I64, val: Ty::Str }]);
    t
}

#[test]
fn chinese_ident_mangling() {
    assert_eq!(cname("天"), "t_x5929");
    assert_eq!(cname("a_b9"), "t_a_b9");
    assert_eq!(cname("x天y"), "t_xx5929y");
    assert_eq!(cname(""), "t_");
}

#[test]
fn indent_levels() {
    let mut out: Vec<char> = Vec::new();
    indent(&mut out, 2);
    assert_eq!(out.iter().collect::<String>(), "        ");
}

#[test]
fn map_wires() {
    assert_eq!(map_key_wire(Ty::Str), "s");
    assert_eq!(map_key_wire(Ty::I64), "i");
    assert_eq!(map_val_wire(Ty::F64), "f");
    assert_eq!(map_val_wire(Ty::Bool), "i");
    assert_eq!(map_wire(&MapDef { key: Ty::Str, val: Ty::Str }), "ss");
    assert_eq!(map_wire(&MapDef { key: Ty::I64, val: Ty::F64 }), "if");
}

#[test]
fn struct_helper_names() {
    assert_eq!(free_fn(&point()), "__t_free_t_x70b9");
    assert_eq!(new_fn(&point()), "__t_new_t_x70b9");
}

#[test]
fn c_type_names() {
    let ss = vec![point()];
    let tb = tables();
    assert_eq!(c_ty(Ty::Struct(0), &ss, &tb), "t_x70b9*");
    assert_eq!(c_ty(Ty::Arr(0), &ss, &tb), "const double *");
    assert_eq!(c_ty(Ty::DArr(1), &ss, &tb), "void*");
    assert_eq!(c_ty(Ty::I32, &ss, &tb), "int");
    assert_eq!(c_ty(Ty::Str, &ss, &tb), "const char*");
    assert_eq!(arr_of(Ty::Arr(0), &tb), (Ty::F64, 3));
}

#[test]
fn free_slot_statements() {
    let ss = vec![point()];
    let tb = tables();
    assert_eq!(free_slot("t_p", Ty::Struct(0), &ss, &tb), "__t_free_t_x70b9(t_p);");
    assert_eq!(free_slot("t_a", Ty::DArr(0), &ss, &tb), "__t_dfree_s(t_a);");
    assert_eq!(free_slot("t_a", Ty::DArr(1), &ss, &tb), "__t_free(t_a);");
    assert_eq!(free_slot("t_m", Ty::MapOf(0), &ss, &tb), "__t_mfree_sf(t_m);");
    assert_eq!(free_slot("t_s", Ty::Str, &ss, &tb), "__t_free(t_s);");
}

#[test]
fn dup_on_bind() {
    assert!(binds_dup(&Expr::Str("a".to_string())));
    assert!(binds_dup(&Expr::Convert { name: "tos".to_string(), arg: Box::new(Expr::Int(1)) }));
    assert!(!binds_dup(&Expr::Convert { name: "copy".to_string(), arg: Box::new(Expr::Var("s".to_string())) }));
    assert!(!binds_dup(&Expr::Var("s".to_string())));
}

fn sigs() -> FuncTable {
    let mut f = FuncTable::new();
    f.insert("g".to_string(), FuncSig { params: vec![Ty::Str, Ty::I64], borrows: vec![false, false], ret: Ty::I64 });
    f.insert("h".to_string(), FuncSig { params: vec![Ty::DArr(1)], borrows: vec![true], ret: Ty::I64 });
    f
}

#[test]
fn move_nulls_for_owned_args() {
    let mut sc = Scope::new();
    sc.insert("s".to_string(), VarInfo::new(Ty::Str, true));
    sc.insert("n".to_string(), VarInfo::new(Ty::I64, true));
    sc.insert("a".to_string(), VarInfo::new(Ty::DArr(1), true));
    let f = sigs();
    let call = Expr::Call {
        name: "g".to_string(),
        args: vec![Expr::Var("s".to_string()), Expr::Var("n".to_string())],
    };
    assert!(has_move_nulls(&call, false, &f));
    let mut out: Vec<char> = Vec::new();
    emit_move_nulls(&call, false, &sc, &f, &mut out, 1);
    assert_eq!(out.iter().collect::<String>(), "    t_s = NULL;\n");
    // 借用形参不置空源
    let borrow_call = Expr::Call { name: "h".to_string(), args: vec![Expr::Var("a".to_string())] };
    assert!(!has_move_nulls(&borrow_call, false, &f));
    let mut out2: Vec<char> = Vec::new();
    emit_move_nulls(&borrow_call, false, &sc, &f, &mut out2, 1);
    assert!(out2.is_empty());
    // 拼接只借用
    let cat = Expr::Bin {
        op: tian::ast::BinOp::Add,
        lhs: Box::new(Expr::Var("s".to_string())),
        rhs: Box::new(Expr::Str("!".to_string())),
    };
    assert!(!has_move_nulls(&cat, true, &f));
    // 顶层变量在移动位
    let mut out3: Vec<char> = Vec::new();
    emit_move_nulls(&Expr::Var("s".to_string()), true, &sc, &f, &mut out3, 0);
    assert_eq!(out3.iter().collect::<String>(), "t_s = NULL;\n");
}

fn var(n: &str) -> Box<Expr> {
    Box::new(Expr::Var(n.to_string()))
}

fn expr_env() -> (Scope, FuncTable, Vec<StructDef>, TypeTables) {
    let mut sc = Scope::new();
    sc.insert("s".to_string(), VarInfo::new(Ty::Str, true));
    sc.insert("n".to_string(), VarInfo::new(Ty::I64, true));
    sc.insert("k".to_string(), VarInfo::new(Ty::I32, true));
    sc.insert("a".to_string(), VarInfo::new(Ty::DArr(1), true));
    sc.insert("m".to_string(), VarInfo::new(Ty::MapOf(0), true));
    sc.insert("fa".to_string(), VarInfo::new(Ty::Arr(0), true));
    sc.insert("p".to_string(), VarInfo::new(Ty::Struct(0), true));
    let mut tb = tables();
    tb.set_tuples(&[TupleDef { elems: vec![Ty::I64, Ty::Str] }]);
    (sc, sigs(), vec![point()], tb)
}

fn render(e: &Expr) -> String {
    let (sc, f, ss, tb) = expr_env();
    let mut out: Vec<char> = Vec::new();
    emit_expr(e, &sc, &f, &ss, &tb, &mut out);
    out.iter().collect()
}

fn bin(op: BinOp, l: Expr, r: Expr) -> Expr {
    Expr::Bin { op, lhs: Box::new(l), rhs: Box::new(r) }
}

#[test]
fn expr_literals_and_vars() {
    assert_eq!(render(&Expr::Int(42)), "42");
    assert_eq!(render(&Expr::Int(-3)), "-3");
    assert_eq!(render(&Expr::Float("2.5".to_string())), "2.5");
    assert_eq!(render(&Expr::Bool(true)), "1");
    assert_eq!(render(&Expr::Str("a\"b".to_string())), "\"a\\\"b\"");
    assert_eq!(render(&Expr::Var("天".to_string())), "t_x5929");
}

#[test]
fn expr_binary_forms() {
    let n = || Expr::Var("n".to_string());
    let k = || Expr::Var("k".to_string());
    let s = || Expr::Var("s".to_string());
    assert_eq!(render(&bin(BinOp::Div, n(), Expr::Int(2))), "__t_idiv_l(t_n, 2)");
    assert_eq!(render(&bin(BinOp::Div, k(), k())), "__t_idiv_i(t_k, t_k)");
    assert_eq!(render(&bin(BinOp::Add, s(), Expr::Str("!".to_string()))), "__t_cat(t_s, \"!\")");
    assert_eq!(render(&bin(BinOp::Eq, s(), Expr::Str("x".to_string()))), "__t_seq(t_s, \"x\")");
    assert_eq!(render(&bin(BinOp::Ne, s(), s())), "__t_sne(t_s, t_s)");
    assert_eq!(render(&bin(BinOp::Add, n(), Expr::Int(1))), "(t_n + 1)");
    assert_eq!(render(&bin(BinOp::Le, n(), Expr::Int(1))), "(t_n <= 1)");
    assert_eq!(render(&Expr::Neg(var("n"))), "(-t_n)");
}

#[test]
fn expr_containers() {
    assert_eq!(render(&Expr::Index(var("a"), Box::new(Expr::Int(1)))), "__t_dget_i(t_a, 1)");
    assert_eq!(render(&Expr::Index(var("m"), Box::new(Expr::Str("k".to_string())))), "__t_mget_sf(t_m, \"k\")");
    assert_eq!(render(&Expr::Index(var("fa"), Box::new(Expr::Int(0)))), "t_fa[__t_idx(3, (long long)(0))]");
    assert_eq!(render(&Expr::Index(var("s"), var("n"))), "__t_sget(t_s, t_n)");
    assert_eq!(render(&Expr::Len(var("s"))), "(long long)strlen(t_s)");
    assert_eq!(render(&Expr::Len(var("a"))), "__t_dlen(t_a)");
    assert_eq!(render(&Expr::Len(var("m"))), "__t_mlen(t_m)");
    assert_eq!(render(&Expr::Len(var("fa"))), "(long long)3");
    assert_eq!(
        render(&Expr::Has { map: var("m"), key: Box::new(Expr::Str("k".to_string())) }),
        "__t_mhas_s(t_m, \"k\")"
    );
    assert_eq!(render(&Expr::Keys(var("m"))), "__t_mkeys_s(t_m)");
    assert_eq!(render(&Expr::Values(var("m"))), "__t_mvalues_f(t_m)");
}

#[test]
fn expr_conversions() {
    let conv = |name: &str, arg: Expr| Expr::Convert { name: name.to_string(), arg: Box::new(arg) };
    assert_eq!(render(&conv("toi", Expr::Str("42".to_string()))), "(42LL)");
    assert_eq!(render(&conv("toi", Expr::Var("k".to_string()))), "((long long)t_k)");
    assert_eq!(render(&conv("tos", Expr::Var("n".to_string()))), "__t_tos_ll((long long)t_n)");
    assert_eq!(render(&conv("tos", Expr::Float("1.5".to_string()))), "__t_tos_f(1.5)");
    assert_eq!(render(&conv("tos", Expr::Bool(false))), "__t_tos_b((int)0)");
    assert_eq!(render(&conv("tos", Expr::Var("s".to_string()))), "t_s");
    assert_eq!(render(&conv("copy", Expr::Var("s".to_string()))), "__t_dup(t_s)");
    assert_eq!(render(&conv("tof", Expr::Var("s".to_string()))), "__t_tof(t_s)");
}

#[test]
fn expr_calls_and_composites() {
    let call = Expr::Call { name: "g".to_string(), args: vec![Expr::Var("s".to_string()), Expr::Int(7)] };
    assert_eq!(render(&call), "t_g(t_s, 7)");
    let sel = Expr::Sel { cond: Box::new(Expr::Bool(true)), a: var("n"), b: Box::new(Expr::Int(2)) };
    assert_eq!(render(&sel), "((1) ? (t_n) : (2))");
    let sub = Expr::Sub { s: var("s"), start: Box::new(Expr::Int(0)), n: Box::new(Expr::Int(2)) };
    assert_eq!(render(&sub), "__t_sub(t_s, (long long)(0), (long long)(2))");
    assert_eq!(render(&Expr::Field(var("p"), "x".to_string())), "t_p->t_x");
    assert_eq!(render(&Expr::Borrow(var("s"))), "t_s");
    let lit = Expr::StructLit { name: "点".to_string(), fields: vec![(Some("x".to_string()), Expr::Int(5))], line: 1 };
    assert_eq!(render(&lit), "__t_new_t_x70b9(5)");
    let tup = Expr::TupExpr { elems: vec![Expr::Int(1), Expr::Str("a".to_string())], tup: 0 };
    assert_eq!(
        render(&tup),
        "({ void* __t_h = __t_malloc(16); ((long long*)__t_h)[0] = (long long)(1); ((long long*)__t_h)[1] = (long long)(__t_dup(\"a\")); return __t_h; })"
    );
}

#[test]
fn bind_duplicates_literals() {
    let (sc, f, ss, tb) = expr_env();
    let mut out: Vec<char> = Vec::new();
    emit_bind(&Expr::Str("a".to_string()), &sc, &f, &ss, &tb, &mut out);
    assert_eq!(out.iter().collect::<String>(), "__t_dup(\"a\")");
    let mut out2: Vec<char> = Vec::new();
    emit_bind(&Expr::Var("s".to_string()), &sc, &f, &ss, &tb, &mut out2);
    assert_eq!(out2.iter().collect::<String>(), "t_s");
}

#[test]
fn no_nulls_when_not_flagged() {
    let mut sc = Scope::new();
    sc.insert("s".to_string(), VarInfo::new(Ty::Str, true));
    let f = sigs();
    let cat = Expr::Bin {
        op: tian::ast::BinOp::Add,
        lhs: Box::new(Expr::Var("s".to_string())),
        rhs: Box::new(Expr::Str("!".to_string())),
    };
    assert!(!has_move_nulls(&cat, true, &f));
    let mut out: Vec<char> = Vec::new();
    emit_move_nulls(&cat, true, &sc, &f, &mut out, 1);
    assert!(out.is_empty());
}

#[test]
fn consumes_only_through_owning_params() {
    let mut f = FuncTable::new();
    f.insert("echo".to_string(), FuncSig { params: vec![Ty::Str], borrows: vec![false], ret: Ty::Str });
    f.insert("f".to_string(), FuncSig { params: vec![Ty::DArr(0)], borrows: vec![true], ret: Ty::DArr(0) });
    let echo = Expr::Call { name: "echo".to_string(), args: vec![Expr::Var("s".to_string())] };
    assert!(consumes_var(&echo, "s", true, &f));
    let cat = Expr::Bin {
        op: BinOp::Add,
        lhs: Box::new(Expr::Var("s".to_string())),
        rhs: Box::new(Expr::Str("!".to_string())),
    };
    assert!(!consumes_var(&cat, "s", true, &f));
    let borrowed = Expr::Call { name: "f".to_string(), args: vec![Expr::Var("h".to_string())] };
    assert!(!consumes_var(&borrowed, "h", true, &f));
}

#[test]
fn ty_of_matches_checked_call() {
    // 检查接受的调用 g(s, 1 + 2)：纯推导给出返回类型
    let mut sc = Scope::new();
    sc.insert("s".to_string(), VarInfo::new(Ty::Str, true));
    let f = sigs();
    let call = Expr::Call {
        name: "g".to_string(),
        args: vec![
            Expr::Var("s".to_string()),
            Expr::Bin { op: BinOp::Add, lhs: Box::new(Expr::Int(1)), rhs: Box::new(Expr::Int(2)) },
        ],
    };
    let tables = TypeTables::new();
    assert_eq!(ty_of(&call, &sc, &f, &[], &tables).unwrap(), Ty::I64);
    let bad = Expr::Call { name: "g".to_string(), args: vec![Expr::Int(1), Expr::Int(2)] };
    assert!(ty_of(&bad, &sc, &f, &[], &tables).is_err());
}
