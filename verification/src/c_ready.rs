//! C 后端的可生成性判定：按生成规则逐项检查表达式、语句与整个程序，
//! 让调用方在生成前得知程序是否落在生成规则覆盖的形态里。

use vstd::prelude::*;
use crate::ast::{Expr, SExpr, Stmt, SStmt, StructDef, Ty, exprs_view, field_inits_view, entries_view, stmts_view};
use crate::type_check::{FuncTable, Scope, TypeTables, field_pos, struct_by_name, lemma_struct_pos, struct_pos, ty_of, is_i64_literal, tuples_view};
use crate::checker::field_index;
use crate::gen_c::{GEnv, genv, gty, gty_of, emit_safe, ty_in_tables};
use crate::c_program::{
    decl_safe, decl_ty, decl_var, multi_safe, multi_tys, multi_scope, assign_safe, lhs_safe, assign_lhs, is_mset, is_dset,
    index_target_kind, return_safe, tuple_parts, with_ret, printable, stmt_safe, block_safe, stmt_env, block_env,
    post_view, var_ty_or_i64, var_ty_of, emit_lhs, stmt_depth, block_depth, lemma_block_safe_prefix,
};
use crate::type_check::{VarInfo, TyScope, collect_str_decls, strings_view, spec_collect};
use crate::ast::{Program, FnDef, Contract, SContract, contracts_view};
use crate::checker::prog_tb;
use crate::c_program::{fields_in_tables, params_in_tables, param_ty};
use crate::c_output::{
    gen_safe, fn_sig_ok, slots_ok, slot_ty_of, example_safe, examples_safe, pres_safe, fn_def_safe, main_safe, main_env,
    main_slots, fn_env, fn_slots, first_post, post_expr, fn_ret_ty, owned_params, gen_funcs, gen_func_table,
    param_scopes, find_post, lemma_gen_funcs_has, spec_generate, generate,
};

verus! {

broadcast use vstd::std_specs::vec::axiom_vec_decreases_to_view;

/// 表达式可以生成（与 emit_safe 一致）
pub fn expr_ready(e: &Expr, scope: &Scope, sigs: &FuncTable, structs: &[StructDef], tables: &TypeTables) -> (r: bool)
    ensures
        r == emit_safe(e@, genv(*scope, *sigs, structs@, tables@)),
    decreases e, 1int,
{
    match e {
        Expr::Index(..) => index_ready(e, scope, sigs, structs, tables),
        Expr::Len(..) => len_ready(e, scope, sigs, structs, tables),
        Expr::Has { .. } | Expr::Keys(..) | Expr::Values(..) => map_query_ready(e, scope, sigs, structs, tables),
        Expr::TupExpr { .. } => tup_ready(e, scope, sigs, structs, tables),
        Expr::StructLit { .. } => lit_ready(e, scope, sigs, structs, tables),
        Expr::Convert { .. } => convert_ready(e, scope, sigs, structs, tables),
        Expr::Field(b, _) => {
            let bt = gty_of(b, scope, sigs, structs, tables);
            let ok_t = match bt {
                Ty::Struct(i) => (i as usize) < structs.len(),
                _ => true,
            };
            expr_ready(b, scope, sigs, structs, tables) && ok_t
        },
        Expr::Sub { s, start, n } => expr_ready(s, scope, sigs, structs, tables) && expr_ready(
            start,
            scope,
            sigs,
            structs,
            tables,
        ) && expr_ready(n, scope, sigs, structs, tables),
        Expr::Sel { cond, a, b } => expr_ready(cond, scope, sigs, structs, tables) && expr_ready(
            a,
            scope,
            sigs,
            structs,
            tables,
        ) && expr_ready(b, scope, sigs, structs, tables),
        Expr::Borrow(x) => expr_ready(x, scope, sigs, structs, tables),
        Expr::Neg(x) => expr_ready(x, scope, sigs, structs, tables),
        Expr::Bin { lhs, rhs, .. } => expr_ready(lhs, scope, sigs, structs, tables) && expr_ready(
            rhs,
            scope,
            sigs,
            structs,
            tables,
        ),
        Expr::Call { name, args } => {
            let r = all_ready(args, scope, sigs, structs, tables);
            proof {
                assert(e@ == SExpr::Call { name: name@, args: exprs_view(args@) });
                lemma_call_safe(name@, exprs_view(args@), genv(*scope, *sigs, structs@, tables@));
            }
            r
        },
        Expr::ArrLit { .. } | Expr::DArrLit { .. } | Expr::MapLit { .. } | Expr::Push { .. } | Expr::Pop { .. }
        | Expr::Del { .. } => false,
        _ => true,
    }
}

#[verifier::spinoff_prover]
fn index_ready(e: &Expr, scope: &Scope, sigs: &FuncTable, structs: &[StructDef], tables: &TypeTables) -> (r: bool)
    requires
        e is Index,
    ensures
        r == emit_safe(e@, genv(*scope, *sigs, structs@, tables@)),
    decreases e, 0int,
{
    match e {
        Expr::Index(b, ix) => {
            let bt = gty_of(b, scope, sigs, structs, tables);
            let is_var = match &**b {
                Expr::Var(_) => true,
                _ => false,
            };
            let ok_t = match bt {
                Ty::MapOf(i) => (i as usize) < tables.maps.len(),
                Ty::DArr(i) => (i as usize) < tables.darrs.len(),
                Ty::Str => true,
                Ty::Arr(i) => (i as usize) < tables.arrs.len(),
                _ => false,
            };
            is_var && expr_ready(ix, scope, sigs, structs, tables) && ok_t
        },
        _ => false,
    }
}

#[verifier::spinoff_prover]
fn len_ready(e: &Expr, scope: &Scope, sigs: &FuncTable, structs: &[StructDef], tables: &TypeTables) -> (r: bool)
    requires
        e is Len,
    ensures
        r == emit_safe(e@, genv(*scope, *sigs, structs@, tables@)),
    decreases e, 0int,
{
    match e {
        Expr::Len(x) => {
            let bt = gty_of(x, scope, sigs, structs, tables);
            let is_var = match &**x {
                Expr::Var(_) => true,
                _ => false,
            };
            match bt {
                Ty::Str => expr_ready(x, scope, sigs, structs, tables),
                Ty::DArr(_) | Ty::MapOf(_) => is_var,
                Ty::Arr(i) => (i as usize) < tables.arrs.len(),
                _ => false,
            }
        },
        _ => false,
    }
}

#[verifier::spinoff_prover]
fn map_query_ready(e: &Expr, scope: &Scope, sigs: &FuncTable, structs: &[StructDef], tables: &TypeTables) -> (r: bool)
    requires
        e is Has || e is Keys || e is Values,
    ensures
        r == emit_safe(e@, genv(*scope, *sigs, structs@, tables@)),
    decreases e, 0int,
{
    let (m, key): (&Expr, Option<&Expr>) = match e {
        Expr::Has { map, key } => (&**map, Some(&**key)),
        Expr::Keys(m) => (&**m, None),
        Expr::Values(m) => (&**m, None),
        _ => (e, None),
    };
    let bt = gty_of(m, scope, sigs, structs, tables);
    let is_var = match m {
        Expr::Var(_) => true,
        _ => false,
    };
    let ok_t = match bt {
        Ty::MapOf(i) => (i as usize) < tables.maps.len(),
        _ => false,
    };
    match key {
        Some(k) => is_var && ok_t && expr_ready(k, scope, sigs, structs, tables),
        None => is_var && ok_t,
    }
}

#[verifier::spinoff_prover]
fn tup_ready(e: &Expr, scope: &Scope, sigs: &FuncTable, structs: &[StructDef], tables: &TypeTables) -> (r: bool)
    requires
        e is TupExpr,
    ensures
        r == emit_safe(e@, genv(*scope, *sigs, structs@, tables@)),
    decreases e, 0int,
{
    match e {
        Expr::TupExpr { elems, tup } => {
            assert(e@ == SExpr::TupExpr { elems: exprs_view(elems@), tup: *tup });
            if (*tup as usize) < tables.tuples.len() {
                assert(tables@.tuples == tuples_view(tables.tuples@));
                let n = tables.tuples[*tup as usize].elems.len();
                elems.len() <= n && n <= usize::MAX / 8 && all_ready(elems, scope, sigs, structs, tables)
            } else {
                false
            }
        },
        _ => false,
    }
}

#[verifier::spinoff_prover]
fn lit_ready(e: &Expr, scope: &Scope, sigs: &FuncTable, structs: &[StructDef], tables: &TypeTables) -> (r: bool)
    requires
        e is StructLit,
    ensures
        r == emit_safe(e@, genv(*scope, *sigs, structs@, tables@)),
    decreases e, 0int,
{
    match e {
        Expr::StructLit { name, fields, .. } => {
            match struct_by_name(structs, name.as_str()) {
                Some((_, sd)) => {
                    proof {
                        let k = choose|k: int|
                            0 <= k < structs@.len() && #[trigger] structs@[k].name@ == name@ && sd == &structs@[k]
                                && forall|j: int| 0 <= j < k ==> structs@[j].name@ != name@;
                        lemma_struct_pos(structs@, name@, k, 0);
                    }
                    let r = fields_ready(fields, sd, scope, sigs, structs, tables);
                    proof {
                        let g = genv(*scope, *sigs, structs@, tables@);
                        let fv = field_inits_view(fields@);
                        assert(e@ == SExpr::StructLit { name: name@, fields: fv, line: e@->StructLit_line });
                        if r {
                            assert forall|i: int| 0 <= i < fv.len() implies emit_safe(#[trigger] fv[i].1, g) && match fv[i].0 {
                                Some(n) => field_pos(g.structs[struct_pos(g.structs, name@, 0)].fields@, n, 0)
                                    < g.structs[struct_pos(g.structs, name@, 0)].fields@.len(),
                                None => i < g.structs[struct_pos(g.structs, name@, 0)].fields@.len(),
                            } by {
                                assert(init_ok(fv[i], sd.fields@, i, g));
                            }
                        } else {
                            let j = choose|j: int| 0 <= j < fv.len() && !#[trigger] init_ok(fv[j], sd.fields@, j, g);
                            assert(!init_ok(fv[j], sd.fields@, j, g));
                        }
                    }
                    r
                },
                None => {
                    proof {
                        lemma_struct_pos(structs@, name@, structs@.len() as int, 0);
                    }
                    false
                },
            }
        },
        _ => false,
    }
}

#[verifier::spinoff_prover]
fn convert_ready(e: &Expr, scope: &Scope, sigs: &FuncTable, structs: &[StructDef], tables: &TypeTables) -> (r: bool)
    requires
        e is Convert,
    ensures
        r == emit_safe(e@, genv(*scope, *sigs, structs@, tables@)),
    decreases e, 0int,
{
    proof {
        reveal_strlit("copy");
        reveal_strlit("toi");
    }
    match e {
        Expr::Convert { name, arg } => {
            let is_copy = crate::text::str_eq(name.as_str(), "copy");
            let typed = is_copy || ty_of(&**arg, scope, sigs, structs, tables).is_ok();
            let lit_ok = if crate::text::str_eq(name.as_str(), "toi") {
                match &**arg {
                    Expr::Str(s) => is_i64_literal(s.as_str()),
                    _ => true,
                }
            } else {
                true
            };
            expr_ready(arg, scope, sigs, structs, tables) && typed && lit_ok
        },
        _ => false,
    }
}

/// 调用可生成当且仅当各实参可生成
proof fn lemma_call_safe(name: Seq<char>, args: Seq<SExpr>, g: GEnv)
    ensures
        emit_safe(SExpr::Call { name, args }, g) == forall|i: int| 0 <= i < args.len() ==> emit_safe(#[trigger] args[i], g),
{
    let e = SExpr::Call { name, args };
    assert(e is Call);
    assert(!(e is Convert));
    assert(e->Call_args == args);
    if forall|i: int| 0 <= i < args.len() ==> emit_safe(#[trigger] args[i], g) {
        assert forall|i: int| 0 <= i < e->Call_args.len() implies emit_safe(#[trigger] e->Call_args[i], g) by {
            assert(e->Call_args[i] == args[i]);
        }
    } else {
        let j = choose|j: int| 0 <= j < args.len() && !emit_safe(#[trigger] args[j], g);
        assert(e->Call_args[j] == args[j]);
    }
}

/// 每个表达式都可以生成
pub fn all_ready(es: &Vec<Expr>, scope: &Scope, sigs: &FuncTable, structs: &[StructDef], tables: &TypeTables) -> (r: bool)
    ensures
        r == forall|i: int| 0 <= i < es@.len() ==> emit_safe(#[trigger] exprs_view(es@)[i], genv(*scope, *sigs, structs@, tables@)),
    decreases es, 0int,
{
    let ghost g = genv(*scope, *sigs, structs@, tables@);
    let ghost v = exprs_view(es@);
    let mut i: usize = 0;
    while i < es.len()
        invariant
            i <= es@.len(),
            v == exprs_view(es@),
            g == genv(*scope, *sigs, structs@, tables@),
            forall|k: int| 0 <= k < i ==> emit_safe(#[trigger] v[k], g),
        decreases es@.len() - i,
    {
        assert(v[i as int] == es@[i as int]@);
        if !expr_ready(&es[i], scope, sigs, structs, tables) {
            return false;
        }
        i = i + 1;
    }
    true
}

/// 结构体字面量的第 k 个字段初值可以生成，且字段名存在 / 位置式不越界
pub open spec fn init_ok(x: (Option<Seq<char>>, SExpr), fs: Seq<crate::ast::FieldDef>, k: int, g: GEnv) -> bool {
    emit_safe(x.1, g) && match x.0 {
        Some(n) => field_pos(fs, n, 0) < fs.len(),
        None => k < fs.len(),
    }
}

/// 结构体字面量的各字段值可以生成，且字段名存在 / 位置式不越界
fn fields_ready(
    fs: &Vec<(Option<String>, Expr)>,
    sd: &StructDef,
    scope: &Scope,
    sigs: &FuncTable,
    structs: &[StructDef],
    tables: &TypeTables,
) -> (r: bool)
    ensures
        r == forall|i: int|
            0 <= i < fs@.len() ==> #[trigger] init_ok(field_inits_view(fs@)[i], sd.fields@, i, genv(*scope, *sigs, structs@, tables@)),
    decreases fs, 0int,
{
    let ghost g = genv(*scope, *sigs, structs@, tables@);
    let ghost v = field_inits_view(fs@);
    let mut i: usize = 0;
    while i < fs.len()
        invariant
            i <= fs@.len(),
            v == field_inits_view(fs@),
            g == genv(*scope, *sigs, structs@, tables@),
            forall|k: int| 0 <= k < i ==> #[trigger] init_ok(v[k], sd.fields@, k, g),
        decreases fs@.len() - i,
    {
        assert(v[i as int].1 == fs@[i as int].1@);
        assert(v[i as int].0 == crate::ast::opt_str_view(fs@[i as int].0));
        let ok = expr_ready(&fs[i].1, scope, sigs, structs, tables) && match &fs[i].0 {
            Some(n) => field_index(sd, n.as_str()) < sd.fields.len(),
            None => i < sd.fields.len(),
        };
        if !ok {
            assert(!init_ok(v[i as int], sd.fields@, i as int, g));
            return false;
        }
        assert(init_ok(v[i as int], sd.fields@, i as int, g));
        i = i + 1;
    }
    true
}

/// 类型序号在类型表内
pub fn ty_ok(t: Ty, structs: &[StructDef], tables: &TypeTables) -> (r: bool)
    ensures
        r == ty_in_tables(t, structs@, tables@),
{
    match t {
        Ty::Struct(i) => (i as usize) < structs.len(),
        Ty::Arr(i) => (i as usize) < tables.arrs.len(),
        Ty::DArr(i) => (i as usize) < tables.darrs.len(),
        Ty::MapOf(i) => (i as usize) < tables.maps.len(),
        Ty::Tuple(i) => (i as usize) < tables.tuples.len(),
        _ => true,
    }
}

/// map 字面量的每个键、值都可以生成
fn entries_ready(es: &Vec<(Expr, Expr)>, scope: &Scope, sigs: &FuncTable, structs: &[StructDef], tables: &TypeTables) -> (r: bool)
    ensures
        r == forall|k: int|
            0 <= k < es@.len() ==> emit_safe(#[trigger] entries_view(es@)[k].0, genv(*scope, *sigs, structs@, tables@))
                && emit_safe(entries_view(es@)[k].1, genv(*scope, *sigs, structs@, tables@)),
{
    let ghost g = genv(*scope, *sigs, structs@, tables@);
    let ghost v = entries_view(es@);
    let mut i: usize = 0;
    while i < es.len()
        invariant
            i <= es@.len(),
            v == entries_view(es@),
            g == genv(*scope, *sigs, structs@, tables@),
            forall|k: int| 0 <= k < i ==> emit_safe(#[trigger] v[k].0, g) && emit_safe(v[k].1, g),
        decreases es@.len() - i,
    {
        assert(v[i as int] == (es@[i as int].0@, es@[i as int].1@));
        let a = expr_ready(&es[i].0, scope, sigs, structs, tables);
        let b = expr_ready(&es[i].1, scope, sigs, structs, tables);
        assert(es@[i as int].0@ == v[i as int].0);
        assert(es@[i as int].1@ == v[i as int].1);
        if !(a && b) {
            assert(!(emit_safe(v[i as int].0, g) && emit_safe(v[i as int].1, g)));
            return false;
        }
        assert(emit_safe(v[i as int].0, g) && emit_safe(v[i as int].1, g));
        assert forall|k: int| 0 <= k < i + 1 implies emit_safe(#[trigger] v[k].0, g) && emit_safe(v[k].1, g) by {
            if k == i {
                assert(emit_safe(v[i as int].0, g));
            }
        }
        i = i + 1;
    }
    true
}

/// 按已知类型判定声明 / 整体赋值的右侧（与 decl_safe 一致）
#[verifier::spinoff_prover]
fn value_ready(t: Ty, value: &Expr, scope: &Scope, sigs: &FuncTable, structs: &[StructDef], tables: &TypeTables) -> (r: bool)
    ensures
        r == decl_safe(t, value@, genv(*scope, *sigs, structs@, tables@)),
{
    let ghost g = genv(*scope, *sigs, structs@, tables@);
    match t {
        Ty::Arr(i) => {
            if (i as usize) >= tables.arrs.len() {
                return false;
            }
            match value {
                Expr::ArrLit { elems, .. } => {
                    assert(value@->ArrLit_elems == exprs_view(elems@));
                    all_ready(elems, scope, sigs, structs, tables)
                },
                Expr::Var(_) => true,
                _ => false,
            }
        },
        Ty::DArr(i) => {
            if (i as usize) >= tables.darrs.len() {
                return false;
            }
            match value {
                Expr::DArrLit { elems, .. } => {
                    assert(value@->DArrLit_elems == exprs_view(elems@));
                    all_ready(elems, scope, sigs, structs, tables)
                },
                _ => expr_ready(value, scope, sigs, structs, tables),
            }
        },
        Ty::MapOf(i) => {
            if (i as usize) >= tables.maps.len() {
                return false;
            }
            match value {
                Expr::MapLit { entries, .. } => {
                    assert(value@->MapLit_entries == entries_view(entries@));
                    entries_ready(entries, scope, sigs, structs, tables)
                },
                _ => expr_ready(value, scope, sigs, structs, tables),
            }
        },
        _ => expr_ready(value, scope, sigs, structs, tables) && ty_ok(t, structs, tables),
    }
}

/// 赋值左侧可以生成（与 lhs_safe 一致）
fn lhs_ready(target: &Expr, scope: &Scope, sigs: &FuncTable, structs: &[StructDef], tables: &TypeTables) -> (r: bool)
    ensures
        r == lhs_safe(target@, genv(*scope, *sigs, structs@, tables@)),
{
    match target {
        Expr::Var(_) => true,
        Expr::Field(b, _) => match gty_of(b, scope, sigs, structs, tables) {
            Ty::Struct(i) => (i as usize) < structs.len(),
            _ => true,
        },
        Expr::Index(b, ix) => match gty_of(b, scope, sigs, structs, tables) {
            Ty::Arr(i) => (i as usize) < tables.arrs.len() && expr_ready(ix, scope, sigs, structs, tables),
            _ => false,
        },
        _ => false,
    }
}

/// 赋值可以生成（与 assign_safe 一致）
#[verifier::spinoff_prover]
fn assign_ready(target: &Expr, value: &Expr, scope: &Scope, sigs: &FuncTable, structs: &[StructDef], tables: &TypeTables) -> (r: bool)
    ensures
        r == assign_safe(target@, value@, genv(*scope, *sigs, structs@, tables@)),
{
    let ghost g = genv(*scope, *sigs, structs@, tables@);
    if let Expr::Index(b, ix) = target {
        let bt = gty_of(b, scope, sigs, structs, tables);
        let special = match bt {
            Ty::MapOf(i) => (i as usize) < tables.maps.len(),
            Ty::DArr(i) => (i as usize) < tables.darrs.len(),
            _ => false,
        };
        if special {
            assert(is_mset(target@, g) || is_dset(target@, g));
            return expr_ready(ix, scope, sigs, structs, tables) && expr_ready(value, scope, sigs, structs, tables);
        }
        assert(!is_mset(target@, g) && !is_dset(target@, g));
    }
    if !lhs_ready(target, scope, sigs, structs, tables) {
        return false;
    }
    let (_, t) = emit_lhs(target, scope, sigs, structs, tables);
    value_ready(t, value, scope, sigs, structs, tables)
}

fn printable_ty(t: Ty) -> (r: bool)
    ensures
        r == printable(t),
{
    t == Ty::I32 || t == Ty::I64 || t == Ty::F64 || t == Ty::Str || t == Ty::Bool
}

/// 返回语句可以生成（与 return_safe 一致）
#[verifier::spinoff_prover]
#[verifier::rlimit(40)]
fn return_ready(
    e: Option<&Expr>,
    fn_ret: Ty,
    post: Option<&Expr>,
    scope: &Scope,
    sigs: &FuncTable,
    structs: &[StructDef],
    tables: &TypeTables,
) -> (r: bool)
    ensures
        r == return_safe(post_view(e), genv(*scope, *sigs, structs@, tables@), fn_ret, post_view(post)),
{
    let ghost g = genv(*scope, *sigs, structs@, tables@);
    let is_arr = match fn_ret {
        Ty::Arr(_) => true,
        _ => false,
    };
    if fn_ret == Ty::BorrowStr || is_arr || !ty_ok(fn_ret, structs, tables) {
        return false;
    }
    let post_ok = match post {
        Some(p) => {
            let mut ps = scope.duplicate();
            ps.insert("ret".to_string(), VarInfo::new(fn_ret, false));
            proof {
                reveal_strlit("ret");
            }
            assert(genv(ps, *sigs, structs@, tables@) == with_ret(g, fn_ret));
            expr_ready(p, &ps, sigs, structs, tables)
        },
        None => true,
    };
    if !post_ok {
        return false;
    }
    match e {
        Some(x) => match fn_ret {
            Ty::Tuple(tid) => {
                assert(tables@.tuples == tuples_view(tables.tuples@));
                let n = tables.tuples[tid as usize].elems.len();
                if (n as u64) > u64::MAX / 8 {
                    return false;
                }
                match x {
                    Expr::TupExpr { elems, .. } => {
                        assert(tuple_parts(x@) == exprs_view(elems@));
                        elems.len() <= n && all_ready(elems, scope, sigs, structs, tables)
                    },
                    _ => {
                        assert(tuple_parts(x@) == seq![x@]);
                        let ok = 1 <= n && expr_ready(x, scope, sigs, structs, tables);
                        proof {
                            if 1 <= n {
                                assert(tuple_parts(x@)[0] == x@);
                            }
                        }
                        ok
                    },
                }
            },
            _ => expr_ready(x, scope, sigs, structs, tables),
        },
        None => match fn_ret {
            Ty::Tuple(_) => false,
            _ => true,
        },
    }
}

/// 多声明可以生成（与 multi_safe 一致）；可以时名字依次登记进作用域
#[verifier::spinoff_prover]
fn multi_ready(
    names: &Vec<String>,
    value: &Expr,
    mutable: bool,
    scope: &mut Scope,
    sigs: &FuncTable,
    structs: &[StructDef],
    tables: &TypeTables,
) -> (r: bool)
    ensures
        r == multi_safe(crate::ast::strs_view(names@), value@, genv(*old(scope), *sigs, structs@, tables@)),
        r ==> final(scope).view() == multi_scope(
            old(scope).view(),
            crate::ast::strs_view(names@),
            multi_tys(value@, genv(*old(scope), *sigs, structs@, tables@)),
            mutable,
        ),
{
    let ghost g = genv(*scope, *sigs, structs@, tables@);
    let vt = match ty_of(value, scope, sigs, structs, tables) {
        Ok(t) => t,
        Err(_) => Ty::I64,
    };
    let tid: u32 = match vt {
        Ty::Tuple(i) => i,
        _ => {
            return false;
        },
    };
    if (tid as usize) >= tables.tuples.len() {
        return false;
    }
    assert(tables@.tuples == tuples_view(tables.tuples@));
    let tys = &tables.tuples[tid as usize].elems;
    assert(tys@ == multi_tys(value@, g));
    if names.len() > tys.len() || !expr_ready(value, scope, sigs, structs, tables) {
        return false;
    }
    let mut k: usize = 0;
    while k < tys.len()
        invariant
            k <= tys@.len(),
            *scope == *old(scope),
            g == genv(*old(scope), *sigs, structs@, tables@),
            tys@ == multi_tys(value@, g),
            forall|j: int| 0 <= j < k ==> ty_in_tables(#[trigger] tys@[j], structs@, tables@),
        decreases tys@.len() - k,
    {
        if !ty_ok(tys[k], structs, tables) {
            assert(!ty_in_tables(multi_tys(value@, g)[k as int], structs@, tables@));
            return false;
        }
        k = k + 1;
    }
    let ghost sc0 = scope.view();
    let ghost nv = crate::ast::strs_view(names@);
    let mut i: usize = 0;
    while i < names.len()
        invariant
            i <= names@.len(),
            names@.len() <= tys@.len(),
            nv == crate::ast::strs_view(names@),
            scope.view() == multi_scope(sc0, nv.take(i as int), tys@, mutable),
        decreases names@.len() - i,
    {
        scope.insert(names[i].clone(), VarInfo::new(tys[i], mutable));
        proof {
            let w = nv.take(i + 1);
            assert(w.drop_last() =~= nv.take(i as int));
            assert(w.last() == names@[i as int]@);
        }
        i = i + 1;
    }
    assert(nv.take(names@.len() as int) =~= nv);
    true

}

/// 语句可以生成（与 stmt_safe 一致）；可以时作用域随之更新为 stmt_env
pub fn stmt_ready(
    s: &Stmt,
    scope: &mut Scope,
    sigs: &FuncTable,
    structs: &[StructDef],
    tables: &TypeTables,
    fn_ret: Ty,
    post: Option<&Expr>,
) -> (r: bool)
    ensures
        r == stmt_safe(s@, genv(*old(scope), *sigs, structs@, tables@), fn_ret, post_view(post)),
        r ==> genv(*final(scope), *sigs, structs@, tables@) == stmt_env(s@, genv(*old(scope), *sigs, structs@, tables@)),
    decreases s,
{
    let ghost g = genv(*scope, *sigs, structs@, tables@);
    match s {
        Stmt::Decl { mutable, name, ty, value, .. } => {
            let t = match ty {
                Some(t) => *t,
                None => match ty_of(value, scope, sigs, structs, tables) {
                    Ok(t) => t,
                    Err(_) => Ty::I64,
                },
            };
            scope.insert(name.clone(), VarInfo::new(t, *mutable));
            value_ready(t, value, scope, sigs, structs, tables)
        },
        Stmt::MultiDecl { mutable, names, value, .. } => multi_ready(names, value, *mutable, scope, sigs, structs, tables),
        Stmt::Assign { target, value, .. } => assign_ready(target, value, scope, sigs, structs, tables),
        Stmt::Print(e, _) => {
            expr_ready(e, scope, sigs, structs, tables) && printable_ty(gty_of(e, scope, sigs, structs, tables))
        },
        Stmt::While { cond, body, .. } => {
            expr_ready(cond, scope, sigs, structs, tables) && block_ready(body, scope, sigs, structs, tables, fn_ret, post)
        },
        Stmt::If { cond, body, else_body, .. } => {
            if !expr_ready(cond, scope, sigs, structs, tables) {
                return false;
            }
            if !block_ready(body, scope, sigs, structs, tables, fn_ret, post) {
                return false;
            }
            match else_body {
                Some(eb) => block_ready(eb, scope, sigs, structs, tables, fn_ret, post),
                None => true,
            }
        },
        Stmt::Return(e, _) => {
            let ev: Option<&Expr> = match e {
                Some(x) => Some(x),
                None => None,
            };
            assert(post_view(ev) == s@->Return_0);
            return_ready(ev, fn_ret, post, scope, sigs, structs, tables)
        },
        Stmt::Expr(e, _) => match e {
            Expr::Pop { .. } => true,
            Expr::Push { arr, value } => {
                let dt = var_ty_of(arr, scope);
                let ok = match dt {
                    Ty::DArr(i) => (i as usize) < tables.darrs.len(),
                    _ => false,
                };
                ok && expr_ready(value, scope, sigs, structs, tables)
            },
            Expr::Del { map, key } => {
                let bt = gty_of(map, scope, sigs, structs, tables);
                let ok = match bt {
                    Ty::MapOf(i) => (i as usize) < tables.maps.len(),
                    _ => false,
                };
                ok && expr_ready(key, scope, sigs, structs, tables)
            },
            _ => expr_ready(e, scope, sigs, structs, tables),
        },
        Stmt::Break(_) => true,
        Stmt::Continue(_) => true,
        Stmt::Panic(m, _) => expr_ready(m, scope, sigs, structs, tables),
        Stmt::Check(c, m, _) => expr_ready(c, scope, sigs, structs, tables) && expr_ready(m, scope, sigs, structs, tables),
    }
}

/// 语句块可以生成（与 block_safe 一致）；可以时作用域随之更新为 block_env
pub fn block_ready(
    ss: &Vec<Stmt>,
    scope: &mut Scope,
    sigs: &FuncTable,
    structs: &[StructDef],
    tables: &TypeTables,
    fn_ret: Ty,
    post: Option<&Expr>,
) -> (r: bool)
    ensures
        r == block_safe(stmts_view(ss@), genv(*old(scope), *sigs, structs@, tables@), fn_ret, post_view(post)),
        r ==> genv(*final(scope), *sigs, structs@, tables@) == block_env(stmts_view(ss@), genv(*old(scope), *sigs, structs@, tables@)),
    decreases ss,
{
    let ghost g0 = genv(*scope, *sigs, structs@, tables@);
    let ghost v = stmts_view(ss@);
    let mut i: usize = 0;
    while i < ss.len()
        invariant
            i <= ss@.len(),
            v == stmts_view(ss@),
            g0 == genv(*old(scope), *sigs, structs@, tables@),
            block_safe(v.take(i as int), g0, fn_ret, post_view(post)),
            genv(*scope, *sigs, structs@, tables@) == block_env(v.take(i as int), g0),
        decreases ss@.len() - i,
    {
        let ghost w = v.take(i + 1);
        proof {
            assert(w.drop_last() =~= v.take(i as int));
            assert(w.last() == ss@[i as int]@);
        }
        let ghost gi = genv(*scope, *sigs, structs@, tables@);
        if !stmt_ready(&ss[i], scope, sigs, structs, tables, fn_ret, post) {
            proof {
                assert(!stmt_safe(w.last(), block_env(w.drop_last(), g0), fn_ret, post_view(post)));
                assert(!block_safe(w, g0, fn_ret, post_view(post)));
                if block_safe(v, g0, fn_ret, post_view(post)) {
                    lemma_block_safe_prefix(v, g0, fn_ret, post_view(post), i + 1);
                }
            }
            return false;
        }
        i = i + 1;
    }
    assert(v.take(ss@.len() as int) =~= v);
    true
}

/// 块中语句的深度都小于 n，当且仅当块的深度小于 n（n 为正）
proof fn lemma_block_depth_lt(ss: Seq<SStmt>, n: nat)
    requires
        n > 0,
    ensures
        (block_depth(ss) < n) == (forall|i: int| 0 <= i < ss.len() ==> #[trigger] stmt_depth(ss[i]) < n),
    decreases ss.len(),
{
    if ss.len() > 0 {
        let d = ss.drop_last();
        lemma_block_depth_lt(d, n);
        assert((block_depth(ss) < n) == (block_depth(d) < n && stmt_depth(ss.last()) < n));
        if forall|i: int| 0 <= i < ss.len() ==> #[trigger] stmt_depth(ss[i]) < n {
            assert forall|i: int| 0 <= i < d.len() implies #[trigger] stmt_depth(d[i]) < n by {
                assert(d[i] == ss[i]);
            }
            assert(stmt_depth(ss[ss.len() - 1]) < n);
        } else {
            let j = choose|j: int| 0 <= j < ss.len() && !(#[trigger] stmt_depth(ss[j]) < n);
            if j < ss.len() - 1 {
                assert(d[j] == ss[j]);
                assert(!(stmt_depth(d[j]) < n));
            }
        }
        if block_depth(d) < n && stmt_depth(ss.last()) < n {
            assert forall|i: int| 0 <= i < ss.len() implies #[trigger] stmt_depth(ss[i]) < n by {
                if i < ss.len() - 1 {
                    assert(d[i] == ss[i]);
                    assert(stmt_depth(d[i]) < n);
                }
            }
        }
    }
}

/// 语句的嵌套深度小于 n
fn stmt_depth_lt(s: &Stmt, n: usize) -> (r: bool)
    ensures
        r == (stmt_depth(s@) < n),
    decreases s,
{
    match s {
        Stmt::While { body, .. } => n > 0 && block_depth_lt(body, n - 1),
        Stmt::If { body, else_body, .. } => {
            n > 0 && block_depth_lt(body, n - 1) && match else_body {
                Some(eb) => block_depth_lt(eb, n - 1),
                None => true,
            }
        },
        _ => n > 0,
    }
}

/// 语句块的嵌套深度小于 n
fn block_depth_lt(ss: &Vec<Stmt>, n: usize) -> (r: bool)
    ensures
        r == (block_depth(stmts_view(ss@)) < n),
    decreases ss,
{
    let ghost v = stmts_view(ss@);
    if n == 0 {
        return false;
    }
    proof {
        lemma_block_depth_lt(v, n as nat);
    }
    let mut i: usize = 0;
    while i < ss.len()
        invariant
            i <= ss@.len(),
            n > 0,
            v == stmts_view(ss@),
            (block_depth(v) < n) == (forall|k: int| 0 <= k < v.len() ==> #[trigger] stmt_depth(v[k]) < n),
            forall|k: int| 0 <= k < i ==> #[trigger] stmt_depth(v[k]) < n,
        decreases ss@.len() - i,
    {
        assert(v[i as int] == ss@[i as int]@);
        if !stmt_depth_lt(&ss[i], n) {
            assert(!(stmt_depth(v[i as int]) < n));
            return false;
        }
        i = i + 1;
    }
    true
}

// ───────────────────────── 整个程序 ─────────────────────────

fn fields_ok(fs: &Vec<crate::ast::FieldDef>, structs: &[StructDef], tables: &TypeTables) -> (r: bool)
    ensures
        r == fields_in_tables(fs@, structs@, tables@),
{
    let mut i: usize = 0;
    while i < fs.len()
        invariant
            i <= fs@.len(),
            forall|k: int| 0 <= k < i ==> ty_in_tables(#[trigger] fs@[k].ty, structs@, tables@),
        decreases fs@.len() - i,
    {
        if !ty_ok(fs[i].ty, structs, tables) {
            return false;
        }
        i = i + 1;
    }
    true
}

fn fn_sig_ready(f: &FnDef, structs: &[StructDef], tables: &TypeTables) -> (r: bool)
    ensures
        r == fn_sig_ok(*f, structs@, tables@),
{
    let mut i: usize = 0;
    while i < f.params.len()
        invariant
            i <= f.params@.len(),
            forall|k: int| 0 <= k < i ==> ty_in_tables(param_ty(#[trigger] f.params@[k]), structs@, tables@),
        decreases f.params@.len() - i,
    {
        let t = match f.params[i].ty {
            Some(t) => t,
            None => Ty::I64,
        };
        if !ty_ok(t, structs, tables) {
            assert(!ty_in_tables(param_ty(f.params@[i as int]), structs@, tables@));
            return false;
        }
        i = i + 1;
    }
    let ret = match f.ret {
        Some(t) => t,
        None => Ty::I64,
    };
    let is_arr = match ret {
        Ty::Arr(_) => true,
        _ => false,
    };
    ty_ok(ret, structs, tables) && ret != Ty::BorrowStr && !is_arr
}

fn slots_ready(names: &Vec<String>, tys: &TyScope, structs: &[StructDef], tables: &TypeTables) -> (r: bool)
    ensures
        r == slots_ok(strings_view(names@), tys@, structs@, tables@),
{
    let ghost nv = strings_view(names@);
    let mut i: usize = 0;
    while i < names.len()
        invariant
            i <= names@.len(),
            nv == strings_view(names@),
            forall|k: int| 0 <= k < i ==> ty_in_tables(slot_ty_of(tys@, #[trigger] nv[k]), structs@, tables@),
        decreases names@.len() - i,
    {
        assert(nv[i as int] == names@[i as int]@);
        let t = match tys.get(names[i].as_str()) {
            Some(t) => t,
            None => Ty::Str,
        };
        if !ty_ok(t, structs, tables) {
            assert(!ty_in_tables(slot_ty_of(tys@, nv[i as int]), structs@, tables@));
            return false;
        }
        i = i + 1;
    }
    true
}

/// 前 n 个表达式都可以生成
fn prefix_ready(es: &Vec<Expr>, n: usize, scope: &Scope, sigs: &FuncTable, structs: &[StructDef], tables: &TypeTables) -> (r: bool)
    requires
        n <= es@.len(),
    ensures
        r == forall|i: int| 0 <= i < n ==> emit_safe(#[trigger] exprs_view(es@)[i], genv(*scope, *sigs, structs@, tables@)),
{
    let ghost g = genv(*scope, *sigs, structs@, tables@);
    let ghost v = exprs_view(es@);
    let mut i: usize = 0;
    while i < n
        invariant
            i <= n,
            n <= es@.len(),
            v == exprs_view(es@),
            g == genv(*scope, *sigs, structs@, tables@),
            forall|k: int| 0 <= k < i ==> emit_safe(#[trigger] v[k], g),
        decreases n - i,
    {
        assert(v[i as int] == es@[i as int]@);
        if !expr_ready(&es[i], scope, sigs, structs, tables) {
            return false;
        }
        i = i + 1;
    }
    true
}

#[verifier::spinoff_prover]
fn example_ready(c: &Contract, frt: Ty, scope: &Scope, sigs: &FuncTable, structs: &[StructDef], tables: &TypeTables) -> (r: bool)
    ensures
        r == example_safe(c@, frt, genv(*scope, *sigs, structs@, tables@)),
{
    let ghost g = genv(*scope, *sigs, structs@, tables@);
    match c {
        Contract::Example { call, expected, .. } => {
            if !expr_ready(call, scope, sigs, structs, tables) {
                return false;
            }
            match frt {
                Ty::Tuple(tid) => {
                    if (tid as usize) >= tables.tuples.len() {
                        return false;
                    }
                    assert(tables@.tuples == tuples_view(tables.tuples@));
                    let n = tables.tuples[tid as usize].elems.len();
                    match expected {
                        Expr::TupExpr { elems, .. } => {
                            assert(c@->Example_expected->TupExpr_elems == exprs_view(elems@));
                            elems.len() >= n && prefix_ready(elems, n, scope, sigs, structs, tables)
                        },
                        _ => false,
                    }
                },
                _ => expr_ready(expected, scope, sigs, structs, tables),
            }
        },
        _ => true,
    }
}

fn examples_ready(fs: &Vec<FnDef>, scope: &Scope, sigs: &FuncTable, structs: &[StructDef], tables: &TypeTables) -> (r: bool)
    requires
        sigs.view() == gen_funcs(fs@),
    ensures
        r == examples_safe(fs@, sigs.view(), genv(*scope, *sigs, structs@, tables@)),
{
    let ghost g = genv(*scope, *sigs, structs@, tables@);
    let mut i: usize = 0;
    while i < fs.len()
        invariant
            i <= fs@.len(),
            g == genv(*scope, *sigs, structs@, tables@),
            sigs.view() == gen_funcs(fs@),
            forall|a: int, b: int|
                0 <= a < i && 0 <= b < fs@[a].contracts@.len() ==> example_safe(
                    #[trigger] contracts_view(fs@[a].contracts@)[b],
                    sigs.view()[fs@[a].name@].ret,
                    g,
                ),
        decreases fs@.len() - i,
    {
        proof {
            lemma_gen_funcs_has(fs@, i as int);
        }
        let frt = match sigs.get(fs[i].name.as_str()) {
            Some(sig) => sig.ret,
            None => Ty::I64,
        };
        let f = &fs[i];
        let mut j: usize = 0;
        while j < f.contracts.len()
            invariant
                i < fs@.len(),
                f == &fs@[i as int],
                j <= f.contracts@.len(),
                g == genv(*scope, *sigs, structs@, tables@),
                frt == sigs.view()[fs@[i as int].name@].ret,
                forall|a: int, b: int|
                    0 <= a < i && 0 <= b < fs@[a].contracts@.len() ==> example_safe(
                        #[trigger] contracts_view(fs@[a].contracts@)[b],
                        sigs.view()[fs@[a].name@].ret,
                        g,
                    ),
                forall|b: int| 0 <= b < j ==> example_safe(#[trigger] contracts_view(f.contracts@)[b], frt, g),
            decreases f.contracts@.len() - j,
        {
            assert(contracts_view(f.contracts@)[j as int] == f.contracts@[j as int]@);
            if !example_ready(&f.contracts[j], frt, scope, sigs, structs, tables) {
                assert(!example_safe(contracts_view(fs@[i as int].contracts@)[j as int], sigs.view()[fs@[i as int].name@].ret, g));
                return false;
            }
            j = j + 1;
        }
        assert forall|a: int, b: int|
            0 <= a < i + 1 && 0 <= b < fs@[a].contracts@.len() implies example_safe(
                #[trigger] contracts_view(fs@[a].contracts@)[b],
                sigs.view()[fs@[a].name@].ret,
                g,
            ) by {
            if a == i {
                assert(example_safe(contracts_view(f.contracts@)[b], frt, g));
            }
        }
        i = i + 1;
    }
    true
}

fn pres_ready(f: &FnDef, scope: &Scope, sigs: &FuncTable, structs: &[StructDef], tables: &TypeTables) -> (r: bool)
    ensures
        r == pres_safe(contracts_view(f.contracts@), genv(*scope, *sigs, structs@, tables@)),
{
    let ghost g = genv(*scope, *sigs, structs@, tables@);
    let ghost cv = contracts_view(f.contracts@);
    let mut j: usize = 0;
    while j < f.contracts.len()
        invariant
            j <= f.contracts@.len(),
            cv == contracts_view(f.contracts@),
            g == genv(*scope, *sigs, structs@, tables@),
            forall|k: int| 0 <= k < j ==> (#[trigger] cv[k] is Pre ==> emit_safe(cv[k]->Pre_0, g)),
        decreases f.contracts@.len() - j,
    {
        assert(cv[j as int] == f.contracts@[j as int]@);
        match &f.contracts[j] {
            Contract::Pre(e, _) => {
                if !expr_ready(e, scope, sigs, structs, tables) {
                    assert(!(cv[j as int] is Pre ==> emit_safe(cv[j as int]->Pre_0, g)));
                    return false;
                }
            },
            _ => {},
        }
        j = j + 1;
    }
    true
}

#[verifier::spinoff_prover]
#[verifier::rlimit(60)]
fn fn_def_ready(f: &FnDef, sigs: &FuncTable, structs: &[StructDef], tables: &TypeTables) -> (r: bool)
    ensures
        r == fn_def_safe(*f, sigs.view(), structs@, tables@),
{
    let ghost funcs = sigs.view();
    let ghost g = fn_env(*f, funcs, structs@, tables@);
    let ghost body = stmts_view(f.body@);
    let ghost slots = fn_slots(*f, funcs, structs@, tables@);
    if !fn_sig_ready(f, structs, tables) {
        return false;
    }
    let ret = match f.ret {
        Some(t) => t,
        None => Ty::I64,
    };
    let (mut scope, mut tys, owned) = param_scopes(&f.params);
    assert(genv(scope, *sigs, structs@, tables@) == g);
    let mut strs: Vec<String> = Vec::new();
    assert(strings_view(strs@) =~= Seq::<Seq<char>>::empty());
    collect_str_decls(&f.body, &mut tys, sigs, structs, tables, &mut strs);
    assert(strings_view(strs@) == slots.1);
    assert(tys@ == slots.0);
    let mut all: Vec<String> = Vec::new();
    let mut k: usize = 0;
    while k < strs.len()
        invariant
            k <= strs@.len(),
            all@ == strs@.take(k as int),
        decreases strs@.len() - k,
    {
        all.push(strs[k].clone());
        assert(all@ =~= strs@.take(k + 1));
        k = k + 1;
    }
    let mut k: usize = 0;
    while k < owned.len()
        invariant
            k <= owned@.len(),
            all@ == strs@ + owned@.take(k as int),
        decreases owned@.len() - k,
    {
        all.push(owned[k].clone());
        assert(all@ =~= strs@ + owned@.take(k + 1));
        k = k + 1;
    }
    assert(all@ =~= strs@ + owned@);
    assert(strings_view(all@) =~= strings_view(strs@) + strings_view(owned@));
    if !slots_ready(&all, &tys, structs, tables) {
        return false;
    }
    if !pres_ready(f, &scope, sigs, structs, tables) {
        return false;
    }
    let post = find_post(&f.contracts);
    let pe: Option<&Expr> = match post {
        Some((e, _)) => Some(e),
        None => None,
    };
    assert(post_view(pe) == post_expr(first_post(contracts_view(f.contracts@))));
    if !block_depth_lt(&f.body, usize::MAX - 1) {
        return false;
    }
    if !block_ready(&f.body, &mut scope, sigs, structs, tables, ret, pe) {
        return false;
    }
    match pe {
        Some(p) => {
            let mut ps = scope.duplicate();
            ps.insert("ret".to_string(), VarInfo::new(ret, false));
            proof {
                reveal_strlit("ret");
            }
            assert(genv(ps, *sigs, structs@, tables@) == with_ret(block_env(body, g), fn_ret_ty(*f)));
            expr_ready(p, &ps, sigs, structs, tables)
        },
        None => true,
    }
}

#[verifier::spinoff_prover]
#[verifier::rlimit(40)]
fn main_ready(p: &Program, sigs: &FuncTable, tables: &TypeTables) -> (r: bool)
    requires
        sigs.view() == gen_funcs(p.funcs@),
    ensures
        r == main_safe(*p, sigs.view(), tables@),
{
    let structs = p.structs.as_slice();
    let mut scope = Scope::new();
    assert(genv(scope, *sigs, structs@, tables@) == main_env(sigs.view(), structs@, tables@));
    let mut tys = TyScope::new();
    let mut strs: Vec<String> = Vec::new();
    assert(strings_view(strs@) =~= Seq::<Seq<char>>::empty());
    collect_str_decls(&p.top, &mut tys, sigs, structs, tables, &mut strs);
    if !slots_ready(&strs, &tys, structs, tables) {
        return false;
    }
    if !examples_ready(&p.funcs, &scope, sigs, structs, tables) {
        return false;
    }
    if !block_depth_lt(&p.top, usize::MAX - 1) {
        return false;
    }
    block_ready(&p.top, &mut scope, sigs, structs, tables, Ty::I64, None)
}

/// 程序能否生成 C（与 gen_safe 一致）
pub fn gen_ready(prog: &Program) -> (r: bool)
    ensures
        r == gen_safe(*prog),
{
    let mut tables = TypeTables::new();
    tables.set_arrs(prog.arrs.as_slice());
    tables.set_darrs(prog.darrs.as_slice());
    tables.set_tuples(prog.tuples.as_slice());
    tables.set_maps(prog.maps.as_slice());
    assert(tables@ == prog_tb(*prog));
    let structs = prog.structs.as_slice();
    let mut i: usize = 0;
    while i < prog.structs.len()
        invariant
            i <= prog.structs@.len(),
            structs@ == prog.structs@,
            tables@ == prog_tb(*prog),
            forall|k: int| 0 <= k < i ==> fields_in_tables(#[trigger] prog.structs@[k].fields@, prog.structs@, prog_tb(*prog)),
        decreases prog.structs@.len() - i,
    {
        if !fields_ok(&prog.structs[i].fields, structs, &tables) {
            return false;
        }
        i = i + 1;
    }
    let mut i: usize = 0;
    while i < prog.funcs.len()
        invariant
            i <= prog.funcs@.len(),
            structs@ == prog.structs@,
            tables@ == prog_tb(*prog),
            forall|k: int| 0 <= k < i ==> fn_sig_ok(#[trigger] prog.funcs@[k], prog.structs@, prog_tb(*prog)),
        decreases prog.funcs@.len() - i,
    {
        if !fn_sig_ready(&prog.funcs[i], structs, &tables) {
            return false;
        }
        i = i + 1;
    }
    let sigs = gen_func_table(&prog.funcs);
    if !main_ready(prog, &sigs, &tables) {
        return false;
    }
    let mut i: usize = 0;
    while i < prog.funcs.len()
        invariant
            i <= prog.funcs@.len(),
            structs@ == prog.structs@,
            tables@ == prog_tb(*prog),
            sigs.view() == gen_funcs(prog.funcs@),
            forall|k: int| 0 <= k < i ==> fn_def_safe(#[trigger] prog.funcs@[k], gen_funcs(prog.funcs@), prog.structs@, prog_tb(*prog)),
        decreases prog.funcs@.len() - i,
    {
        if !fn_def_ready(&prog.funcs[i], &sigs, structs, &tables) {
            return false;
        }
        i = i + 1;
    }
    true
}

/// 生成 C：程序落在生成规则覆盖的形态里时给出完整源码，否则为 None
pub fn try_generate(prog: &Program) -> (r: Option<String>)
    ensures
        match r {
            Some(c) => gen_safe(*prog) && c@ == spec_generate(*prog),
            None => !gen_safe(*prog),
        },
{
    if gen_ready(prog) {
        Some(generate(prog))
    } else {
        None
    }
}

} // verus!
