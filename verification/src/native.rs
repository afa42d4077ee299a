//! 原生后端里与机器码无关的规则：表达式的深拷贝、@post 中 `ret` 的改名、
//! sel 两支类型的统一，以及结构体字段的定位。

use vstd::prelude::*;
use crate::ast::{Expr, SExpr, StructDef, Ty, exprs_view, field_inits_view, entries_view};
use crate::type_check::field_pos;
use crate::checker::field_index;

verus! {

broadcast use vstd::std_specs::vec::axiom_vec_decreases_to_view;

/// 表达式的深拷贝
pub fn copy_expr(e: &Expr) -> (r: Expr)
    ensures
        r@ == e@,
    decreases e, 1int,
{
    match e {
        Expr::Int(n) => Expr::Int(*n),
        Expr::Float(s) => Expr::Float(s.clone()),
        Expr::Str(s) => Expr::Str(s.clone()),
        Expr::Bool(b) => Expr::Bool(*b),
        Expr::Var(s) => Expr::Var(s.clone()),
        Expr::Neg(a) => Expr::Neg(Box::new(copy_expr(a))),
        Expr::Bin { op, lhs, rhs } => Expr::Bin { op: *op, lhs: Box::new(copy_expr(lhs)), rhs: Box::new(copy_expr(rhs)) },
        Expr::Call { name, args } => Expr::Call { name: name.clone(), args: copy_exprs(args) },
        Expr::Convert { name, arg } => Expr::Convert { name: name.clone(), arg: Box::new(copy_expr(arg)) },
        Expr::Borrow(a) => Expr::Borrow(Box::new(copy_expr(a))),
        Expr::StructLit { name, fields, line } => Expr::StructLit {
            name: name.clone(),
            fields: copy_field_inits(fields),
            line: *line,
        },
        Expr::Field(a, f) => Expr::Field(Box::new(copy_expr(a)), f.clone()),
        Expr::ArrLit { arr, elems } => Expr::ArrLit { arr: *arr, elems: copy_exprs(elems) },
        Expr::Index(a, i) => Expr::Index(Box::new(copy_expr(a)), Box::new(copy_expr(i))),
        Expr::DArrLit { darr, elems } => Expr::DArrLit { darr: *darr, elems: copy_exprs(elems) },
        Expr::Push { arr, value } => Expr::Push { arr: Box::new(copy_expr(arr)), value: Box::new(copy_expr(value)) },
        Expr::Pop { arr } => Expr::Pop { arr: Box::new(copy_expr(arr)) },
        Expr::MapLit { map, entries } => Expr::MapLit { map: *map, entries: copy_entries(entries) },
        Expr::Has { map, key } => Expr::Has { map: Box::new(copy_expr(map)), key: Box::new(copy_expr(key)) },
        Expr::Del { map, key } => Expr::Del { map: Box::new(copy_expr(map)), key: Box::new(copy_expr(key)) },
        Expr::Sub { s, start, n } => Expr::Sub {
            s: Box::new(copy_expr(s)),
            start: Box::new(copy_expr(start)),
            n: Box::new(copy_expr(n)),
        },
        Expr::TupExpr { elems, tup } => Expr::TupExpr { elems: copy_exprs(elems), tup: *tup },
        Expr::Len(a) => Expr::Len(Box::new(copy_expr(a))),
        Expr::Sel { cond, a, b } => Expr::Sel {
            cond: Box::new(copy_expr(cond)),
            a: Box::new(copy_expr(a)),
            b: Box::new(copy_expr(b)),
        },
        Expr::Keys(a) => Expr::Keys(Box::new(copy_expr(a))),
        Expr::Values(a) => Expr::Values(Box::new(copy_expr(a))),
    }
}

fn copy_exprs(v: &Vec<Expr>) -> (r: Vec<Expr>)
    ensures
        exprs_view(r@) == exprs_view(v@),
    decreases v, 0int,
{
    let mut r: Vec<Expr> = Vec::new();
    let mut i: usize = 0;
    while i < v.len()
        invariant
            i <= v@.len(),
            r@.len() == i,
            forall|k: int| 0 <= k < i ==> r@[k]@ == v@[k]@,
        decreases v@.len() - i,
    {
        r.push(copy_expr(&v[i]));
        i = i + 1;
    }
    assert(exprs_view(r@) =~= exprs_view(v@));
    r
}

fn copy_field_inits(v: &Vec<(Option<String>, Expr)>) -> (r: Vec<(Option<String>, Expr)>)
    ensures
        field_inits_view(r@) == field_inits_view(v@),
    decreases v, 0int,
{
    let mut r: Vec<(Option<String>, Expr)> = Vec::new();
    let mut i: usize = 0;
    while i < v.len()
        invariant
            i <= v@.len(),
            r@.len() == i,
            forall|k: int| 0 <= k < i ==> crate::ast::opt_str_view(r@[k].0) == crate::ast::opt_str_view(v@[k].0) && r@[k].1@ == v@[k].1@,
        decreases v@.len() - i,
    {
        let n: Option<String> = match &v[i].0 {
            Some(s) => Some(s.clone()),
            None => None,
        };
        r.push((n, copy_expr(&v[i].1)));
        i = i + 1;
    }
    assert(field_inits_view(r@) =~= field_inits_view(v@));
    r
}

fn copy_entries(v: &Vec<(Expr, Expr)>) -> (r: Vec<(Expr, Expr)>)
    ensures
        entries_view(r@) == entries_view(v@),
    decreases v, 0int,
{
    let mut r: Vec<(Expr, Expr)> = Vec::new();
    let mut i: usize = 0;
    while i < v.len()
        invariant
            i <= v@.len(),
            r@.len() == i,
            forall|k: int| 0 <= k < i ==> r@[k].0@ == v@[k].0@ && r@[k].1@ == v@[k].1@,
        decreases v@.len() - i,
    {
        r.push((copy_expr(&v[i].0), copy_expr(&v[i].1)));
        i = i + 1;
    }
    assert(entries_view(r@) =~= entries_view(v@));
    r
}

/// @post 表达式中的 `ret` 改名为内部槽 `#ret`（穿过取负、二元运算、调用实参与转换）；
/// 其余表达式原样
pub open spec fn spec_rewrite_ret(e: SExpr) -> SExpr
    decreases e, 1int,
{
    match e {
        SExpr::Var(n) => if n == "ret"@ {
            SExpr::Var("#ret"@)
        } else {
            e
        },
        SExpr::Neg(x) => SExpr::Neg(Box::new(spec_rewrite_ret(*x))),
        SExpr::Bin { op, lhs, rhs } => SExpr::Bin {
            op,
            lhs: Box::new(spec_rewrite_ret(*lhs)),
            rhs: Box::new(spec_rewrite_ret(*rhs)),
        },
        SExpr::Call { name, args } => SExpr::Call { name, args: spec_rewrite_list(args) },
        SExpr::Convert { name, arg } => SExpr::Convert { name, arg: Box::new(spec_rewrite_ret(*arg)) },
        _ => e,
    }
}

pub open spec fn spec_rewrite_list(es: Seq<SExpr>) -> Seq<SExpr>
    decreases es, 0int,
{
    if es.len() == 0 {
        seq![]
    } else {
        spec_rewrite_list(es.drop_last()).push(spec_rewrite_ret(es.last()))
    }
}

/// @post 表达式中的 `ret` 改名为 `#ret`
pub fn rewrite_ret(e: &Expr) -> (r: Expr)
    ensures
        r@ == spec_rewrite_ret(e@),
    decreases e, 1int,
{
    proof {
        reveal_strlit("ret");
        reveal_strlit("#ret");
    }
    match e {
        Expr::Var(n) => {
            if crate::text::str_eq(n.as_str(), "ret") {
                Expr::Var("#ret".to_string())
            } else {
                copy_expr(e)
            }
        },
        Expr::Neg(x) => Expr::Neg(Box::new(rewrite_ret(x))),
        Expr::Bin { op, lhs, rhs } => Expr::Bin { op: *op, lhs: Box::new(rewrite_ret(lhs)), rhs: Box::new(rewrite_ret(rhs)) },
        Expr::Call { name, args } => Expr::Call { name: name.clone(), args: rewrite_list(args) },
        Expr::Convert { name, arg } => Expr::Convert { name: name.clone(), arg: Box::new(rewrite_ret(arg)) },
        _ => copy_expr(e),
    }
}

fn rewrite_list(v: &Vec<Expr>) -> (r: Vec<Expr>)
    ensures
        exprs_view(r@) == spec_rewrite_list(exprs_view(v@)),
    decreases v, 0int,
{
    let ghost ev = exprs_view(v@);
    let mut r: Vec<Expr> = Vec::new();
    let mut i: usize = 0;
    while i < v.len()
        invariant
            i <= v@.len(),
            ev == exprs_view(v@),
            exprs_view(r@) == spec_rewrite_list(ev.take(i as int)),
        decreases v@.len() - i,
    {
        let x = rewrite_ret(&v[i]);
        let ghost r0 = r@;
        r.push(x);
        proof {
            let w = ev.take(i + 1);
            assert(w.drop_last() =~= ev.take(i as int));
            assert(w.last() == v@[i as int]@);
            assert(exprs_view(r@) =~= exprs_view(r0).push(x@));
        }
        i = i + 1;
    }
    assert(ev.take(v@.len() as int) =~= ev);
    r
}

/// sel 两支类型能否统一：相同、i32 与 i64、数值与 f64
pub open spec fn sel_unifiable(a: Ty, b: Ty) -> bool {
    a == b || (a == Ty::I64 && b == Ty::I32) || (a == Ty::I32 && b == Ty::I64) || ((a == Ty::F64 || b == Ty::F64) && (
    a == Ty::I32 || a == Ty::I64 || a == Ty::F64) && (b == Ty::I32 || b == Ty::I64 || b == Ty::F64))
}

/// sel 两支统一后的类型：相同取其一，i32 与 i64 取 i64，含 f64 取 f64
pub open spec fn spec_sel_unify(a: Ty, b: Ty) -> Ty {
    if a == b {
        a
    } else if a == Ty::F64 || b == Ty::F64 {
        Ty::F64
    } else {
        Ty::I64
    }
}

pub fn sel_unify_ty(at: Ty, bt: Ty) -> (r: Ty)
    requires
        sel_unifiable(at, bt),
    ensures
        r == spec_sel_unify(at, bt),
{
    if at == bt {
        return at;
    }
    match (at, bt) {
        (Ty::I64, Ty::I32) | (Ty::I32, Ty::I64) => Ty::I64,
        _ => Ty::F64,
    }
}

/// 结构体字段：(结构体定义, 字段序号, 字段类型)；不是已登记的结构体或没有该字段时为 None
pub open spec fn spec_struct_field(bt: Ty, fname: Seq<char>, structs: Seq<StructDef>) -> Option<(StructDef, int, Ty)> {
    match bt {
        Ty::Struct(i) => if (i as int) < structs.len() {
            let fs = structs[i as int].fields@;
            let k = field_pos(fs, fname, 0);
            if k < fs.len() {
                Some((structs[i as int], k, fs[k].ty))
            } else {
                None
            }
        } else {
            None
        },
        _ => None,
    }
}

pub fn struct_field(bt: Ty, fname: &str, structs: &[StructDef]) -> (r: Option<(StructDef, usize, Ty)>)
    ensures
        match (r, spec_struct_field(bt, fname@, structs@)) {
            (Some((sd, k, t)), Some((sd2, k2, t2))) => sd@ == sd2@ && k == k2 && t == t2,
            (None, None) => true,
            _ => false,
        },
{
    match bt {
        Ty::Struct(i) => {
            if (i as usize) < structs.len() {
                let sd = &structs[i as usize];
                let k = field_index(sd, fname);
                if k < sd.fields.len() {
                    Some((sd.clone(), k, sd.fields[k].ty))
                } else {
                    None
                }
            } else {
                None
            }
        },
        _ => None,
    }
}

} // verus!
