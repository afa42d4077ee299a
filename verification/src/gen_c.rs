//! C 后端的命名、类型与所有权规则：标识符 mangle（非 ASCII 字符编码为 xNNNN）、
//! C 类型名、释放语句、map 运行时函数后缀，以及“移动位”上源变量的置空。

use vstd::prelude::*;
use crate::ast::{
    Ty, StructDef, MapDef, Expr, SExpr, BinOp, FieldDef, FnDef, Param, spec_c_name, spec_binop_str, exprs_view, field_inits_view, entries_view,
};
use crate::text::{chars_of, push_str_chars, push_hex, push_decimal, push_int, int_text, radix_text, string_of_all, str_eq};
use crate::type_check::{
    FuncTable, FSig, Scope, TbView, TypeTables, VarInfo, spec_is_owned, is_owned, fsig_view, spec_ty_of, var_tys,
    ty_of, norm, field_pos, struct_pos, parses_i64, sign_stripped, struct_by_name, map_by_id, darr_by_id,
    arr_by_id, lemma_struct_pos, tuples_view, spec_consumes, consumes_var,
};
use crate::lexer::decimal_value;
use crate::fmt::{spec_c_str_lit, push_c_str_lit};
use crate::checker::field_index;
pub use crate::c_output::generate;

verus! {

broadcast use vstd::std_specs::vec::axiom_vec_decreases_to_view;

// ───────────────────────── 标识符 ─────────────────────────

/// ASCII 字母或数字（`char::is_ascii_alphanumeric`）
pub open spec fn is_ascii_alnum(c: char) -> bool {
    ('0' <= c && c <= '9') || ('a' <= c && c <= 'z') || ('A' <= c && c <= 'Z')
}

/// 一个字符的 C 标识符片段：ASCII 字母数字与下划线原样，其余为 x + 码点的小写十六进制
pub open spec fn mangle_char(c: char) -> Seq<char> {
    if is_ascii_alnum(c) || c == '_' {
        seq![c]
    } else {
        seq!['x'] + radix_text((c as u32) as nat, 16)
    }
}

pub open spec fn mangle(s: Seq<char>) -> Seq<char>
    decreases s.len(),
{
    if s.len() == 0 {
        seq![]
    } else {
        mangle(s.drop_last()) + mangle_char(s.last())
    }
}

/// C 标识符：t_ 前缀加逐字符 mangle
pub open spec fn spec_cname(s: Seq<char>) -> Seq<char> {
    "t_"@ + mangle(s)
}

/// 追加 C 标识符
pub fn push_cname(s: &str, out: &mut Vec<char>)
    ensures
        final(out)@ == old(out)@ + spec_cname(s@),
{
    let cs = chars_of(s);
    push_str_chars("t_", out);
    let ghost start = out@;
    let mut i: usize = 0;
    while i < cs.len()
        invariant
            i <= cs@.len(),
            cs@ == s@,
            out@ == start + mangle(cs@.take(i as int)),
        decreases cs@.len() - i,
    {
        let c = cs[i];
        let ghost before = out@;
        if ('0' <= c && c <= '9') || ('a' <= c && c <= 'z') || ('A' <= c && c <= 'Z') || c == '_' {
            out.push(c);
            assert(out@ =~= before + mangle_char(c));
        } else {
            out.push('x');
            let code: u32 = c as u32;
            push_hex(code as u64, out);
            assert(out@ =~= before + mangle_char(c));
        }
        proof {
            assert(cs@.take(i + 1).drop_last() =~= cs@.take(i as int));
            assert(cs@.take(i + 1).last() == c);
        }
        i = i + 1;
    }
    proof {
        assert(cs@.take(cs@.len() as int) =~= cs@);
    }
}

/// 标识符 mangle：非 ASCII 字符编码为 xNNNN，保证 C 编译器兼容
pub fn cname(s: &str) -> (r: String)
    ensures
        r@ == spec_cname(s@),
{
    let mut out: Vec<char> = Vec::new();
    push_cname(s, &mut out);
    string_of_all(&out)
}

/// 追加 level 级缩进（每级 4 个空格）
pub open spec fn spec_indent(level: nat) -> Seq<char>
    decreases level,
{
    if level == 0 {
        seq![]
    } else {
        spec_indent((level - 1) as nat) + "    "@
    }
}

pub fn indent(out: &mut Vec<char>, level: usize)
    ensures
        final(out)@ == old(out)@ + spec_indent(level as nat),
{
    let ghost start = out@;
    let mut i: usize = 0;
    while i < level
        invariant
            i <= level,
            out@ == start + spec_indent(i as nat),
        decreases level - i,
    {
        push_str_chars("    ", out);
        i = i + 1;
    }
}

// ───────────────────────── map 运行时后缀 ─────────────────────────

/// map 键类型的后缀：str → s，其余 → i
pub open spec fn spec_key_wire(t: Ty) -> Seq<char> {
    if t == Ty::Str {
        "s"@
    } else {
        "i"@
    }
}

/// map 值类型的后缀：str → s，f64 → f，其余 → i
pub open spec fn spec_val_wire(t: Ty) -> Seq<char> {
    if t == Ty::Str {
        "s"@
    } else if t == Ty::F64 {
        "f"@
    } else {
        "i"@
    }
}

pub fn map_key_wire(t: Ty) -> (r: &'static str)
    ensures
        r@ == spec_key_wire(t),
{
    if t == Ty::Str {
        "s"
    } else {
        "i"
    }
}

pub fn map_val_wire(t: Ty) -> (r: &'static str)
    ensures
        r@ == spec_val_wire(t),
{
    if t == Ty::Str {
        "s"
    } else if t == Ty::F64 {
        "f"
    } else {
        "i"
    }
}

/// map 运行时函数后缀（mnew/mget/mhas/mset/mdel/mfree 共用），如 ii / ss / if
pub fn map_wire(m: &MapDef) -> (r: String)
    ensures
        r@ == spec_key_wire(m.key) + spec_val_wire(m.val),
{
    let mut out: Vec<char> = Vec::new();
    push_str_chars(map_key_wire(m.key), &mut out);
    push_str_chars(map_val_wire(m.val), &mut out);
    string_of_all(&out)
}

// ───────────────────────── 类型名与释放 ─────────────────────────

/// 结构体深释放函数名
pub fn free_fn(sd: &StructDef) -> (r: String)
    ensures
        r@ == "__t_free_"@ + spec_cname(sd.name@),
{
    let mut out: Vec<char> = Vec::new();
    push_str_chars("__t_free_", &mut out);
    push_cname(sd.name.as_str(), &mut out);
    string_of_all(&out)
}

/// 结构体构造函数名
pub fn new_fn(sd: &StructDef) -> (r: String)
    ensures
        r@ == "__t_new_"@ + spec_cname(sd.name@),
{
    let mut out: Vec<char> = Vec::new();
    push_str_chars("__t_new_", &mut out);
    push_cname(sd.name.as_str(), &mut out);
    string_of_all(&out)
}

/// 类型的序号在类型表内（结构体看 structs，其余看 tb）
pub open spec fn ty_in_tables(t: Ty, structs: Seq<StructDef>, tb: TbView) -> bool {
    match t {
        Ty::Struct(i) => (i as int) < structs.len(),
        Ty::Arr(i) => (i as int) < tb.arrs.len(),
        Ty::DArr(i) => (i as int) < tb.darrs.len(),
        Ty::MapOf(i) => (i as int) < tb.maps.len(),
        Ty::Tuple(i) => (i as int) < tb.tuples.len(),
        _ => true,
    }
}

/// C 类型名：结构体为指针 `名*`，定长数组形参为只读指针，动态数组 / map / 元组为 `void*`
pub open spec fn spec_c_ty(t: Ty, structs: Seq<StructDef>, tb: TbView) -> Seq<char> {
    match t {
        Ty::Struct(i) => spec_cname(structs[i as int].name@) + "*"@,
        Ty::Arr(i) => "const "@ + spec_c_name(tb.arrs[i as int].elem) + " *"@,
        Ty::DArr(_) => "void*"@,
        Ty::MapOf(_) => "void*"@,
        Ty::Tuple(_) => "void*"@,
        _ => spec_c_name(t),
    }
}

pub fn c_ty(t: Ty, structs: &[StructDef], tables: &TypeTables) -> (r: String)
    requires
        ty_in_tables(t, structs@, tables@),
    ensures
        r@ == spec_c_ty(t, structs@, tables@),
{
    let mut out: Vec<char> = Vec::new();
    match t {
        Ty::Struct(i) => {
            push_cname(structs[i as usize].name.as_str(), &mut out);
            push_str_chars("*", &mut out);
        },
        Ty::Arr(i) => {
            push_str_chars("const ", &mut out);
            push_str_chars(tables.arrs[i as usize].elem.c_name(), &mut out);
            push_str_chars(" *", &mut out);
        },
        Ty::DArr(_) => push_str_chars("void*", &mut out),
        Ty::MapOf(_) => push_str_chars("void*", &mut out),
        Ty::Tuple(_) => push_str_chars("void*", &mut out),
        other => push_str_chars(other.c_name(), &mut out),
    }
    string_of_all(&out)
}

/// 定长数组的 (元素类型, 长度)
pub fn arr_of(t: Ty, tables: &TypeTables) -> (r: (Ty, u64))
    requires
        t is Arr,
        (t->Arr_0 as int) < tables.arrs@.len(),
    ensures
        r == (tables.arrs@[t->Arr_0 as int].elem, tables.arrs@[t->Arr_0 as int].len),
{
    match t {
        Ty::Arr(i) => {
            let a = tables.arrs[i as usize];
            (a.elem, a.len)
        },
        _ => (Ty::I64, 0),
    }
}

/// 释放一个堆值槽的语句：结构体深释放；str 动态数组逐元素释放；map 按后缀深释放；其余 __t_free
pub open spec fn spec_free_slot(var_c: Seq<char>, t: Ty, structs: Seq<StructDef>, tb: TbView) -> Seq<char> {
    match t {
        Ty::Struct(i) => "__t_free_"@ + spec_cname(structs[i as int].name@) + "("@ + var_c + ");"@,
        Ty::DArr(i) => if tb.darrs[i as int].elem == Ty::Str {
            "__t_dfree_s("@ + var_c + ");"@
        } else {
            "__t_free("@ + var_c + ");"@
        },
        Ty::MapOf(i) => "__t_mfree_"@ + spec_key_wire(tb.maps[i as int].key) + spec_val_wire(
            tb.maps[i as int].val,
        ) + "("@ + var_c + ");"@,
        _ => "__t_free("@ + var_c + ");"@,
    }
}

pub fn free_slot(var_c: &str, t: Ty, structs: &[StructDef], tables: &TypeTables) -> (r: String)
    requires
        ty_in_tables(t, structs@, tables@),
    ensures
        r@ == spec_free_slot(var_c@, t, structs@, tables@),
{
    let mut out: Vec<char> = Vec::new();
    match t {
        Ty::Struct(i) => {
            push_str_chars("__t_free_", &mut out);
            push_cname(structs[i as usize].name.as_str(), &mut out);
            push_str_chars("(", &mut out);
        },
        Ty::DArr(i) => {
            if tables.darrs[i as usize].elem == Ty::Str {
                push_str_chars("__t_dfree_s(", &mut out);
            } else {
                push_str_chars("__t_free(", &mut out);
            }
        },
        Ty::MapOf(i) => {
            let m = tables.maps[i as usize];
            push_str_chars("__t_mfree_", &mut out);
            push_str_chars(map_key_wire(m.key), &mut out);
            push_str_chars(map_val_wire(m.val), &mut out);
            push_str_chars("(", &mut out);
        },
        _ => push_str_chars("__t_free(", &mut out),
    }
    push_str_chars(var_c, &mut out);
    push_str_chars(");", &mut out);
    string_of_all(&out)
}

// ───────────────────────── 所有权：移动位置空 ─────────────────────────

/// 绑定到 str 变量时需复制成独立堆内存的值：字符串字面量与 tos 的结果
pub open spec fn spec_binds_dup(e: SExpr) -> bool {
    match e {
        SExpr::Str(_) => true,
        SExpr::Convert { name, .. } => name == "tos"@,
        _ => false,
    }
}

pub fn binds_dup(e: &Expr) -> (r: bool)
    ensures
        r == spec_binds_dup(e@),
{
    match e {
        Expr::Str(_) => true,
        Expr::Convert { name, .. } => crate::text::str_eq(name.as_str(), "tos"),
        _ => false,
    }
}

/// 第 i 个实参是否处于移动位：形参为堆类型且不是借用形参
pub open spec fn arg_moves(sig: FSig, i: int) -> bool {
    spec_is_owned(sig.params[i]) && !(i < sig.borrows.len() && sig.borrows[i])
}

/// 是否存在需要置空的移动（决定返回语句是否走临时变量形式，保证置空先于返回）
pub open spec fn spec_has_move_nulls(e: SExpr, is_top: bool, funcs: Map<Seq<char>, FSig>) -> bool
    decreases e, 0int,
{
    match e {
        SExpr::Var(_) => is_top,
        SExpr::Neg(x) => spec_has_move_nulls(*x, false, funcs),
        SExpr::Bin { lhs, rhs, .. } => spec_has_move_nulls(*lhs, false, funcs) || spec_has_move_nulls(
            *rhs,
            false,
            funcs,
        ),
        SExpr::Call { name, args } => funcs.contains_key(name) && spec_args_move_nulls(
            args,
            funcs[name],
            0,
            funcs,
        ),
        SExpr::Convert { arg, .. } => spec_has_move_nulls(*arg, false, funcs),
        SExpr::DArrLit { elems, .. } => spec_elems_move_nulls(elems, 0, funcs),
        SExpr::Sub { s, .. } => spec_has_move_nulls(*s, false, funcs),
        SExpr::TupExpr { elems, .. } => spec_elems_move_nulls(elems, 0, funcs),
        _ => false,
    }
}

/// 从第 i 个起，是否有处于移动位的实参需要置空
pub open spec fn spec_args_move_nulls(args: Seq<SExpr>, sig: FSig, i: int, funcs: Map<Seq<char>, FSig>) -> bool
    decreases args, args.len() - i,
{
    if i < 0 || i >= args.len() || i >= sig.params.len() {
        false
    } else {
        (arg_moves(sig, i) && spec_has_move_nulls(args[i], true, funcs)) || spec_args_move_nulls(
            args,
            sig,
            i + 1,
            funcs,
        )
    }
}

/// 从第 i 个起，是否有元素（处于移动位）需要置空
pub open spec fn spec_elems_move_nulls(es: Seq<SExpr>, i: int, funcs: Map<Seq<char>, FSig>) -> bool
    decreases es, es.len() - i,
{
    if i < 0 || i >= es.len() {
        false
    } else {
        spec_has_move_nulls(es[i], true, funcs) || spec_elems_move_nulls(es, i + 1, funcs)
    }
}

pub fn has_move_nulls(e: &Expr, is_top: bool, sigs: &FuncTable) -> (r: bool)
    ensures
        r == spec_has_move_nulls(e@, is_top, sigs.view()),
    decreases e, 1int,
{
    match e {
        Expr::Var(_) => is_top,
        Expr::Neg(x) => has_move_nulls(x, false, sigs),
        Expr::Bin { lhs, rhs, .. } => has_move_nulls(lhs, false, sigs) || has_move_nulls(rhs, false, sigs),
        Expr::Call { name, args } => match sigs.get(name.as_str()) {
            Some(sig) => args_move_nulls(args, sig, sigs),
            None => false,
        },
        Expr::Convert { arg, .. } => has_move_nulls(arg, false, sigs),
        Expr::DArrLit { elems, .. } => elems_move_nulls(elems, sigs),
        Expr::Sub { s, .. } => has_move_nulls(s, false, sigs),
        Expr::TupExpr { elems, .. } => elems_move_nulls(elems, sigs),
        _ => false,
    }
}

fn args_move_nulls(args: &Vec<Expr>, sig: &crate::type_check::FuncSig, sigs: &FuncTable) -> (r: bool)
    ensures
        r == spec_args_move_nulls(exprs_view(args@), fsig_view(*sig), 0, sigs.view()),
    decreases args, 0int,
{
    let ghost av = exprs_view(args@);
    let ghost fs = fsig_view(*sig);
    let mut i: usize = 0;
    while i < args.len() && i < sig.params.len()
        invariant
            i <= args@.len(),
            av == exprs_view(args@),
            fs == fsig_view(*sig),
            spec_args_move_nulls(av, fs, 0, sigs.view()) == spec_args_move_nulls(av, fs, i as int, sigs.view()),
        decreases args@.len() - i,
    {
        proof {
            assert(av[i as int] == args@[i as int]@);
        }
        let borrowed = i < sig.borrows.len() && sig.borrows[i];
        if is_owned(sig.params[i]) && !borrowed && has_move_nulls(&args[i], true, sigs) {
            return true;
        }
        i = i + 1;
    }
    false
}

fn elems_move_nulls(es: &Vec<Expr>, sigs: &FuncTable) -> (r: bool)
    ensures
        r == spec_elems_move_nulls(exprs_view(es@), 0, sigs.view()),
    decreases es, 0int,
{
    let ghost v = exprs_view(es@);
    let mut i: usize = 0;
    while i < es.len()
        invariant
            i <= es@.len(),
            v == exprs_view(es@),
            spec_elems_move_nulls(v, 0, sigs.view()) == spec_elems_move_nulls(v, i as int, sigs.view()),
        decreases es@.len() - i,
    {
        proof {
            assert(v[i as int] == es@[i as int]@);
        }
        if has_move_nulls(&es[i], true, sigs) {
            return true;
        }
        i = i + 1;
    }
    false
}

/// 对值中被移动的堆类型变量发出置空语句（每条一行，带 level 级缩进）：
/// is_top 为当前位置是否为移动位（绑定的顶层 / 堆类型形参的实参 / 动态数组与元组元素）；
/// 其余位置（拼接、比较、tos/copy 参数、打印）只借用
pub open spec fn spec_move_nulls(
    e: SExpr,
    is_top: bool,
    sc: Map<Seq<char>, crate::type_check::VarInfo>,
    funcs: Map<Seq<char>, FSig>,
    level: nat,
) -> Seq<char>
    decreases e, 0int,
{
    match e {
        SExpr::Var(n) => if is_top && sc.contains_key(n) && spec_is_owned(sc[n].ty) {
            spec_indent(level) + spec_cname(n) + " = NULL;\n"@
        } else {
            seq![]
        },
        SExpr::Neg(x) => spec_move_nulls(*x, false, sc, funcs, level),
        SExpr::Bin { lhs, rhs, .. } => spec_move_nulls(*lhs, false, sc, funcs, level) + spec_move_nulls(
            *rhs,
            false,
            sc,
            funcs,
            level,
        ),
        SExpr::Call { name, args } => if funcs.contains_key(name) {
            spec_args_nulls(args, funcs[name], 0, sc, funcs, level)
        } else {
            seq![]
        },
        SExpr::Convert { arg, .. } => spec_move_nulls(*arg, false, sc, funcs, level),
        SExpr::DArrLit { elems, .. } => spec_elems_nulls(elems, 0, sc, funcs, level),
        SExpr::Sub { s, .. } => spec_move_nulls(*s, false, sc, funcs, level),
        SExpr::TupExpr { elems, .. } => spec_elems_nulls(elems, 0, sc, funcs, level),
        _ => seq![],
    }
}

/// 第 i 个实参起的置空语句
pub open spec fn spec_args_nulls(
    args: Seq<SExpr>,
    sig: FSig,
    i: int,
    sc: Map<Seq<char>, crate::type_check::VarInfo>,
    funcs: Map<Seq<char>, FSig>,
    level: nat,
) -> Seq<char>
    decreases args, args.len() - i,
{
    if i < 0 || i >= args.len() || i >= sig.params.len() {
        seq![]
    } else {
        (if arg_moves(sig, i) {
            spec_move_nulls(args[i], true, sc, funcs, level)
        } else {
            seq![]
        }) + spec_args_nulls(args, sig, i + 1, sc, funcs, level)
    }
}

/// 第 i 个元素起的置空语句（元素处于移动位）
pub open spec fn spec_elems_nulls(
    es: Seq<SExpr>,
    i: int,
    sc: Map<Seq<char>, crate::type_check::VarInfo>,
    funcs: Map<Seq<char>, FSig>,
    level: nat,
) -> Seq<char>
    decreases es, es.len() - i,
{
    if i < 0 || i >= es.len() {
        seq![]
    } else {
        spec_move_nulls(es[i], true, sc, funcs, level) + spec_elems_nulls(es, i + 1, sc, funcs, level)
    }
}

/// 规律：has_move_nulls 为假时 emit_move_nulls 什么也不发出——返回语句据此决定是否走临时变量形式，
/// 从而保证源变量的置空总在返回之前
pub proof fn law_move_nulls_flagged(
    e: SExpr,
    is_top: bool,
    sc: Map<Seq<char>, crate::type_check::VarInfo>,
    funcs: Map<Seq<char>, FSig>,
    level: nat,
)
    ensures
        !spec_has_move_nulls(e, is_top, funcs) ==> spec_move_nulls(e, is_top, sc, funcs, level) =~= Seq::<char>::empty(),
    decreases e, 1int,
{
    match e {
        SExpr::Neg(x) => law_move_nulls_flagged(*x, false, sc, funcs, level),
        SExpr::Bin { lhs, rhs, .. } => {
            law_move_nulls_flagged(*lhs, false, sc, funcs, level);
            law_move_nulls_flagged(*rhs, false, sc, funcs, level);
        },
        SExpr::Call { name, args } => {
            if funcs.contains_key(name) {
                lemma_args_nulls_flagged(args, funcs[name], 0, sc, funcs, level);
            }
        },
        SExpr::Convert { arg, .. } => law_move_nulls_flagged(*arg, false, sc, funcs, level),
        SExpr::DArrLit { elems, .. } => lemma_elems_nulls_flagged(elems, 0, sc, funcs, level),
        SExpr::Sub { s, .. } => law_move_nulls_flagged(*s, false, sc, funcs, level),
        SExpr::TupExpr { elems, .. } => lemma_elems_nulls_flagged(elems, 0, sc, funcs, level),
        _ => {},
    }
}

proof fn lemma_args_nulls_flagged(
    args: Seq<SExpr>,
    sig: FSig,
    i: int,
    sc: Map<Seq<char>, crate::type_check::VarInfo>,
    funcs: Map<Seq<char>, FSig>,
    level: nat,
)
    ensures
        !spec_args_move_nulls(args, sig, i, funcs) ==> spec_args_nulls(args, sig, i, sc, funcs, level) =~= Seq::<char>::empty(),
    decreases args, args.len() - i,
{
    if 0 <= i < args.len() && i < sig.params.len() {
        law_move_nulls_flagged(args[i], true, sc, funcs, level);
        lemma_args_nulls_flagged(args, sig, i + 1, sc, funcs, level);
    }
}

proof fn lemma_elems_nulls_flagged(
    es: Seq<SExpr>,
    i: int,
    sc: Map<Seq<char>, crate::type_check::VarInfo>,
    funcs: Map<Seq<char>, FSig>,
    level: nat,
)
    ensures
        !spec_elems_move_nulls(es, i, funcs) ==> spec_elems_nulls(es, i, sc, funcs, level) =~= Seq::<char>::empty(),
    decreases es, es.len() - i,
{
    if 0 <= i < es.len() {
        law_move_nulls_flagged(es[i], true, sc, funcs, level);
        lemma_elems_nulls_flagged(es, i + 1, sc, funcs, level);
    }
}

pub fn emit_move_nulls(e: &Expr, is_top: bool, scope: &Scope, sigs: &FuncTable, out: &mut Vec<char>, level: usize)
    ensures
        final(out)@ == old(out)@ + spec_move_nulls(e@, is_top, scope.view(), sigs.view(), level as nat),
    decreases e, 1int,
{
    match e {
        Expr::Var(name) => {
            if is_top {
                if let Some(v) = scope.get(name.as_str()) {
                    if is_owned(v.ty) {
                        let ghost start = out@;
                        indent(out, level);
                        push_cname(name.as_str(), out);
                        push_str_chars(" = NULL;\n", out);
                        assert(out@ =~= start + (spec_indent(level as nat) + spec_cname(name@) + " = NULL;\n"@));
                    }
                }
            }
        },
        Expr::Neg(x) => emit_move_nulls(x, false, scope, sigs, out, level),
        Expr::Bin { lhs, rhs, .. } => {
            let ghost start = out@;
            emit_move_nulls(lhs, false, scope, sigs, out, level);
            emit_move_nulls(rhs, false, scope, sigs, out, level);
            assert(out@ =~= start + (spec_move_nulls((**lhs)@, false, scope.view(), sigs.view(), level as nat)
                + spec_move_nulls((**rhs)@, false, scope.view(), sigs.view(), level as nat)));
        },
        Expr::Call { name, args } => {
            if let Some(sig) = sigs.get(name.as_str()) {
                args_nulls(args, sig, scope, sigs, out, level);
            } else {
                assert(out@ =~= old(out)@ + Seq::<char>::empty());
            }
        },
        Expr::Convert { arg, .. } => emit_move_nulls(arg, false, scope, sigs, out, level),
        Expr::DArrLit { elems, .. } => elems_nulls(elems, scope, sigs, out, level),
        Expr::Sub { s, .. } => emit_move_nulls(s, false, scope, sigs, out, level),
        Expr::TupExpr { elems, .. } => elems_nulls(elems, scope, sigs, out, level),
        _ => {},
    }
}

fn args_nulls(
    args: &Vec<Expr>,
    sig: &crate::type_check::FuncSig,
    scope: &Scope,
    sigs: &FuncTable,
    out: &mut Vec<char>,
    level: usize,
)
    ensures
        final(out)@ == old(out)@ + spec_args_nulls(
            exprs_view(args@),
            fsig_view(*sig),
            0,
            scope.view(),
            sigs.view(),
            level as nat,
        ),
    decreases args, 0int,
{
    let ghost av = exprs_view(args@);
    let ghost fs = fsig_view(*sig);
    let ghost start = out@;
    let mut i: usize = 0;
    while i < args.len() && i < sig.params.len()
        invariant
            i <= args@.len(),
            av == exprs_view(args@),
            fs == fsig_view(*sig),
            start + spec_args_nulls(av, fs, 0, scope.view(), sigs.view(), level as nat) == out@
                + spec_args_nulls(av, fs, i as int, scope.view(), sigs.view(), level as nat),
        decreases args@.len() - i,
    {
        proof {
            assert(av[i as int] == args@[i as int]@);
        }
        let ghost before = out@;
        let borrowed = i < sig.borrows.len() && sig.borrows[i];
        if is_owned(sig.params[i]) && !borrowed {
            emit_move_nulls(&args[i], true, scope, sigs, out, level);
        }
        proof {
            let rest = spec_args_nulls(av, fs, i + 1, scope.view(), sigs.view(), level as nat);
            let here = if arg_moves(fs, i as int) {
                spec_move_nulls(av[i as int], true, scope.view(), sigs.view(), level as nat)
            } else {
                seq![]
            };
            assert(out@ == before + here);
            assert(before + (here + rest) =~= out@ + rest);
        }
        i = i + 1;
    }
    proof {
        assert(out@ + spec_args_nulls(av, fs, i as int, scope.view(), sigs.view(), level as nat) =~= out@);
    }
}

fn elems_nulls(es: &Vec<Expr>, scope: &Scope, sigs: &FuncTable, out: &mut Vec<char>, level: usize)
    ensures
        final(out)@ == old(out)@ + spec_elems_nulls(exprs_view(es@), 0, scope.view(), sigs.view(), level as nat),
    decreases es, 0int,
{
    let ghost v = exprs_view(es@);
    let ghost start = out@;
    let mut i: usize = 0;
    while i < es.len()
        invariant
            i <= es@.len(),
            v == exprs_view(es@),
            start + spec_elems_nulls(v, 0, scope.view(), sigs.view(), level as nat) == out@ + spec_elems_nulls(
                v,
                i as int,
                scope.view(),
                sigs.view(),
                level as nat,
            ),
        decreases es@.len() - i,
    {
        proof {
            assert(v[i as int] == es@[i as int]@);
        }
        let ghost before = out@;
        emit_move_nulls(&es[i], true, scope, sigs, out, level);
        proof {
            let rest = spec_elems_nulls(v, i + 1, scope.view(), sigs.view(), level as nat);
            let here = spec_move_nulls(v[i as int], true, scope.view(), sigs.view(), level as nat);
            assert(before + (here + rest) =~= out@ + rest);
        }
        i = i + 1;
    }
    proof {
        assert(out@ + spec_elems_nulls(v, i as int, scope.view(), sigs.view(), level as nat) =~= out@);
    }
}


// ───────────────────────── 表达式 → C ─────────────────────────

/// 生成表达式时的环境：变量表、函数表、结构体表、类型表
pub struct GEnv {
    pub sc: Map<Seq<char>, VarInfo>,
    pub funcs: Map<Seq<char>, FSig>,
    pub structs: Seq<StructDef>,
    pub tb: TbView,
}

impl GEnv {
    /// 作用域中登记（或覆盖）一个变量后的环境
    pub open spec fn insert_var(self, name: Seq<char>, v: VarInfo) -> GEnv {
        GEnv { sc: self.sc.insert(name, v), ..self }
    }
}

pub open spec fn genv(scope: Scope, funcs: FuncTable, structs: Seq<StructDef>, tb: TbView) -> GEnv {
    GEnv { sc: scope.view(), funcs: funcs.view(), structs, tb }
}

/// 推导出的类型（推导失败按 i64），借用视同 str
#[verifier::opaque]
pub open spec fn gty(e: SExpr, g: GEnv) -> Ty {
    let t = match spec_ty_of(e, var_tys(g.sc), g.funcs, g.structs, g.tb) {
        Ok(t) => t,
        Err(_) => Ty::I64,
    };
    if t == Ty::BorrowStr {
        Ty::Str
    } else {
        t
    }
}

/// toi 字面量的值
pub open spec fn literal_value(s: Seq<char>) -> int {
    if s.len() > 0 && s[0] == '-' {
        -decimal_value(sign_stripped(s))
    } else {
        decimal_value(sign_stripped(s))
    }
}

/// 浮点字面量的 C 文本：源码文本；没有小数点与指数时补 .0
pub open spec fn float_text(t: Seq<char>) -> Seq<char> {
    if t.contains('.') || t.contains('e') {
        t
    } else {
        t + ".0"@
    }
}

/// 变量名的 C 标识符（仅用于变量表达式）
pub open spec fn var_cname(e: SExpr) -> Seq<char> {
    match e {
        SExpr::Var(n) => spec_cname(n),
        _ => seq![],
    }
}

/// map 键实参：str 键原样，整数键转 long long
pub open spec fn key_arg(m: MapDef, ks: Seq<char>) -> Seq<char> {
    if m.key == Ty::Str {
        ks
    } else {
        "(long long)("@ + ks + ")"@
    }
}

/// 生成表达式不会触及不可能路径：下标、len、has、keys、values 的目标是合适的变量，
/// 字面量容器不出现在表达式位，结构体与字段存在，转换的实参可推导，toi 的字面量可解析
pub open spec fn emit_safe(e: SExpr, g: GEnv) -> bool
    decreases e, 0int,
{
    match e {
        SExpr::Index(b, ix) => {
            let bt = gty(*b, g);
            &&& *b is Var
            &&& emit_safe(*ix, g)
            &&& ((bt is MapOf && (bt->MapOf_0 as int) < g.tb.maps.len()) || (bt is DArr && (bt->DArr_0 as int)
                < g.tb.darrs.len()) || bt == Ty::Str || (bt is Arr && (bt->Arr_0 as int) < g.tb.arrs.len()))
        },
        SExpr::Len(x) => {
            let bt = gty(*x, g);
            ||| bt == Ty::Str && emit_safe(*x, g)
            ||| (bt is DArr || bt is MapOf) && *x is Var
            ||| bt is Arr && (bt->Arr_0 as int) < g.tb.arrs.len()
        },
        SExpr::Has { map, key } => {
            let bt = gty(*map, g);
            &&& *map is Var
            &&& bt is MapOf && (bt->MapOf_0 as int) < g.tb.maps.len()
            &&& emit_safe(*key, g)
        },
        SExpr::Keys(m) => {
            let bt = gty(*m, g);
            &&& *m is Var
            &&& bt is MapOf && (bt->MapOf_0 as int) < g.tb.maps.len()
        },
        SExpr::Values(m) => {
            let bt = gty(*m, g);
            &&& *m is Var
            &&& bt is MapOf && (bt->MapOf_0 as int) < g.tb.maps.len()
        },
        SExpr::TupExpr { elems, tup } => {
            &&& (tup as int) < g.tb.tuples.len()
            &&& elems.len() <= g.tb.tuples[tup as int].len()
            &&& g.tb.tuples[tup as int].len() * 8 <= usize::MAX
            &&& forall|i: int| 0 <= i < elems.len() ==> emit_safe(#[trigger] elems[i], g)
        },
        SExpr::StructLit { name, fields, .. } => {
            let k = struct_pos(g.structs, name, 0);
            &&& k < g.structs.len()
            &&& forall|i: int|
                0 <= i < fields.len() ==> emit_safe(#[trigger] fields[i].1, g) && match fields[i].0 {
                    Some(n) => field_pos(g.structs[k].fields@, n, 0) < g.structs[k].fields@.len(),
                    None => i < g.structs[k].fields@.len(),
                }
        },
        SExpr::Field(b, _) => {
            let bt = gty(*b, g);
            &&& emit_safe(*b, g)
            &&& (bt is Struct ==> (bt->Struct_0 as int) < g.structs.len())
        },
        SExpr::Sub { s, start, n } => emit_safe(*s, g) && emit_safe(*start, g) && emit_safe(*n, g),
        SExpr::Sel { cond, a, b } => emit_safe(*cond, g) && emit_safe(*a, g) && emit_safe(*b, g),
        SExpr::Borrow(x) => emit_safe(*x, g),
        SExpr::Neg(x) => emit_safe(*x, g),
        SExpr::Bin { lhs, rhs, .. } => emit_safe(*lhs, g) && emit_safe(*rhs, g),
        SExpr::Call { args, .. } => forall|i: int| 0 <= i < args.len() ==> emit_safe(#[trigger] args[i], g),
        SExpr::Convert { name, arg } => {
            &&& emit_safe(*arg, g)
            &&& (name != "copy"@ ==> spec_ty_of(*arg, var_tys(g.sc), g.funcs, g.structs, g.tb) is Ok)
            &&& (name == "toi"@ && *arg is Str ==> parses_i64(arg->Str_0))
        },
        SExpr::ArrLit { .. } => false,
        SExpr::DArrLit { .. } => false,
        SExpr::MapLit { .. } => false,
        SExpr::Push { .. } => false,
        SExpr::Pop { .. } => false,
        SExpr::Del { .. } => false,
        _ => true,
    }
}

/// 绑定到 str 变量：字面量与 tos 结果复制成独立堆内存
pub open spec fn spec_emit_bind(e: SExpr, g: GEnv) -> Seq<char>
    decreases e, 1int,
{
    if spec_binds_dup(e) {
        "__t_dup("@ + spec_emit_expr(e, g) + ")"@
    } else {
        spec_emit_expr(e, g)
    }
}

/// 以 ", " 连接的实参
pub open spec fn spec_emit_list(es: Seq<SExpr>, g: GEnv) -> Seq<char>
    decreases es,
{
    if es.len() == 0 {
        seq![]
    } else if es.len() == 1 {
        spec_emit_expr(es[0], g)
    } else {
        spec_emit_list(es.subrange(0, es.len() - 1), g) + ", "@ + spec_emit_expr(es[es.len() - 1], g)
    }
}

/// 元组表达式的逐元素存储（str 元素复制）
pub open spec fn spec_emit_tuple_elems(es: Seq<SExpr>, tys: Seq<Ty>, g: GEnv) -> Seq<char>
    decreases es,
{
    if es.len() == 0 {
        seq![]
    } else {
        let i = es.len() - 1;
        spec_emit_tuple_elems(es.subrange(0, i), tys, g) + " ((long long*)__t_h)["@ + radix_text(i as nat, 10)
            + "] = (long long)("@ + (if tys[i] == Ty::Str {
            spec_emit_bind(es[i], g)
        } else {
            spec_emit_expr(es[i], g)
        }) + ");"@
    }
}

/// 结构体字面量的构造实参表（按字段声明顺序放置；未给出的位置为空）
pub open spec fn lit_args(fs: Seq<(Option<Seq<char>>, SExpr)>, sd: StructDef, g: GEnv) -> Seq<Seq<char>>
    decreases fs,
{
    if fs.len() == 0 {
        seq![]
    } else {
        let i = fs.len() - 1;
        let prev = lit_args(fs.subrange(0, i), sd, g);
        let idx = match fs[i].0 {
            Some(n) => field_pos(sd.fields@, n, 0),
            None => i,
        };
        let ft = sd.fields@[idx].ty;
        let a = if ft == Ty::Str {
            spec_emit_bind(fs[i].1, g)
        } else {
            spec_emit_expr(fs[i].1, g)
        };
        let padded = if prev.len() <= idx {
            prev + Seq::new((idx + 1 - prev.len()) as nat, |j: int| Seq::<char>::empty())
        } else {
            prev
        };
        padded.update(idx, a)
    }
}

pub open spec fn join_comma(v: Seq<Seq<char>>) -> Seq<char>
    decreases v.len(),
{
    if v.len() == 0 {
        seq![]
    } else if v.len() == 1 {
        v[0]
    } else {
        join_comma(v.drop_last()) + ", "@ + v.last()
    }
}

/// 二元运算：整数除法走除零检查；str 拼接与比较走运行时函数；其余为带括号的 C 运算
pub open spec fn spec_emit_bin(op: BinOp, lt: Ty, rt: Ty, l: Seq<char>, r: Seq<char>) -> Seq<char> {
    let ints = (lt == Ty::I32 || lt == Ty::I64) && (rt == Ty::I32 || rt == Ty::I64);
    if op == BinOp::Div && ints {
        (if lt == Ty::I32 && rt == Ty::I32 {
            "__t_idiv_i("@
        } else {
            "__t_idiv_l("@
        }) + l + ", "@ + r + ")"@
    } else if op == BinOp::Add && lt == Ty::Str && rt == Ty::Str {
        "__t_cat("@ + l + ", "@ + r + ")"@
    } else if (op == BinOp::Eq || op == BinOp::Ne) && lt == Ty::Str && rt == Ty::Str {
        (if op == BinOp::Eq {
            "__t_seq("@
        } else {
            "__t_sne("@
        }) + l + ", "@ + r + ")"@
    } else {
        "("@ + l + " "@ + spec_binop_str(op) + " "@ + r + ")"@
    }
}

/// 表达式的 C 文本
pub open spec fn spec_emit_expr(e: SExpr, g: GEnv) -> Seq<char>
    decreases e, 0int,
{
    match e {
        SExpr::Int(v) => int_text(v as int),
        SExpr::Float(t) => float_text(t),
        SExpr::Str(s) => spec_c_str_lit(s),
        SExpr::Bool(b) => if b {
            "1"@
        } else {
            "0"@
        },
        SExpr::Var(n) => spec_cname(n),
        SExpr::Index(b, ix) => {
            let bt = gty(*b, g);
            let be = var_cname(*b);
            let is = spec_emit_expr(*ix, g);
            if bt is MapOf && (bt->MapOf_0 as int) < g.tb.maps.len() {
                let m = g.tb.maps[bt->MapOf_0 as int];
                "__t_mget_"@ + spec_key_wire(m.key) + spec_val_wire(m.val) + "("@ + be + ", "@ + key_arg(m, is)
                    + ")"@
            } else if bt is DArr && (bt->DArr_0 as int) < g.tb.darrs.len() {
                let el = g.tb.darrs[bt->DArr_0 as int].elem;
                (if el == Ty::F64 {
                    "__t_dget_f"@
                } else if el == Ty::Str {
                    "__t_dget_s"@
                } else {
                    "__t_dget_i"@
                }) + "("@ + be + ", "@ + is + ")"@
            } else if bt == Ty::Str {
                "__t_sget("@ + be + ", "@ + is + ")"@
            } else {
                be + "[__t_idx("@ + radix_text(g.tb.arrs[bt->Arr_0 as int].len as nat, 10) + ", (long long)("@ + is
                    + "))]"@
            }
        },
        SExpr::Len(x) => {
            let bt = gty(*x, g);
            if bt == Ty::Str {
                "(long long)strlen("@ + spec_emit_expr(*x, g) + ")"@
            } else if bt is DArr {
                "__t_dlen("@ + var_cname(*x) + ")"@
            } else if bt is MapOf {
                "__t_mlen("@ + var_cname(*x) + ")"@
            } else {
                "(long long)"@ + radix_text(g.tb.arrs[bt->Arr_0 as int].len as nat, 10)
            }
        },
        SExpr::Has { map, key } => {
            let m = g.tb.maps[gty(*map, g)->MapOf_0 as int];
            "__t_mhas_"@ + spec_key_wire(m.key) + "("@ + var_cname(*map) + ", "@ + key_arg(
                m,
                spec_emit_expr(*key, g),
            ) + ")"@
        },
        SExpr::Keys(mp) => {
            let m = g.tb.maps[gty(*mp, g)->MapOf_0 as int];
            "__t_mkeys_"@ + spec_key_wire(m.key) + "("@ + var_cname(*mp) + ")"@
        },
        SExpr::Values(mp) => {
            let m = g.tb.maps[gty(*mp, g)->MapOf_0 as int];
            "__t_mvalues_"@ + spec_val_wire(m.val) + "("@ + var_cname(*mp) + ")"@
        },
        SExpr::TupExpr { elems, tup } => {
            let tys = g.tb.tuples[tup as int];
            "({ void* __t_h = __t_malloc("@ + radix_text((tys.len() * 8) as nat, 10) + ");"@
                + spec_emit_tuple_elems(elems, tys, g) + " return __t_h; })"@
        },
        SExpr::Sub { s, start, n } => "__t_sub("@ + spec_emit_expr(*s, g) + ", (long long)("@ + spec_emit_expr(
            *start,
            g,
        ) + "), (long long)("@ + spec_emit_expr(*n, g) + "))"@,
        SExpr::Sel { cond, a, b } => "(("@ + spec_emit_expr(*cond, g) + ") ? ("@ + spec_emit_expr(*a, g)
            + ") : ("@ + spec_emit_expr(*b, g) + "))"@,
        SExpr::StructLit { name, fields, .. } => {
            let sd = g.structs[struct_pos(g.structs, name, 0)];
            "__t_new_"@ + spec_cname(sd.name@) + "("@ + join_comma(lit_args(fields, sd, g)) + ")"@
        },
        SExpr::Field(b, f) => spec_emit_expr(*b, g) + "->"@ + spec_cname(f),
        SExpr::Borrow(x) => spec_emit_expr(*x, g),
        SExpr::Neg(x) => "(-"@ + spec_emit_expr(*x, g) + ")"@,
        SExpr::Bin { op, lhs, rhs } => spec_emit_bin(
            op,
            gty(*lhs, g),
            gty(*rhs, g),
            spec_emit_expr(*lhs, g),
            spec_emit_expr(*rhs, g),
        ),
        SExpr::Call { name, args } => spec_cname(name) + "("@ + spec_emit_list(args, g) + ")"@,
        SExpr::Convert { name, arg } => {
            let inner = spec_emit_expr(*arg, g);
            let t = gty(*arg, g);
            if name == "copy"@ {
                "__t_dup("@ + inner + ")"@
            } else if name == "tof"@ {
                "__t_tof("@ + inner + ")"@
            } else if name == "toi"@ {
                if t == Ty::Str {
                    match *arg {
                        SExpr::Str(s) => "("@ + int_text(literal_value(s)) + "LL)"@,
                        _ => seq![],
                    }
                } else {
                    "((long long)"@ + inner + ")"@
                }
            } else if t == Ty::Str {
                inner
            } else if t == Ty::F64 {
                "__t_tos_f("@ + inner + ")"@
            } else if t == Ty::Bool {
                "__t_tos_b((int)"@ + inner + ")"@
            } else {
                "__t_tos_ll((long long)"@ + inner + ")"@
            }
        },
        _ => seq![],
    }
}


// ───────────────────────── 表达式 → C（执行代码） ─────────────────────────

/// 推导类型（失败按 i64），借用视同 str
pub(crate) fn gty_of(e: &Expr, scope: &Scope, sigs: &FuncTable, structs: &[StructDef], tables: &TypeTables) -> (r: Ty)
    ensures
        r == gty(e@, genv(*scope, *sigs, structs@, tables@)),
{
    proof {
        reveal(gty);
    }
    match ty_of(e, scope, sigs, structs, tables) {
        Ok(t) => norm(t),
        Err(_) => norm(Ty::I64),
    }
}

/// 字符串是否含某字符
fn has_char(s: &str, c: char) -> (r: bool)
    ensures
        r == s@.contains(c),
{
    let cs = chars_of(s);
    let mut i: usize = 0;
    while i < cs.len()
        invariant
            i <= cs@.len(),
            cs@ == s@,
            forall|j: int| 0 <= j < i ==> cs@[j] != c,
        decreases cs@.len() - i,
    {
        if cs[i] == c {
            assert(s@[i as int] == c);
            return true;
        }
        i = i + 1;
    }
    false
}

/// toi 字面量的值
fn literal_i64(s: &str) -> (r: i64)
    requires
        parses_i64(s@),
    ensures
        r as int == literal_value(s@),
{
    let cs = chars_of(s);
    let neg = cs.len() > 0 && cs[0] == '-';
    let start: usize = if cs.len() > 0 && (cs[0] == '+' || cs[0] == '-') {
        1
    } else {
        0
    };
    let ghost d = sign_stripped(s@);
    assert(d =~= cs@.subrange(start as int, cs@.len() as int));
    proof {
        crate::lexer::lemma_decimal_prefix(d, 0);
        assert(d.take(0) =~= Seq::<char>::empty());
    }
    let mut acc: i128 = 0;
    let mut i: usize = start;
    while i < cs.len()
        invariant
            start <= i <= cs@.len(),
            cs@ == s@,
            d == sign_stripped(s@),
            d =~= cs@.subrange(start as int, cs@.len() as int),
            parses_i64(s@),
            acc as int == decimal_value(d.take(i - start)),
            0 <= acc <= decimal_value(d),
        decreases cs@.len() - i,
    {
        let c = cs[i];
        assert(d[i - start] == c);
        assert(crate::text::is_digit(d[i - start]));
        assert(d.take(i - start + 1).drop_last() =~= d.take(i - start));
        proof {
            crate::lexer::lemma_decimal_prefix(d, i - start + 1);
        }
        acc = acc * 10 + ((c as u32 - '0' as u32) as i128);
        i = i + 1;
    }
    assert(d.take(d.len() as int) =~= d);
    if neg {
        (0 - acc) as i64
    } else {
        acc as i64
    }
}

/// 变量表达式的 C 标识符
pub(crate) fn push_var_cname(e: &Expr, out: &mut Vec<char>)
    ensures
        final(out)@ == old(out)@ + var_cname(e@),
{
    match e {
        Expr::Var(n) => push_cname(n.as_str(), out),
        _ => {},
    }
}

/// map 键实参
pub(crate) fn push_key_arg(m: MapDef, ks: &Vec<char>, out: &mut Vec<char>)
    ensures
        final(out)@ == old(out)@ + key_arg(m, ks@),
{
    let ghost start = out@;
    if m.key == Ty::Str {
        push_all(ks, out);
    } else {
        push_str_chars("(long long)(", out);
        push_all(ks, out);
        push_str_chars(")", out);
        assert(out@ =~= start + key_arg(m, ks@));
    }
}

/// 追加全部字符
pub(crate) fn push_all(v: &Vec<char>, out: &mut Vec<char>)
    ensures
        final(out)@ == old(out)@ + v@,
{
    let ghost start = out@;
    let mut i: usize = 0;
    while i < v.len()
        invariant
            i <= v@.len(),
            out@ == start + v@.take(i as int),
        decreases v@.len() - i,
    {
        out.push(v[i]);
        assert(v@.take(i + 1) =~= v@.take(i as int).push(v@[i as int]));
        i = i + 1;
    }
    assert(v@.take(v@.len() as int) =~= v@);
}

/// 表达式的 C 文本
#[verifier::spinoff_prover]
#[verifier::rlimit(60)]
pub fn emit_expr(e: &Expr, scope: &Scope, sigs: &FuncTable, structs: &[StructDef], tables: &TypeTables, out: &mut Vec<char>)
    requires
        emit_safe(e@, genv(*scope, *sigs, structs@, tables@)),
    ensures
        final(out)@ == old(out)@ + spec_emit_expr(e@, genv(*scope, *sigs, structs@, tables@)),
    decreases e, 1int,
{
    let ghost g = genv(*scope, *sigs, structs@, tables@);
    let ghost start = out@;
    match e {
        Expr::Int(v) => push_int(*v, out),
        Expr::Float(t) => {
            push_str_chars(t.as_str(), out);
            if !has_char(t.as_str(), '.') && !has_char(t.as_str(), 'e') {
                push_str_chars(".0", out);
            }
        },
        Expr::Str(s) => push_c_str_lit(s.as_str(), out),
        Expr::Bool(b) => push_str_chars(if *b { "1" } else { "0" }, out),
        Expr::Var(n) => push_cname(n.as_str(), out),
        Expr::Index(..) => emit_index(e, scope, sigs, structs, tables, out),
        Expr::Len(..) => emit_len(e, scope, sigs, structs, tables, out),
        Expr::Has { .. } | Expr::Keys(..) | Expr::Values(..) => emit_map_query(e, scope, sigs, structs, tables, out),
        Expr::TupExpr { .. } => emit_tuple(e, scope, sigs, structs, tables, out),
        Expr::Sub { .. } | Expr::Sel { .. } => emit_sub_sel(e, scope, sigs, structs, tables, out),
        Expr::StructLit { .. } => emit_struct_lit(e, scope, sigs, structs, tables, out),
        Expr::Field(..) | Expr::Borrow(..) | Expr::Neg(..) => emit_unary(e, scope, sigs, structs, tables, out),
        Expr::Bin { .. } => emit_bin(e, scope, sigs, structs, tables, out),
        Expr::Call { .. } => emit_call(e, scope, sigs, structs, tables, out),
        Expr::Convert { .. } => emit_convert(e, scope, sigs, structs, tables, out),
        _ => {},
    }
    assert(out@ =~= start + spec_emit_expr(e@, g));
}

/// 绑定到 str 变量的值
pub fn emit_bind(e: &Expr, scope: &Scope, sigs: &FuncTable, structs: &[StructDef], tables: &TypeTables, out: &mut Vec<char>)
    requires
        emit_safe(e@, genv(*scope, *sigs, structs@, tables@)),
    ensures
        final(out)@ == old(out)@ + spec_emit_bind(e@, genv(*scope, *sigs, structs@, tables@)),
    decreases e, 2int,
{
    let ghost start = out@;
    if binds_dup(e) {
        push_str_chars("__t_dup(", out);
        emit_expr(e, scope, sigs, structs, tables, out);
        push_str_chars(")", out);
        assert(out@ =~= start + spec_emit_bind(e@, genv(*scope, *sigs, structs@, tables@)));
    } else {
        emit_expr(e, scope, sigs, structs, tables, out);
    }
}

pub(crate) fn emit_list(es: &Vec<Expr>, scope: &Scope, sigs: &FuncTable, structs: &[StructDef], tables: &TypeTables, out: &mut Vec<char>)
    requires
        forall|i: int| 0 <= i < es@.len() ==> emit_safe(#[trigger] exprs_view(es@)[i], genv(*scope, *sigs, structs@, tables@)),
    ensures
        final(out)@ == old(out)@ + spec_emit_list(exprs_view(es@), genv(*scope, *sigs, structs@, tables@)),
    decreases es, 0int,
{
    let ghost g = genv(*scope, *sigs, structs@, tables@);
    let ghost start = out@;
    let ghost v = exprs_view(es@);
    let mut i: usize = 0;
    while i < es.len()
        invariant
            i <= es@.len(),
            v == exprs_view(es@),
            g == genv(*scope, *sigs, structs@, tables@),
            forall|k: int| 0 <= k < es@.len() ==> emit_safe(#[trigger] v[k], g),
            out@ == start + spec_emit_list(v.take(i as int), g),
        decreases es@.len() - i,
    {
        proof {
            assert(v[i as int] == es@[i as int]@);
            assert(emit_safe(v[i as int], g));
        }
        if i > 0 {
            push_str_chars(", ", out);
        }
        emit_expr(&es[i], scope, sigs, structs, tables, out);
        assert(v.take(i + 1).subrange(0, i as int) =~= v.take(i as int));
        i = i + 1;
    }
    assert(v.take(es@.len() as int) =~= v);
}

#[verifier::spinoff_prover]
#[verifier::rlimit(60)]
fn emit_index(e: &Expr, scope: &Scope, sigs: &FuncTable, structs: &[StructDef], tables: &TypeTables, out: &mut Vec<char>)
    requires
        e is Index,
        emit_safe(e@, genv(*scope, *sigs, structs@, tables@)),
    ensures
        final(out)@ == old(out)@ + spec_emit_expr(e@, genv(*scope, *sigs, structs@, tables@)),
    decreases e, 0int,
{
    let ghost g = genv(*scope, *sigs, structs@, tables@);
    let ghost start = out@;
    if let Expr::Index(b, ix) = e {
        let bt = gty_of(b, scope, sigs, structs, tables);
        let mut is: Vec<char> = Vec::new();
        emit_expr(ix, scope, sigs, structs, tables, &mut is);
        if let Some(m) = map_by_id(tables.maps.as_slice(), bt) {
            let m = *m;
            push_str_chars("__t_mget_", out);
            push_str_chars(map_key_wire(m.key), out);
            push_str_chars(map_val_wire(m.val), out);
            push_str_chars("(", out);
            push_var_cname(b, out);
            push_str_chars(", ", out);
            push_key_arg(m, &is, out);
            push_str_chars(")", out);
        } else if let Some(d) = darr_by_id(tables.darrs.as_slice(), bt) {
            let helper = if d.elem == Ty::F64 {
                "__t_dget_f"
            } else if d.elem == Ty::Str {
                "__t_dget_s"
            } else {
                "__t_dget_i"
            };
            push_str_chars(helper, out);
            push_str_chars("(", out);
            push_var_cname(b, out);
            push_str_chars(", ", out);
            push_all(&is, out);
            push_str_chars(")", out);
        } else if bt == Ty::Str {
            push_str_chars("__t_sget(", out);
            push_var_cname(b, out);
            push_str_chars(", ", out);
            push_all(&is, out);
            push_str_chars(")", out);
        } else {
            let (_, len) = arr_of(bt, tables);
            push_var_cname(b, out);
            push_str_chars("[__t_idx(", out);
            push_decimal(len, out);
            push_str_chars(", (long long)(", out);
            push_all(&is, out);
            push_str_chars("))]", out);
        }
        assert(out@ =~= start + spec_emit_expr(e@, g));
    }
}

#[verifier::spinoff_prover]
fn emit_len(e: &Expr, scope: &Scope, sigs: &FuncTable, structs: &[StructDef], tables: &TypeTables, out: &mut Vec<char>)
    requires
        e is Len,
        emit_safe(e@, genv(*scope, *sigs, structs@, tables@)),
    ensures
        final(out)@ == old(out)@ + spec_emit_expr(e@, genv(*scope, *sigs, structs@, tables@)),
    decreases e, 0int,
{
    let ghost g = genv(*scope, *sigs, structs@, tables@);
    let ghost start = out@;
    if let Expr::Len(x) = e {
        let bt = gty_of(x, scope, sigs, structs, tables);
        if bt == Ty::Str {
            push_str_chars("(long long)strlen(", out);
            emit_expr(x, scope, sigs, structs, tables, out);
            push_str_chars(")", out);
        } else if bt.is_darr() {
            push_str_chars("__t_dlen(", out);
            push_var_cname(x, out);
            push_str_chars(")", out);
        } else if bt.is_map() {
            push_str_chars("__t_mlen(", out);
            push_var_cname(x, out);
            push_str_chars(")", out);
        } else {
            let (_, len) = arr_of(bt, tables);
            push_str_chars("(long long)", out);
            push_decimal(len, out);
        }
        assert(out@ =~= start + spec_emit_expr(e@, g));
    }
}

#[verifier::spinoff_prover]
fn emit_map_query(e: &Expr, scope: &Scope, sigs: &FuncTable, structs: &[StructDef], tables: &TypeTables, out: &mut Vec<char>)
    requires
        e is Has || e is Keys || e is Values,
        emit_safe(e@, genv(*scope, *sigs, structs@, tables@)),
    ensures
        final(out)@ == old(out)@ + spec_emit_expr(e@, genv(*scope, *sigs, structs@, tables@)),
    decreases e, 0int,
{
    let ghost g = genv(*scope, *sigs, structs@, tables@);
    let ghost start = out@;
    match e {
        Expr::Has { map, key } => {
            let bt = gty_of(map, scope, sigs, structs, tables);
            let m = *map_by_id(tables.maps.as_slice(), bt).unwrap();
            let mut ks: Vec<char> = Vec::new();
            emit_expr(key, scope, sigs, structs, tables, &mut ks);
            push_str_chars("__t_mhas_", out);
            push_str_chars(map_key_wire(m.key), out);
            push_str_chars("(", out);
            push_var_cname(map, out);
            push_str_chars(", ", out);
            push_key_arg(m, &ks, out);
            push_str_chars(")", out);
        },
        Expr::Keys(mp) => {
            let bt = gty_of(mp, scope, sigs, structs, tables);
            let m = *map_by_id(tables.maps.as_slice(), bt).unwrap();
            push_str_chars("__t_mkeys_", out);
            push_str_chars(map_key_wire(m.key), out);
            push_str_chars("(", out);
            push_var_cname(mp, out);
            push_str_chars(")", out);
        },
        Expr::Values(mp) => {
            let bt = gty_of(mp, scope, sigs, structs, tables);
            let m = *map_by_id(tables.maps.as_slice(), bt).unwrap();
            push_str_chars("__t_mvalues_", out);
            push_str_chars(map_val_wire(m.val), out);
            push_str_chars("(", out);
            push_var_cname(mp, out);
            push_str_chars(")", out);
        },
        _ => {},
    }
    assert(out@ =~= start + spec_emit_expr(e@, g));
}

#[verifier::spinoff_prover]
fn emit_bin(e: &Expr, scope: &Scope, sigs: &FuncTable, structs: &[StructDef], tables: &TypeTables, out: &mut Vec<char>)
    requires
        e is Bin,
        emit_safe(e@, genv(*scope, *sigs, structs@, tables@)),
    ensures
        final(out)@ == old(out)@ + spec_emit_expr(e@, genv(*scope, *sigs, structs@, tables@)),
    decreases e, 0int,
{
    let ghost g = genv(*scope, *sigs, structs@, tables@);
    let ghost start = out@;
    if let Expr::Bin { op, lhs, rhs } = e {
        let lt = gty_of(lhs, scope, sigs, structs, tables);
        let rt = gty_of(rhs, scope, sigs, structs, tables);
        let mut l: Vec<char> = Vec::new();
        let mut r: Vec<char> = Vec::new();
        emit_expr(lhs, scope, sigs, structs, tables, &mut l);
        emit_expr(rhs, scope, sigs, structs, tables, &mut r);
        let ints = (lt == Ty::I32 || lt == Ty::I64) && (rt == Ty::I32 || rt == Ty::I64);
        if *op == BinOp::Div && ints {
            push_str_chars(if lt == Ty::I32 && rt == Ty::I32 { "__t_idiv_i(" } else { "__t_idiv_l(" }, out);
            push_all(&l, out);
            push_str_chars(", ", out);
            push_all(&r, out);
            push_str_chars(")", out);
        } else if *op == BinOp::Add && lt == Ty::Str && rt == Ty::Str {
            push_str_chars("__t_cat(", out);
            push_all(&l, out);
            push_str_chars(", ", out);
            push_all(&r, out);
            push_str_chars(")", out);
        } else if (*op == BinOp::Eq || *op == BinOp::Ne) && lt == Ty::Str && rt == Ty::Str {
            push_str_chars(if *op == BinOp::Eq { "__t_seq(" } else { "__t_sne(" }, out);
            push_all(&l, out);
            push_str_chars(", ", out);
            push_all(&r, out);
            push_str_chars(")", out);
        } else {
            push_str_chars("(", out);
            push_all(&l, out);
            push_str_chars(" ", out);
            push_str_chars(op.c_str(), out);
            push_str_chars(" ", out);
            push_all(&r, out);
            push_str_chars(")", out);
        }
        assert(out@ =~= start + spec_emit_expr(e@, g));
    }
}

#[verifier::spinoff_prover]
#[verifier::rlimit(60)]
fn emit_convert(e: &Expr, scope: &Scope, sigs: &FuncTable, structs: &[StructDef], tables: &TypeTables, out: &mut Vec<char>)
    requires
        e is Convert,
        emit_safe(e@, genv(*scope, *sigs, structs@, tables@)),
    ensures
        final(out)@ == old(out)@ + spec_emit_expr(e@, genv(*scope, *sigs, structs@, tables@)),
    decreases e, 0int,
{
    let ghost g = genv(*scope, *sigs, structs@, tables@);
    let ghost start = out@;
    if let Expr::Convert { name, arg } = e {
        let mut inner: Vec<char> = Vec::new();
        emit_expr(arg, scope, sigs, structs, tables, &mut inner);
        let t = gty_of(arg, scope, sigs, structs, tables);
        if str_eq(name.as_str(), "copy") {
            push_str_chars("__t_dup(", out);
            push_all(&inner, out);
            push_str_chars(")", out);
        } else if str_eq(name.as_str(), "tof") {
            push_str_chars("__t_tof(", out);
            push_all(&inner, out);
            push_str_chars(")", out);
        } else if str_eq(name.as_str(), "toi") {
            if t == Ty::Str {
                if let Expr::Str(s) = &**arg {
                    assert((**arg)@ == SExpr::Str(s@));
                    let v = literal_i64(s.as_str());
                    push_str_chars("(", out);
                    push_int(v, out);
                    push_str_chars("LL)", out);
                }
            } else {
                push_str_chars("((long long)", out);
                push_all(&inner, out);
                push_str_chars(")", out);
            }
        } else if t == Ty::Str {
            push_all(&inner, out);
        } else if t == Ty::F64 {
            push_str_chars("__t_tos_f(", out);
            push_all(&inner, out);
            push_str_chars(")", out);
        } else if t == Ty::Bool {
            push_str_chars("__t_tos_b((int)", out);
            push_all(&inner, out);
            push_str_chars(")", out);
        } else {
            push_str_chars("__t_tos_ll((long long)", out);
            push_all(&inner, out);
            push_str_chars(")", out);
        }
        assert(out@ =~= start + spec_emit_expr(e@, g));
    }
}


#[verifier::spinoff_prover]
fn emit_tuple(e: &Expr, scope: &Scope, sigs: &FuncTable, structs: &[StructDef], tables: &TypeTables, out: &mut Vec<char>)
    requires
        e is TupExpr,
        emit_safe(e@, genv(*scope, *sigs, structs@, tables@)),
    ensures
        final(out)@ == old(out)@ + spec_emit_expr(e@, genv(*scope, *sigs, structs@, tables@)),
    decreases e, 0int,
{
    let ghost g = genv(*scope, *sigs, structs@, tables@);
    let ghost start = out@;
    if let Expr::TupExpr { elems, tup } = e {
        let td = &tables.tuples[*tup as usize];
        let ghost tys = td.elems@;
        assert(e@ == SExpr::TupExpr { elems: exprs_view(elems@), tup: *tup });
        assert(tables@.tuples == tuples_view(tables.tuples@));
        assert(tys == g.tb.tuples[*tup as int]);
        assert(exprs_view(elems@).len() == elems@.len());
        push_str_chars("({ void* __t_h = __t_malloc(", out);
        push_decimal((td.elems.len() * 8) as u64, out);
        push_str_chars(");", out);
        emit_tuple_elems(elems, td, scope, sigs, structs, tables, out);
        push_str_chars(" return __t_h; })", out);
        assert(out@ =~= start + spec_emit_expr(e@, g));
    }
}

pub open spec fn vecs_view(v: Seq<Vec<char>>) -> Seq<Seq<char>> {
    v.map_values(|x: Vec<char>| x@)
}

/// 以 ", " 连接
fn push_joined(v: &Vec<Vec<char>>, out: &mut Vec<char>)
    ensures
        final(out)@ == old(out)@ + join_comma(vecs_view(v@)),
{
    let ghost start = out@;
    let ghost w = vecs_view(v@);
    let mut k: usize = 0;
    while k < v.len()
        invariant
            k <= v@.len(),
            w == vecs_view(v@),
            out@ == start + join_comma(w.take(k as int)),
        decreases v@.len() - k,
    {
        if k > 0 {
            push_str_chars(", ", out);
        }
        push_all(&v[k], out);
        proof {
            assert(w.take(k + 1).drop_last() =~= w.take(k as int));
            assert(w[k as int] == v@[k as int]@);
        }
        k = k + 1;
    }
    assert(w.take(v@.len() as int) =~= w);
}

#[verifier::spinoff_prover]
#[verifier::rlimit(60)]
fn emit_struct_lit(e: &Expr, scope: &Scope, sigs: &FuncTable, structs: &[StructDef], tables: &TypeTables, out: &mut Vec<char>)
    requires
        e is StructLit,
        emit_safe(e@, genv(*scope, *sigs, structs@, tables@)),
    ensures
        final(out)@ == old(out)@ + spec_emit_expr(e@, genv(*scope, *sigs, structs@, tables@)),
    decreases e, 0int,
{
    let ghost g = genv(*scope, *sigs, structs@, tables@);
    let ghost start = out@;
    if let Expr::StructLit { name, fields, .. } = e {
        let ghost fv = field_inits_view(fields@);
        let ghost kk = struct_pos(g.structs, name@, 0);
        let sd = match struct_by_name(structs, name.as_str()) {
            Some((_, sd)) => sd,
            None => {
                proof {
                    lemma_struct_pos(structs@, name@, structs@.len() as int, 0);
                }
                return;
            },
        };
        proof {
            let k = choose|k: int|
                0 <= k < structs@.len() && #[trigger] structs@[k].name@ == name@ && sd == &structs@[k]
                    && forall|j: int| 0 <= j < k ==> structs@[j].name@ != name@;
            lemma_struct_pos(structs@, name@, k, 0);
            assert(*sd == g.structs[kk]);
        }
        let args = lit_arg_texts(fields, sd, scope, sigs, structs, tables);
        push_str_chars("__t_new_", out);
        push_cname(sd.name.as_str(), out);
        push_str_chars("(", out);
        push_joined(&args, out);
        push_str_chars(")", out);
        assert(out@ =~= start + spec_emit_expr(e@, g));
    }
}


#[verifier::spinoff_prover]
fn emit_sub_sel(e: &Expr, scope: &Scope, sigs: &FuncTable, structs: &[StructDef], tables: &TypeTables, out: &mut Vec<char>)
    requires
        e is Sub || e is Sel,
        emit_safe(e@, genv(*scope, *sigs, structs@, tables@)),
    ensures
        final(out)@ == old(out)@ + spec_emit_expr(e@, genv(*scope, *sigs, structs@, tables@)),
    decreases e, 0int,
{
    let ghost g = genv(*scope, *sigs, structs@, tables@);
    let ghost start = out@;
    match e {
        Expr::Sub { s, start: st, n } => {
            push_str_chars("__t_sub(", out);
            emit_expr(s, scope, sigs, structs, tables, out);
            push_str_chars(", (long long)(", out);
            emit_expr(st, scope, sigs, structs, tables, out);
            push_str_chars("), (long long)(", out);
            emit_expr(n, scope, sigs, structs, tables, out);
            push_str_chars("))", out);
        },
        Expr::Sel { cond, a, b } => {
            push_str_chars("((", out);
            emit_expr(cond, scope, sigs, structs, tables, out);
            push_str_chars(") ? (", out);
            emit_expr(a, scope, sigs, structs, tables, out);
            push_str_chars(") : (", out);
            emit_expr(b, scope, sigs, structs, tables, out);
            push_str_chars("))", out);
        },
        _ => {},
    }
    assert(out@ =~= start + spec_emit_expr(e@, g));
}

#[verifier::spinoff_prover]
fn emit_unary(e: &Expr, scope: &Scope, sigs: &FuncTable, structs: &[StructDef], tables: &TypeTables, out: &mut Vec<char>)
    requires
        e is Field || e is Borrow || e is Neg,
        emit_safe(e@, genv(*scope, *sigs, structs@, tables@)),
    ensures
        final(out)@ == old(out)@ + spec_emit_expr(e@, genv(*scope, *sigs, structs@, tables@)),
    decreases e, 0int,
{
    let ghost g = genv(*scope, *sigs, structs@, tables@);
    let ghost start = out@;
    match e {
        Expr::Field(b, f) => {
            emit_expr(b, scope, sigs, structs, tables, out);
            push_str_chars("->", out);
            push_cname(f.as_str(), out);
        },
        Expr::Borrow(x) => emit_expr(x, scope, sigs, structs, tables, out),
        Expr::Neg(x) => {
            push_str_chars("(-", out);
            emit_expr(x, scope, sigs, structs, tables, out);
            push_str_chars(")", out);
        },
        _ => {},
    }
    assert(out@ =~= start + spec_emit_expr(e@, g));
}

proof fn lemma_call_args_safe(name: Seq<char>, args: Seq<SExpr>, g: GEnv)
    requires
        emit_safe(SExpr::Call { name, args }, g),
    ensures
        forall|i: int| 0 <= i < args.len() ==> emit_safe(#[trigger] args[i], g),
{
    let e = SExpr::Call { name, args };
    assert(e is Call);
    assert(!(e is Convert));
    assert(e->Call_args == args);
    assert forall|i: int| 0 <= i < args.len() implies emit_safe(#[trigger] args[i], g) by {
        assert(args[i] == e->Call_args[i]);
    }
}

#[verifier::spinoff_prover]
fn emit_call(e: &Expr, scope: &Scope, sigs: &FuncTable, structs: &[StructDef], tables: &TypeTables, out: &mut Vec<char>)
    requires
        e is Call,
        emit_safe(e@, genv(*scope, *sigs, structs@, tables@)),
    ensures
        final(out)@ == old(out)@ + spec_emit_expr(e@, genv(*scope, *sigs, structs@, tables@)),
    decreases e, 0int,
{
    let ghost g = genv(*scope, *sigs, structs@, tables@);
    let ghost start = out@;
    if let Expr::Call { name, args } = e {
        assert(e@ == SExpr::Call { name: name@, args: exprs_view(args@) });
        assert(exprs_view(args@).len() == args@.len());
        proof {
            lemma_call_args_safe(name@, exprs_view(args@), g);
        }
        push_cname(name.as_str(), out);
        push_str_chars("(", out);
        emit_list(args, scope, sigs, structs, tables, out);
        push_str_chars(")", out);
        assert(out@ =~= start + spec_emit_expr(e@, g));
    }
}

/// 元组元素的存储语句
#[verifier::spinoff_prover]
fn emit_tuple_elems(
    elems: &Vec<Expr>,
    td: &crate::ast::TupleDef,
    scope: &Scope,
    sigs: &FuncTable,
    structs: &[StructDef],
    tables: &TypeTables,
    out: &mut Vec<char>,
)
    requires
        elems@.len() <= td.elems@.len(),
        forall|k: int| 0 <= k < elems@.len() ==> emit_safe(#[trigger] exprs_view(elems@)[k], genv(*scope, *sigs, structs@, tables@)),
    ensures
        final(out)@ == old(out)@ + spec_emit_tuple_elems(exprs_view(elems@), td.elems@, genv(*scope, *sigs, structs@, tables@)),
    decreases elems, 0int,
{
    let ghost g = genv(*scope, *sigs, structs@, tables@);
    let ghost tys = td.elems@;
    let ghost mid = out@;
    let ghost v = exprs_view(elems@);
    let mut i: usize = 0;
    while i < elems.len()
        invariant
            i <= elems@.len(),
            v == exprs_view(elems@),
            elems@.len() <= tys.len(),
            tys == td.elems@,
            g == genv(*scope, *sigs, structs@, tables@),
            forall|k: int| 0 <= k < elems@.len() ==> emit_safe(#[trigger] v[k], g),
            out@ == mid + spec_emit_tuple_elems(v.take(i as int), tys, g),
        decreases elems@.len() - i,
    {
        proof {
            assert(v[i as int] == elems@[i as int]@);
            assert(emit_safe(v[i as int], g));
        }
        push_str_chars(" ((long long*)__t_h)[", out);
        push_decimal(i as u64, out);
        push_str_chars("] = (long long)(", out);
        if td.elems[i] == Ty::Str {
            emit_bind(&elems[i], scope, sigs, structs, tables, out);
        } else {
            emit_expr(&elems[i], scope, sigs, structs, tables, out);
        }
        push_str_chars(");", out);
        proof {
            let w = v.take(i + 1);
            assert(w.subrange(0, i as int) =~= v.take(i as int));
            assert(w[i as int] == v[i as int]);
            assert(out@ =~= mid + spec_emit_tuple_elems(w, tys, g));
        }
        i = i + 1;
    }
    assert(v.take(elems@.len() as int) =~= v);
}

/// 结构体字面量各字段的构造实参文本（按字段声明顺序放置）
#[verifier::spinoff_prover]
fn lit_arg_texts(
    fields: &Vec<(Option<String>, Expr)>,
    sd: &StructDef,
    scope: &Scope,
    sigs: &FuncTable,
    structs: &[StructDef],
    tables: &TypeTables,
) -> (r: Vec<Vec<char>>)
    requires
        forall|j: int|
            0 <= j < fields@.len() ==> emit_safe(#[trigger] field_inits_view(fields@)[j].1, genv(*scope, *sigs, structs@, tables@))
                && match field_inits_view(fields@)[j].0 {
                Some(n) => field_pos(sd.fields@, n, 0) < sd.fields@.len(),
                None => j < sd.fields@.len(),
            },
    ensures
        vecs_view(r@) == lit_args(field_inits_view(fields@), *sd, genv(*scope, *sigs, structs@, tables@)),
    decreases fields, 0int,
{
    let ghost g = genv(*scope, *sigs, structs@, tables@);
    let ghost fv = field_inits_view(fields@);
    let mut args: Vec<Vec<char>> = Vec::new();
    assert(vecs_view(args@) =~= lit_args(fv.take(0), *sd, g));
    let mut i: usize = 0;
    while i < fields.len()
        invariant
            i <= fields@.len(),
            fv == field_inits_view(fields@),
            g == genv(*scope, *sigs, structs@, tables@),
            forall|j: int|
                0 <= j < fv.len() ==> emit_safe(#[trigger] fv[j].1, g) && match fv[j].0 {
                    Some(n) => field_pos(sd.fields@, n, 0) < sd.fields@.len(),
                    None => j < sd.fields@.len(),
                },
            vecs_view(args@) == lit_args(fv.take(i as int), *sd, g),
        decreases fields@.len() - i,
    {
        proof {
            assert(fv[i as int] == (crate::ast::opt_str_view(fields@[i as int].0), fields@[i as int].1@));
            assert(emit_safe(fv[i as int].1, g));
        }
        let idx: usize = match &fields[i].0 {
            Some(nm) => field_index(sd, nm.as_str()),
            None => i,
        };
        let ft = sd.fields[idx].ty;
        let mut a: Vec<char> = Vec::new();
        if ft == Ty::Str {
            emit_bind(&fields[i].1, scope, sigs, structs, tables, &mut a);
        } else {
            emit_expr(&fields[i].1, scope, sigs, structs, tables, &mut a);
        }
        let ghost prev = vecs_view(args@);
        while args.len() <= idx
            invariant
                prev.len() <= args@.len(),
                vecs_view(args@) =~= prev + Seq::new((args@.len() - prev.len()) as nat, |j: int| Seq::<char>::empty()),
                args@.len() <= idx + 1 || args@.len() == prev.len(),
            decreases idx + 1 - args@.len(),
        {
            let ghost before = vecs_view(args@);
            args.push(Vec::new());
            proof {
                assert(vecs_view(args@) =~= before.push(Seq::<char>::empty()));
                assert(before.push(Seq::<char>::empty()) =~= prev + Seq::new((args@.len() - prev.len()) as nat, |j: int| Seq::<char>::empty()));
            }
        }
        let ghost padded = vecs_view(args@);
        args.set(idx, a);
        proof {
            let w = fv.take(i + 1);
            assert(w.subrange(0, i as int) =~= fv.take(i as int));
            assert(w[i as int] == fv[i as int]);
            assert(vecs_view(args@) =~= padded.update(idx as int, a@));
            if prev.len() > idx {
                assert(padded =~= prev);
            } else {
                assert(padded =~= prev + Seq::new((idx + 1 - prev.len()) as nat, |j: int| Seq::<char>::empty()));
            }
        }
        i = i + 1;
    }
    assert(fv.take(fields@.len() as int) =~= fv);
    args
}

} // verus!
