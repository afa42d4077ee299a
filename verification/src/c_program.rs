//! C 后端的语句与程序骨架：map / 动态数组 / 定长数组的声明与赋值、容器语句、
//! print、运行时检查、契约校验行，以及结构体定义与函数签名。

use vstd::prelude::*;
use crate::ast::{
    Ty, StructDef, MapDef, Expr, SExpr, Stmt, SStmt, FieldDef, FnDef, Param, spec_c_name, exprs_view, entries_view,
    stmts_view,
};
use crate::text::{push_str_chars, push_decimal, radix_text, string_of_all};
use crate::type_check::{
    FuncTable, FSig, Scope, TbView, TypeTables, VarInfo, spec_is_owned, is_owned, spec_ty_of, var_tys, ty_of,
    field_pos, spec_consumes, consumes_var, tuples_view,
};
use crate::checker::field_index;
use crate::gen_c::{
    GEnv, genv, gty, gty_of, emit_safe, spec_emit_expr, spec_emit_bind, spec_emit_list, emit_expr, emit_bind,
    emit_list, spec_indent, indent, spec_cname, push_cname, spec_key_wire, spec_val_wire, map_key_wire,
    map_val_wire, key_arg, push_key_arg, var_cname, push_var_cname, push_all, spec_move_nulls, emit_move_nulls, spec_has_move_nulls, has_move_nulls,
    ty_in_tables, spec_c_ty, c_ty, spec_free_slot, free_slot, arr_of,
};

verus! {

broadcast use vstd::std_specs::vec::axiom_vec_decreases_to_view;

// ───────────────────────── map 字面量构造块 ─────────────────────────

/// 值实参：str 与 f64 原样，其余转 long long
pub open spec fn map_val_arg(m: MapDef, vs: Seq<char>) -> Seq<char> {
    if m.val == Ty::Str || m.val == Ty::F64 {
        vs
    } else {
        "(long long)("@ + vs + ")"@
    }
}

/// 构造块中一个条目的插入行：str 键/值走绑定（字面量复制），其余走普通表达式
pub open spec fn spec_map_entry(m: MapDef, kv: (SExpr, SExpr), g: GEnv, level: nat) -> Seq<char> {
    let ks = if m.key == Ty::Str { spec_emit_bind(kv.0, g) } else { spec_emit_expr(kv.0, g) };
    let vs = if m.val == Ty::Str { spec_emit_bind(kv.1, g) } else { spec_emit_expr(kv.1, g) };
    spec_indent(level) + "  __t_h = __t_mset_"@ + spec_key_wire(m.key) + spec_val_wire(m.val) + "(__t_h, "@
        + key_arg(m, ks) + ", "@ + map_val_arg(m, vs) + ");\n"@
}

pub open spec fn spec_map_entries(m: MapDef, es: Seq<(SExpr, SExpr)>, g: GEnv, level: nat) -> Seq<char>
    decreases es.len(),
{
    if es.len() == 0 {
        seq![]
    } else {
        spec_map_entries(m, es.drop_last(), g, level) + spec_map_entry(m, es.last(), g, level)
    }
}

/// 整个构造块：新建 map，逐条目插入，最后一行由调用方给出
pub open spec fn spec_map_ctor(m: MapDef, es: Seq<(SExpr, SExpr)>, g: GEnv, level: nat, tail: Seq<char>) -> Seq<char> {
    spec_indent(level) + "{ void* __t_h = __t_mnew(8);\n"@ + spec_map_entries(m, es, g, level) + spec_indent(level)
        + "  "@ + tail + "\n"@
}

#[verifier::spinoff_prover]
#[verifier::rlimit(60)]
fn emit_map_entry(
    m: &MapDef,
    k: &Expr,
    v: &Expr,
    scope: &Scope,
    sigs: &FuncTable,
    structs: &[StructDef],
    tables: &TypeTables,
    out: &mut Vec<char>,
    level: usize,
)
    requires
        emit_safe(k@, genv(*scope, *sigs, structs@, tables@)),
        emit_safe(v@, genv(*scope, *sigs, structs@, tables@)),
    ensures
        final(out)@ == old(out)@ + spec_map_entry(*m, (k@, v@), genv(*scope, *sigs, structs@, tables@), level as nat),
{
    let ghost g = genv(*scope, *sigs, structs@, tables@);
    let ghost start = out@;
    indent(out, level);
    push_str_chars("  __t_h = __t_mset_", out);
    push_str_chars(map_key_wire(m.key), out);
    push_str_chars(map_val_wire(m.val), out);
    push_str_chars("(__t_h, ", out);
    let ghost k0 = out@;
    if m.key == Ty::Str {
        emit_bind(k, scope, sigs, structs, tables, out);
    } else {
        push_str_chars("(long long)(", out);
        emit_expr(k, scope, sigs, structs, tables, out);
        push_str_chars(")", out);
    }
    let ghost ks = if m.key == Ty::Str { spec_emit_bind(k@, g) } else { spec_emit_expr(k@, g) };
    assert(out@ =~= k0 + key_arg(*m, ks));
    push_str_chars(", ", out);
    let ghost v0 = out@;
    if m.val == Ty::Str {
        emit_bind(v, scope, sigs, structs, tables, out);
    } else if m.val == Ty::F64 {
        emit_expr(v, scope, sigs, structs, tables, out);
    } else {
        push_str_chars("(long long)(", out);
        emit_expr(v, scope, sigs, structs, tables, out);
        push_str_chars(")", out);
    }
    let ghost vs = if m.val == Ty::Str { spec_emit_bind(v@, g) } else { spec_emit_expr(v@, g) };
    assert(out@ =~= v0 + map_val_arg(*m, vs));
    push_str_chars(");\n", out);
    assert(out@ =~= start + spec_map_entry(*m, (k@, v@), g, level as nat));
}

/// map 字面量的构造代码块；`t` 是 map 类型，`tail` 是块的最后一行
#[verifier::spinoff_prover]
#[verifier::rlimit(40)]
pub fn emit_map_ctor(
    t: Ty,
    entries: &Vec<(Expr, Expr)>,
    scope: &Scope,
    sigs: &FuncTable,
    structs: &[StructDef],
    tables: &TypeTables,
    out: &mut Vec<char>,
    level: usize,
    tail: &str,
)
    requires
        t is MapOf,
        (t->MapOf_0 as int) < tables@.maps.len(),
        forall|j: int|
            0 <= j < entries@.len() ==> emit_safe(#[trigger] entries_view(entries@)[j].0, genv(*scope, *sigs, structs@, tables@))
                && emit_safe(entries_view(entries@)[j].1, genv(*scope, *sigs, structs@, tables@)),
    ensures
        final(out)@ == old(out)@ + spec_map_ctor(
            tables@.maps[t->MapOf_0 as int],
            entries_view(entries@),
            genv(*scope, *sigs, structs@, tables@),
            level as nat,
            tail@,
        ),
{
    let ghost g = genv(*scope, *sigs, structs@, tables@);
    let ghost ev = entries_view(entries@);
    let ghost start = out@;
    let mi: u32 = match t {
        Ty::MapOf(i) => i,
        _ => 0,
    };
    let m = &tables.maps[mi as usize];
    indent(out, level);
    push_str_chars("{ void* __t_h = __t_mnew(8);\n", out);
    let ghost head = out@;
    let mut j: usize = 0;
    while j < entries.len()
        invariant
            j <= entries@.len(),
            ev == entries_view(entries@),
            g == genv(*scope, *sigs, structs@, tables@),
            forall|q: int| 0 <= q < entries@.len() ==> emit_safe(#[trigger] ev[q].0, g) && emit_safe(ev[q].1, g),
            out@ == head + spec_map_entries(*m, ev.take(j as int), g, level as nat),
        decreases entries@.len() - j,
    {
        proof {
            assert(ev[j as int] == (entries@[j as int].0@, entries@[j as int].1@));
            assert(emit_safe(ev[j as int].0, g));
        }
        emit_map_entry(m, &entries[j].0, &entries[j].1, scope, sigs, structs, tables, out, level);
        proof {
            let w = ev.take(j + 1);
            assert(w.drop_last() =~= ev.take(j as int));
            assert(w.last() == ev[j as int]);
        }
        j = j + 1;
    }
    assert(ev.take(entries@.len() as int) =~= ev);
    indent(out, level);
    push_str_chars("  ", out);
    push_str_chars(tail, out);
    push_str_chars("\n", out);
    assert(out@ =~= start + spec_map_ctor(*m, ev, g, level as nat, tail@));
}

// ───────────────────────── 结构体定义与函数签名 ─────────────────────────

/// 各字段的类型都在类型表内
pub open spec fn fields_in_tables(fs: Seq<FieldDef>, structs: Seq<StructDef>, tb: TbView) -> bool {
    forall|i: int| 0 <= i < fs.len() ==> ty_in_tables(#[trigger] fs[i].ty, structs, tb)
}

/// typedef 中的成员行
pub open spec fn spec_struct_members(fs: Seq<FieldDef>, structs: Seq<StructDef>, tb: TbView) -> Seq<char>
    decreases fs.len(),
{
    if fs.len() == 0 {
        seq![]
    } else {
        spec_struct_members(fs.drop_last(), structs, tb) + "    "@ + spec_c_ty(fs.last().ty, structs, tb) + " "@
            + spec_cname(fs.last().name@) + ";\n"@
    }
}

/// 构造函数形参表：`类型 t0, 类型 t1, ...`
pub open spec fn spec_ctor_params(fs: Seq<FieldDef>, structs: Seq<StructDef>, tb: TbView) -> Seq<char>
    decreases fs.len(),
{
    if fs.len() == 0 {
        seq![]
    } else {
        let pre = spec_ctor_params(fs.drop_last(), structs, tb);
        (if fs.len() > 1 { pre + ", "@ } else { pre }) + spec_c_ty(fs.last().ty, structs, tb) + " t"@ + radix_text(
            (fs.len() - 1) as nat,
            10,
        )
    }
}

/// 构造函数体：逐字段赋值
pub open spec fn spec_ctor_body(fs: Seq<FieldDef>) -> Seq<char>
    decreases fs.len(),
{
    if fs.len() == 0 {
        seq![]
    } else {
        spec_ctor_body(fs.drop_last()) + "    p->"@ + spec_cname(fs.last().name@) + " = t"@ + radix_text(
            (fs.len() - 1) as nat,
            10,
        ) + ";\n"@
    }
}

/// 深释放函数体：释放并置空各 str 字段
pub open spec fn spec_free_body(fs: Seq<FieldDef>) -> Seq<char>
    decreases fs.len(),
{
    if fs.len() == 0 {
        seq![]
    } else {
        spec_free_body(fs.drop_last()) + if fs.last().ty == Ty::Str {
            "    __t_free(p->"@ + spec_cname(fs.last().name@) + "); p->"@ + spec_cname(fs.last().name@) + " = NULL;\n"@
        } else {
            seq![]
        }
    }
}

/// typedef 段
pub open spec fn spec_struct_typedef(sd: StructDef, structs: Seq<StructDef>, tb: TbView) -> Seq<char> {
    "typedef struct {\n"@ + spec_struct_members(sd.fields@, structs, tb) + "} "@ + spec_cname(sd.name@) + ";\n\n"@
}

/// 构造函数段
pub open spec fn spec_struct_ctor(sd: StructDef, structs: Seq<StructDef>, tb: TbView) -> Seq<char> {
    let n = spec_cname(sd.name@);
    "static "@ + n + "* "@ + "__t_new_"@ + n + "("@ + spec_ctor_params(sd.fields@, structs, tb) + ") { "@ + n
        + "* p = ("@ + n + "*)malloc(sizeof("@ + n + "));\n"@ + spec_ctor_body(sd.fields@) + "    return p; }\n\n"@
}

/// 深释放函数段
pub open spec fn spec_struct_free(sd: StructDef) -> Seq<char> {
    let n = spec_cname(sd.name@);
    "static void "@ + "__t_free_"@ + n + "("@ + n + "* p) { if (!p) return;\n"@ + spec_free_body(sd.fields@)
        + "    free(p); }\n\n"@
}

/// 一个结构体的 C 定义：typedef、构造函数、深释放函数
pub open spec fn spec_struct_def(sd: StructDef, structs: Seq<StructDef>, tb: TbView) -> Seq<char> {
    spec_struct_typedef(sd, structs, tb) + spec_struct_ctor(sd, structs, tb) + spec_struct_free(sd)
}

fn push_struct_members(fs: &Vec<FieldDef>, structs: &[StructDef], tables: &TypeTables, out: &mut Vec<char>)
    requires
        fields_in_tables(fs@, structs@, tables@),
    ensures
        final(out)@ == old(out)@ + spec_struct_members(fs@, structs@, tables@),
{
    let ghost start = out@;
    let mut i: usize = 0;
    while i < fs.len()
        invariant
            i <= fs@.len(),
            fields_in_tables(fs@, structs@, tables@),
            out@ == start + spec_struct_members(fs@.take(i as int), structs@, tables@),
        decreases fs@.len() - i,
    {
        assert(ty_in_tables(fs@[i as int].ty, structs@, tables@));
        let ghost before = out@;
        push_str_chars("    ", out);
        let ct = c_ty(fs[i].ty, structs, tables);
        push_str_chars(ct.as_str(), out);
        push_str_chars(" ", out);
        push_cname(fs[i].name.as_str(), out);
        push_str_chars(";\n", out);
        proof {
            let w = fs@.take(i + 1);
            assert(w.drop_last() =~= fs@.take(i as int));
            assert(w.last() == fs@[i as int]);
            assert(out@ =~= start + spec_struct_members(w, structs@, tables@));
        }
        i = i + 1;
    }
    assert(fs@.take(fs@.len() as int) =~= fs@);
}

fn push_ctor_params(fs: &Vec<FieldDef>, structs: &[StructDef], tables: &TypeTables, out: &mut Vec<char>)
    requires
        fields_in_tables(fs@, structs@, tables@),
    ensures
        final(out)@ == old(out)@ + spec_ctor_params(fs@, structs@, tables@),
{
    let ghost start = out@;
    let mut i: usize = 0;
    while i < fs.len()
        invariant
            i <= fs@.len(),
            fields_in_tables(fs@, structs@, tables@),
            out@ == start + spec_ctor_params(fs@.take(i as int), structs@, tables@),
        decreases fs@.len() - i,
    {
        assert(ty_in_tables(fs@[i as int].ty, structs@, tables@));
        if i > 0 {
            push_str_chars(", ", out);
        }
        let ct = c_ty(fs[i].ty, structs, tables);
        push_str_chars(ct.as_str(), out);
        push_str_chars(" t", out);
        push_decimal(i as u64, out);
        proof {
            let w = fs@.take(i + 1);
            assert(w.drop_last() =~= fs@.take(i as int));
            assert(w.last() == fs@[i as int]);
            assert(out@ =~= start + spec_ctor_params(w, structs@, tables@));
        }
        i = i + 1;
    }
    assert(fs@.take(fs@.len() as int) =~= fs@);
}

fn push_ctor_body(fs: &Vec<FieldDef>, out: &mut Vec<char>)
    ensures
        final(out)@ == old(out)@ + spec_ctor_body(fs@),
{
    let ghost start = out@;
    let mut i: usize = 0;
    while i < fs.len()
        invariant
            i <= fs@.len(),
            out@ == start + spec_ctor_body(fs@.take(i as int)),
        decreases fs@.len() - i,
    {
        push_str_chars("    p->", out);
        push_cname(fs[i].name.as_str(), out);
        push_str_chars(" = t", out);
        push_decimal(i as u64, out);
        push_str_chars(";\n", out);
        proof {
            let w = fs@.take(i + 1);
            assert(w.drop_last() =~= fs@.take(i as int));
            assert(w.last() == fs@[i as int]);
            assert(out@ =~= start + spec_ctor_body(w));
        }
        i = i + 1;
    }
    assert(fs@.take(fs@.len() as int) =~= fs@);
}

fn push_free_body(fs: &Vec<FieldDef>, out: &mut Vec<char>)
    ensures
        final(out)@ == old(out)@ + spec_free_body(fs@),
{
    let ghost start = out@;
    let mut i: usize = 0;
    while i < fs.len()
        invariant
            i <= fs@.len(),
            out@ == start + spec_free_body(fs@.take(i as int)),
        decreases fs@.len() - i,
    {
        if fs[i].ty == Ty::Str {
            push_str_chars("    __t_free(p->", out);
            push_cname(fs[i].name.as_str(), out);
            push_str_chars("); p->", out);
            push_cname(fs[i].name.as_str(), out);
            push_str_chars(" = NULL;\n", out);
        }
        proof {
            let w = fs@.take(i + 1);
            assert(w.drop_last() =~= fs@.take(i as int));
            assert(w.last() == fs@[i as int]);
            assert(out@ =~= start + spec_free_body(w));
        }
        i = i + 1;
    }
    assert(fs@.take(fs@.len() as int) =~= fs@);
}

fn push_struct_typedef(sd: &StructDef, structs: &[StructDef], tables: &TypeTables, out: &mut Vec<char>)
    requires
        fields_in_tables(sd.fields@, structs@, tables@),
    ensures
        final(out)@ == old(out)@ + spec_struct_typedef(*sd, structs@, tables@),
{
    let ghost start = out@;
    push_str_chars("typedef struct {\n", out);
    push_struct_members(&sd.fields, structs, tables, out);
    push_str_chars("} ", out);
    push_cname(sd.name.as_str(), out);
    push_str_chars(";\n\n", out);
    assert(out@ =~= start + spec_struct_typedef(*sd, structs@, tables@));
}

#[verifier::rlimit(30)]
fn push_struct_ctor(sd: &StructDef, structs: &[StructDef], tables: &TypeTables, out: &mut Vec<char>)
    requires
        fields_in_tables(sd.fields@, structs@, tables@),
    ensures
        final(out)@ == old(out)@ + spec_struct_ctor(*sd, structs@, tables@),
{
    let ghost start = out@;
    let name = sd.name.as_str();
    push_str_chars("static ", out);
    push_cname(name, out);
    push_str_chars("* ", out);
    push_str_chars("__t_new_", out);
    push_cname(name, out);
    push_str_chars("(", out);
    push_ctor_params(&sd.fields, structs, tables, out);
    push_str_chars(") { ", out);
    push_cname(name, out);
    push_str_chars("* p = (", out);
    push_cname(name, out);
    push_str_chars("*)malloc(sizeof(", out);
    push_cname(name, out);
    push_str_chars("));\n", out);
    push_ctor_body(&sd.fields, out);
    push_str_chars("    return p; }\n\n", out);
    assert(out@ =~= start + spec_struct_ctor(*sd, structs@, tables@));
}

fn push_struct_free(sd: &StructDef, out: &mut Vec<char>)
    ensures
        final(out)@ == old(out)@ + spec_struct_free(*sd),
{
    let ghost start = out@;
    let name = sd.name.as_str();
    push_str_chars("static void ", out);
    push_str_chars("__t_free_", out);
    push_cname(name, out);
    push_str_chars("(", out);
    push_cname(name, out);
    push_str_chars("* p) { if (!p) return;\n", out);
    push_free_body(&sd.fields, out);
    push_str_chars("    free(p); }\n\n", out);
    assert(out@ =~= start + spec_struct_free(*sd));
}

/// 结构体的 C 定义：成员布局、构造函数（str 字段接管调用方已拥有的堆指针）、深释放函数
pub fn emit_struct_def(sd: &StructDef, structs: &[StructDef], tables: &TypeTables, out: &mut Vec<char>)
    requires
        fields_in_tables(sd.fields@, structs@, tables@),
    ensures
        final(out)@ == old(out)@ + spec_struct_def(*sd, structs@, tables@),
{
    let ghost start = out@;
    push_struct_typedef(sd, structs, tables, out);
    let ghost a = out@;
    push_struct_ctor(sd, structs, tables, out);
    let ghost b = out@;
    push_struct_free(sd, out);
    assert(out@ =~= start + spec_struct_def(*sd, structs@, tables@));
}

/// 形参的类型（未标注按 i64）
pub open spec fn param_ty(p: Param) -> Ty {
    match p.ty {
        Some(t) => t,
        None => Ty::I64,
    }
}

pub open spec fn params_in_tables(ps: Seq<Param>, structs: Seq<StructDef>, tb: TbView) -> bool {
    forall|i: int| 0 <= i < ps.len() ==> ty_in_tables(param_ty(#[trigger] ps[i]), structs, tb)
}

/// C 形参表：`类型 名, ...`
pub open spec fn spec_param_list(ps: Seq<Param>, structs: Seq<StructDef>, tb: TbView) -> Seq<char>
    decreases ps.len(),
{
    if ps.len() == 0 {
        seq![]
    } else {
        let pre = spec_param_list(ps.drop_last(), structs, tb);
        (if ps.len() > 1 { pre + ", "@ } else { pre }) + spec_c_ty(param_ty(ps.last()), structs, tb) + " "@
            + spec_cname(ps.last().name@)
    }
}

/// 函数签名行：`static 返回类型 名(形参表)` 后接 `term` 与换行；无形参时写 void
pub open spec fn spec_fn_head(f: FnDef, structs: Seq<StructDef>, tb: TbView, term: Seq<char>) -> Seq<char> {
    let ret = match f.ret {
        Some(t) => t,
        None => Ty::I64,
    };
    "static "@ + spec_c_ty(ret, structs, tb) + " "@ + spec_cname(f.name@) + "("@ + (if f.params@.len() == 0 {
        "void"@
    } else {
        spec_param_list(f.params@, structs, tb)
    }) + ")"@ + term + "\n"@
}

fn push_param_list(ps: &Vec<Param>, structs: &[StructDef], tables: &TypeTables, out: &mut Vec<char>)
    requires
        params_in_tables(ps@, structs@, tables@),
    ensures
        final(out)@ == old(out)@ + spec_param_list(ps@, structs@, tables@),
{
    let ghost start = out@;
    let mut i: usize = 0;
    while i < ps.len()
        invariant
            i <= ps@.len(),
            params_in_tables(ps@, structs@, tables@),
            out@ == start + spec_param_list(ps@.take(i as int), structs@, tables@),
        decreases ps@.len() - i,
    {
        assert(ty_in_tables(param_ty(ps@[i as int]), structs@, tables@));
        if i > 0 {
            push_str_chars(", ", out);
        }
        let t = match ps[i].ty {
            Some(t) => t,
            None => Ty::I64,
        };
        let ct = c_ty(t, structs, tables);
        push_str_chars(ct.as_str(), out);
        push_str_chars(" ", out);
        push_cname(ps[i].name.as_str(), out);
        proof {
            let w = ps@.take(i + 1);
            assert(w.drop_last() =~= ps@.take(i as int));
            assert(w.last() == ps@[i as int]);
            assert(out@ =~= start + spec_param_list(w, structs@, tables@));
        }
        i = i + 1;
    }
    assert(ps@.take(ps@.len() as int) =~= ps@);
}

/// 函数签名行：前向声明时 `term` 为 `;`，定义时为 ` {`
#[verifier::spinoff_prover]
#[verifier::rlimit(40)]
pub fn emit_fn_head(f: &FnDef, structs: &[StructDef], tables: &TypeTables, term: &str, out: &mut Vec<char>)
    requires
        params_in_tables(f.params@, structs@, tables@),
        ty_in_tables(
            match f.ret {
                Some(t) => t,
                None => Ty::I64,
            },
            structs@,
            tables@,
        ),
    ensures
        final(out)@ == old(out)@ + spec_fn_head(*f, structs@, tables@, term@),
{
    let ghost start = out@;
    let ret = match f.ret {
        Some(t) => t,
        None => Ty::I64,
    };
    push_str_chars("static ", out);
    let rt = c_ty(ret, structs, tables);
    push_str_chars(rt.as_str(), out);
    push_str_chars(" ", out);
    push_cname(f.name.as_str(), out);
    push_str_chars("(", out);
    let ghost p0 = out@;
    if f.params.len() == 0 {
        push_str_chars("void", out);
    } else {
        push_param_list(&f.params, structs, tables, out);
    }
    push_str_chars(")", out);
    push_str_chars(term, out);
    push_str_chars("\n", out);
    assert(out@ =~= start + spec_fn_head(*f, structs@, tables@, term@));
}

/// 函数落出末尾时隐式返回的零值；借用与定长数组不能作返回类型
pub open spec fn spec_zero_value(t: Ty) -> Seq<char> {
    match t {
        Ty::F64 => "0.0"@,
        Ty::Str => "__t_dup(\"\")"@,
        Ty::Struct(_) | Ty::DArr(_) | Ty::Tuple(_) | Ty::MapOf(_) => "NULL"@,
        _ => "0"@,
    }
}

pub fn zero_value(t: Ty) -> (r: &'static str)
    requires
        t != Ty::BorrowStr,
        !(t is Arr),
    ensures
        r@ == spec_zero_value(t),
{
    match t {
        Ty::F64 => "0.0",
        Ty::Str => "__t_dup(\"\")",
        Ty::Struct(_) | Ty::DArr(_) | Ty::Tuple(_) | Ty::MapOf(_) => "NULL",
        _ => "0",
    }
}

// ───────────────────────── 契约校验行 ─────────────────────────

/// 契约校验行：条件不成立时向 stderr 报告（标签、函数名、锚点行号）并以 1 退出
pub open spec fn spec_check_line(label: Seq<char>, cond: Seq<char>, name: Seq<char>, line: nat) -> Seq<char> {
    "    if (!("@ + cond + ")) { fprintf(stderr, \""@ + label + name + "（第 "@ + radix_text(line, 10)
        + " 行）\\n\"); exit(1); }\n"@
}

pub(crate) fn push_check_line(label: &str, cond: &Vec<char>, name: &str, line: usize, out: &mut Vec<char>)
    ensures
        final(out)@ == old(out)@ + spec_check_line(label@, cond@, name@, line as nat),
{
    let ghost start = out@;
    push_str_chars("    if (!(", out);
    push_all(cond, out);
    push_str_chars(")) { fprintf(stderr, \"", out);
    push_str_chars(label, out);
    push_str_chars(name, out);
    push_str_chars("（第 ", out);
    push_decimal(line as u64, out);
    push_str_chars(" 行）\\n\"); exit(1); }\n", out);
    assert(out@ =~= start + spec_check_line(label@, cond@, name@, line as nat));
}

/// @pre 入口校验：在函数体开头检查前置条件
pub fn emit_pre_check(
    e: &Expr,
    name: &str,
    line: usize,
    scope: &Scope,
    sigs: &FuncTable,
    structs: &[StructDef],
    tables: &TypeTables,
    out: &mut Vec<char>,
)
    requires
        emit_safe(e@, genv(*scope, *sigs, structs@, tables@)),
    ensures
        final(out)@ == old(out)@ + spec_check_line(
            "@pre 契约失败："@,
            spec_emit_expr(e@, genv(*scope, *sigs, structs@, tables@)),
            name@,
            line as nat,
        ),
{
    let mut cond: Vec<char> = Vec::new();
    emit_expr(e, scope, sigs, structs, tables, &mut cond);
    assert(cond@ =~= spec_emit_expr(e@, genv(*scope, *sigs, structs@, tables@)));
    push_check_line("@pre 契约失败：", &cond, name, line, out);
}

/// @example 的比较条件：str 返回值按内容比较，其余按值比较
pub open spec fn spec_example_cond(ret: Ty, call: Seq<char>, expected: Seq<char>) -> Seq<char> {
    if ret == Ty::Str {
        "__t_seq("@ + call + ", "@ + expected + ")"@
    } else {
        "("@ + call + ") == ("@ + expected + ")"@
    }
}

/// @example 自检（非元组返回）：程序启动时调用一次并与期望值比较
pub fn emit_example_check(
    call: &Expr,
    expected: &Expr,
    ret: Ty,
    name: &str,
    line: usize,
    scope: &Scope,
    sigs: &FuncTable,
    structs: &[StructDef],
    tables: &TypeTables,
    out: &mut Vec<char>,
)
    requires
        emit_safe(call@, genv(*scope, *sigs, structs@, tables@)),
        emit_safe(expected@, genv(*scope, *sigs, structs@, tables@)),
    ensures
        final(out)@ == old(out)@ + spec_check_line(
            "@example 契约失败："@,
            spec_example_cond(
                ret,
                spec_emit_expr(call@, genv(*scope, *sigs, structs@, tables@)),
                spec_emit_expr(expected@, genv(*scope, *sigs, structs@, tables@)),
            ),
            name@,
            line as nat,
        ),
{
    let ghost g = genv(*scope, *sigs, structs@, tables@);
    let mut cond: Vec<char> = Vec::new();
    if ret == Ty::Str {
        push_str_chars("__t_seq(", &mut cond);
        emit_expr(call, scope, sigs, structs, tables, &mut cond);
        push_str_chars(", ", &mut cond);
        emit_expr(expected, scope, sigs, structs, tables, &mut cond);
        push_str_chars(")", &mut cond);
    } else {
        push_str_chars("(", &mut cond);
        emit_expr(call, scope, sigs, structs, tables, &mut cond);
        push_str_chars(") == (", &mut cond);
        emit_expr(expected, scope, sigs, structs, tables, &mut cond);
        push_str_chars(")", &mut cond);
    }
    assert(cond@ =~= spec_example_cond(ret, spec_emit_expr(call@, g), spec_emit_expr(expected@, g)));
    push_check_line("@example 契约失败：", &cond, name, line, out);
}

// ───────────────────────── print 语句 ─────────────────────────

/// 可直接打印的类型
pub open spec fn printable(t: Ty) -> bool {
    t == Ty::I32 || t == Ty::I64 || t == Ty::F64 || t == Ty::Str || t == Ty::Bool
}

/// printf 行：整数按 %lld，f64 按 %g，str 按 %s，bool 打印为 true/false
pub open spec fn spec_print_line(t: Ty, x: Seq<char>, level: nat) -> Seq<char> {
    let fmt = if t == Ty::F64 {
        "%g\\n"@
    } else if t == Ty::Str || t == Ty::Bool {
        "%s\\n"@
    } else {
        "%lld\\n"@
    };
    let val = if t == Ty::Bool {
        "__t_tos_b((int)("@ + x + "))"@
    } else if t == Ty::F64 {
        "(double)("@ + x + ")"@
    } else if t == Ty::Str {
        "("@ + x + ")"@
    } else {
        "(long long)("@ + x + ")"@
    };
    spec_indent(level) + "printf(\""@ + fmt + "\", "@ + val + ");\n"@
}

/// 规律：打印 bool 按文本打印：格式为 `%s`，实参经运行时的 `__t_tos_b` 转为 "true"/"false"
/// （不按整数 1/0 打印）；整数、浮点、字符串各用 `%lld`、`%g`、`%s`
pub proof fn law_print_formats(x: Seq<char>, level: nat)
    ensures
        spec_print_line(Ty::Bool, x, level) == spec_indent(level) + "printf(\"%s\\n\", __t_tos_b((int)("@ + x
            + ")));\n"@,
        spec_print_line(Ty::Str, x, level) == spec_indent(level) + "printf(\"%s\\n\", ("@ + x + "));\n"@,
        spec_print_line(Ty::F64, x, level) == spec_indent(level) + "printf(\"%g\\n\", (double)("@ + x + "));\n"@,
        spec_print_line(Ty::I64, x, level) == spec_indent(level) + "printf(\"%lld\\n\", (long long)("@ + x
            + "));\n"@,
        spec_print_line(Ty::I32, x, level) == spec_indent(level) + "printf(\"%lld\\n\", (long long)("@ + x
            + "));\n"@,
{
    assert(spec_print_line(Ty::Bool, x, level) =~= spec_indent(level) + "printf(\""@ + "%s\\n"@ + "\", "@
        + ("__t_tos_b((int)("@ + x + "))"@) + ");\n"@);
    reveal_strlit("printf(\"");
    reveal_strlit("%s\\n");
    reveal_strlit("%g\\n");
    reveal_strlit("%lld\\n");
    reveal_strlit("\", ");
    reveal_strlit("__t_tos_b((int)(");
    reveal_strlit("))");
    reveal_strlit(");\n");
    reveal_strlit("(");
    reveal_strlit(")");
    reveal_strlit("(double)(");
    reveal_strlit("(long long)(");
    reveal_strlit("printf(\"%s\\n\", __t_tos_b((int)(");
    reveal_strlit(")));\n");
    reveal_strlit("printf(\"%s\\n\", (");
    reveal_strlit("));\n");
    reveal_strlit("printf(\"%g\\n\", (double)(");
    reveal_strlit("printf(\"%lld\\n\", (long long)(");
    assert(spec_print_line(Ty::Bool, x, level) =~= spec_indent(level) + "printf(\"%s\\n\", __t_tos_b((int)("@
        + x + ")));\n"@);
    assert(spec_print_line(Ty::Str, x, level) =~= spec_indent(level) + "printf(\"%s\\n\", ("@ + x + "));\n"@);
    assert(spec_print_line(Ty::F64, x, level) =~= spec_indent(level) + "printf(\"%g\\n\", (double)("@ + x
        + "));\n"@);
    assert(spec_print_line(Ty::I64, x, level) =~= spec_indent(level) + "printf(\"%lld\\n\", (long long)("@ + x
        + "));\n"@);
    assert(spec_print_line(Ty::I32, x, level) =~= spec_indent(level) + "printf(\"%lld\\n\", (long long)("@ + x
        + "));\n"@);
}

/// print 语句：打印一行，随后置空表达式内调用移动走的实参
#[verifier::spinoff_prover]
#[verifier::rlimit(40)]
pub fn emit_print(
    e: &Expr,
    scope: &Scope,
    sigs: &FuncTable,
    structs: &[StructDef],
    tables: &TypeTables,
    out: &mut Vec<char>,
    level: usize,
)
    requires
        emit_safe(e@, genv(*scope, *sigs, structs@, tables@)),
        printable(gty(e@, genv(*scope, *sigs, structs@, tables@))),
    ensures
        final(out)@ == old(out)@ + spec_print_line(
            gty(e@, genv(*scope, *sigs, structs@, tables@)),
            spec_emit_expr(e@, genv(*scope, *sigs, structs@, tables@)),
            level as nat,
        ) + spec_move_nulls(e@, false, scope.view(), sigs.view(), level as nat),
{
    let ghost g = genv(*scope, *sigs, structs@, tables@);
    let ghost start = out@;
    let t = gty_of(e, scope, sigs, structs, tables);
    let mut x: Vec<char> = Vec::new();
    emit_expr(e, scope, sigs, structs, tables, &mut x);
    indent(out, level);
    push_str_chars("printf(\"", out);
    if t == Ty::F64 {
        push_str_chars("%g\\n", out);
    } else if t == Ty::Str || t == Ty::Bool {
        push_str_chars("%s\\n", out);
    } else {
        push_str_chars("%lld\\n", out);
    }
    push_str_chars("\", ", out);
    let ghost v0 = out@;
    if t == Ty::Bool {
        push_str_chars("__t_tos_b((int)(", out);
        push_all(&x, out);
        push_str_chars("))", out);
    } else if t == Ty::F64 {
        push_str_chars("(double)(", out);
        push_all(&x, out);
        push_str_chars(")", out);
    } else if t == Ty::Str {
        push_str_chars("(", out);
        push_all(&x, out);
        push_str_chars(")", out);
    } else {
        push_str_chars("(long long)(", out);
        push_all(&x, out);
        push_str_chars(")", out);
    }
    push_str_chars(");\n", out);
    let ghost mid = out@;
    assert(mid =~= start + spec_print_line(t, x@, level as nat));
    emit_move_nulls(e, false, scope, sigs, out, level);
}

// ───────────────────────── 容器与运行时检查语句 ─────────────────────────

/// 变量在作用域中的类型（不是变量或未声明按 i64）
pub open spec fn var_ty_or_i64(e: SExpr, sc: Map<Seq<char>, VarInfo>) -> Ty {
    match e {
        SExpr::Var(n) => if sc.contains_key(n) {
            sc[n].ty
        } else {
            Ty::I64
        },
        _ => Ty::I64,
    }
}

/// 动态数组运行时函数的后缀：f64 → f，str → s，其余 → i
pub open spec fn darr_suffix(elem: Ty) -> Seq<char> {
    if elem == Ty::F64 {
        "f"@
    } else if elem == Ty::Str {
        "s"@
    } else {
        "i"@
    }
}

fn push_darr_suffix(elem: Ty, out: &mut Vec<char>)
    ensures
        final(out)@ == old(out)@ + darr_suffix(elem),
{
    if elem == Ty::F64 {
        push_str_chars("f", out);
    } else if elem == Ty::Str {
        push_str_chars("s", out);
    } else {
        push_str_chars("i", out);
    }
}

pub(crate) fn var_ty_of(e: &Expr, scope: &Scope) -> (r: Ty)
    ensures
        r == var_ty_or_i64(e@, scope.view()),
{
    match e {
        Expr::Var(n) => match scope.get(n.as_str()) {
            Some(v) => v.ty,
            None => Ty::I64,
        },
        _ => Ty::I64,
    }
}

/// pop(a)：长度减一，空数组在运行时报错
pub open spec fn spec_emit_pop(arr: SExpr, level: nat) -> Seq<char> {
    spec_indent(level) + "__t_dpop("@ + var_cname(arr) + ");\n"@
}

pub fn emit_pop(arr: &Expr, out: &mut Vec<char>, level: usize)
    ensures
        final(out)@ == old(out)@ + spec_emit_pop(arr@, level as nat),
{
    let ghost start = out@;
    indent(out, level);
    push_str_chars("__t_dpop(", out);
    push_var_cname(arr, out);
    push_str_chars(");\n", out);
    assert(out@ =~= start + spec_emit_pop(arr@, level as nat));
}

/// push(a, v)：可能重新分配，变量重绑返回的新指针；str 元素移交所有权
pub open spec fn spec_emit_push(arr: SExpr, value: SExpr, g: GEnv, level: nat) -> Seq<char> {
    let elem = g.tb.darrs[var_ty_or_i64(arr, g.sc)->DArr_0 as int].elem;
    let vs = if elem == Ty::Str { spec_emit_bind(value, g) } else { spec_emit_expr(value, g) };
    spec_indent(level) + var_cname(arr) + " = "@ + "__t_dpush_"@ + darr_suffix(elem) + "("@ + var_cname(arr) + ", "@
        + vs + ");\n"@ + if elem == Ty::Str {
        spec_move_nulls(value, true, g.sc, g.funcs, level)
    } else {
        seq![]
    }
}

#[verifier::spinoff_prover]
#[verifier::rlimit(40)]
pub fn emit_push(
    arr: &Expr,
    value: &Expr,
    scope: &Scope,
    sigs: &FuncTable,
    structs: &[StructDef],
    tables: &TypeTables,
    out: &mut Vec<char>,
    level: usize,
)
    requires
        var_ty_or_i64(arr@, scope.view()) is DArr,
        (var_ty_or_i64(arr@, scope.view())->DArr_0 as int) < tables@.darrs.len(),
        emit_safe(value@, genv(*scope, *sigs, structs@, tables@)),
    ensures
        final(out)@ == old(out)@ + spec_emit_push(arr@, value@, genv(*scope, *sigs, structs@, tables@), level as nat),
{
    let ghost g = genv(*scope, *sigs, structs@, tables@);
    let ghost start = out@;
    let dt = var_ty_of(arr, scope);
    let di: u32 = match dt {
        Ty::DArr(i) => i,
        _ => 0,
    };
    let elem = tables.darrs[di as usize].elem;
    let mut vs: Vec<char> = Vec::new();
    if elem == Ty::Str {
        emit_bind(value, scope, sigs, structs, tables, &mut vs);
    } else {
        emit_expr(value, scope, sigs, structs, tables, &mut vs);
    }
    indent(out, level);
    push_var_cname(arr, out);
    push_str_chars(" = ", out);
    push_str_chars("__t_dpush_", out);
    push_darr_suffix(elem, out);
    push_str_chars("(", out);
    push_var_cname(arr, out);
    push_str_chars(", ", out);
    push_all(&vs, out);
    push_str_chars(");\n", out);
    let ghost mid = out@;
    if elem == Ty::Str {
        emit_move_nulls(value, true, scope, sigs, out, level);
    }
    assert(out@ =~= start + spec_emit_push(arr@, value@, g, level as nat));
}

/// del(m, k)：删除键（不存在则无事）
pub open spec fn spec_emit_del(map: SExpr, key: SExpr, g: GEnv, level: nat) -> Seq<char> {
    let m = g.tb.maps[gty(map, g)->MapOf_0 as int];
    spec_indent(level) + "__t_mdel_"@ + spec_key_wire(m.key) + spec_val_wire(m.val) + "("@ + var_cname(map) + ", "@
        + key_arg(m, spec_emit_expr(key, g)) + ");\n"@
}

#[verifier::spinoff_prover]
#[verifier::rlimit(40)]
pub fn emit_del(
    map: &Expr,
    key: &Expr,
    scope: &Scope,
    sigs: &FuncTable,
    structs: &[StructDef],
    tables: &TypeTables,
    out: &mut Vec<char>,
    level: usize,
)
    requires
        gty(map@, genv(*scope, *sigs, structs@, tables@)) is MapOf,
        (gty(map@, genv(*scope, *sigs, structs@, tables@))->MapOf_0 as int) < tables@.maps.len(),
        emit_safe(key@, genv(*scope, *sigs, structs@, tables@)),
    ensures
        final(out)@ == old(out)@ + spec_emit_del(map@, key@, genv(*scope, *sigs, structs@, tables@), level as nat),
{
    let ghost g = genv(*scope, *sigs, structs@, tables@);
    let ghost start = out@;
    let bt = gty_of(map, scope, sigs, structs, tables);
    let mi: u32 = match bt {
        Ty::MapOf(i) => i,
        _ => 0,
    };
    let m = tables.maps[mi as usize];
    let mut ks: Vec<char> = Vec::new();
    emit_expr(key, scope, sigs, structs, tables, &mut ks);
    indent(out, level);
    push_str_chars("__t_mdel_", out);
    push_str_chars(map_key_wire(m.key), out);
    push_str_chars(map_val_wire(m.val), out);
    push_str_chars("(", out);
    push_var_cname(map, out);
    push_str_chars(", ", out);
    push_key_arg(m, &ks, out);
    push_str_chars(");\n", out);
    assert(out@ =~= start + spec_emit_del(map@, key@, g, level as nat));
}

/// 表达式语句：求值后丢弃，随后置空被调用移动走的实参
pub open spec fn spec_emit_expr_stmt(e: SExpr, g: GEnv, level: nat) -> Seq<char> {
    spec_indent(level) + spec_emit_expr(e, g) + ";\n"@ + spec_move_nulls(e, false, g.sc, g.funcs, level)
}

pub fn emit_expr_stmt(
    e: &Expr,
    scope: &Scope,
    sigs: &FuncTable,
    structs: &[StructDef],
    tables: &TypeTables,
    out: &mut Vec<char>,
    level: usize,
)
    requires
        emit_safe(e@, genv(*scope, *sigs, structs@, tables@)),
    ensures
        final(out)@ == old(out)@ + spec_emit_expr_stmt(e@, genv(*scope, *sigs, structs@, tables@), level as nat),
{
    let ghost g = genv(*scope, *sigs, structs@, tables@);
    let ghost start = out@;
    let mut x: Vec<char> = Vec::new();
    emit_expr(e, scope, sigs, structs, tables, &mut x);
    indent(out, level);
    push_all(&x, out);
    push_str_chars(";\n", out);
    emit_move_nulls(e, false, scope, sigs, out, level);
    assert(out@ =~= start + spec_emit_expr_stmt(e@, g, level as nat));
}

/// panic(msg)：以消息快速失败
pub open spec fn spec_emit_panic(msg: SExpr, g: GEnv, level: nat) -> Seq<char> {
    spec_indent(level) + "__t_panic("@ + spec_emit_bind(msg, g) + ");\n"@
}

pub fn emit_panic(
    msg: &Expr,
    scope: &Scope,
    sigs: &FuncTable,
    structs: &[StructDef],
    tables: &TypeTables,
    out: &mut Vec<char>,
    level: usize,
)
    requires
        emit_safe(msg@, genv(*scope, *sigs, structs@, tables@)),
    ensures
        final(out)@ == old(out)@ + spec_emit_panic(msg@, genv(*scope, *sigs, structs@, tables@), level as nat),
{
    let ghost g = genv(*scope, *sigs, structs@, tables@);
    let ghost start = out@;
    let mut m: Vec<char> = Vec::new();
    emit_bind(msg, scope, sigs, structs, tables, &mut m);
    indent(out, level);
    push_str_chars("__t_panic(", out);
    push_all(&m, out);
    push_str_chars(");\n", out);
    assert(out@ =~= start + spec_emit_panic(msg@, g, level as nat));
}

/// check(cond, msg)：条件不成立时以消息快速失败
pub open spec fn spec_emit_check(cond: SExpr, msg: SExpr, g: GEnv, level: nat) -> Seq<char> {
    spec_indent(level) + "if (!("@ + spec_emit_expr(cond, g) + ")) { __t_panic("@ + spec_emit_bind(msg, g)
        + "); }\n"@
}

pub fn emit_check(
    cond: &Expr,
    msg: &Expr,
    scope: &Scope,
    sigs: &FuncTable,
    structs: &[StructDef],
    tables: &TypeTables,
    out: &mut Vec<char>,
    level: usize,
)
    requires
        emit_safe(cond@, genv(*scope, *sigs, structs@, tables@)),
        emit_safe(msg@, genv(*scope, *sigs, structs@, tables@)),
    ensures
        final(out)@ == old(out)@ + spec_emit_check(cond@, msg@, genv(*scope, *sigs, structs@, tables@), level as nat),
{
    let ghost g = genv(*scope, *sigs, structs@, tables@);
    let ghost start = out@;
    let mut c: Vec<char> = Vec::new();
    emit_expr(cond, scope, sigs, structs, tables, &mut c);
    let mut m: Vec<char> = Vec::new();
    emit_bind(msg, scope, sigs, structs, tables, &mut m);
    indent(out, level);
    push_str_chars("if (!(", out);
    push_all(&c, out);
    push_str_chars(")) { __t_panic(", out);
    push_all(&m, out);
    push_str_chars("); }\n", out);
    assert(out@ =~= start + spec_emit_check(cond@, msg@, g, level as nat));
}

// ───────────────────────── 变量声明 ─────────────────────────

/// 定长数组按变量逐元素拷贝的行
pub open spec fn spec_arr_copy(cn: Seq<char>, src: Seq<char>, n: nat, level: nat) -> Seq<char>
    decreases n,
{
    if n == 0 {
        seq![]
    } else {
        spec_arr_copy(cn, src, (n - 1) as nat, level) + spec_indent(level) + cn + "["@ + radix_text((n - 1) as nat, 10)
            + "] = "@ + src + "["@ + radix_text((n - 1) as nat, 10) + "];\n"@
    }
}

/// 定长数组声明：字面量直接初始化，同型变量逐元素拷贝（纯值类型）
pub open spec fn spec_decl_arr(cn: Seq<char>, elem: Ty, len: nat, value: SExpr, g: GEnv, level: nat) -> Seq<char> {
    (match value {
        SExpr::ArrLit { elems, .. } => spec_indent(level) + spec_c_name(elem) + " "@ + cn + "["@ + radix_text(len, 10)
            + "] = {"@ + spec_emit_list(elems, g) + "};\n"@,
        SExpr::Var(src) => spec_indent(level) + spec_c_name(elem) + " "@ + cn + "["@ + radix_text(len, 10) + "];\n"@
            + spec_arr_copy(cn, spec_cname(src), len, level),
        _ => seq![],
    }) + spec_move_nulls(value, false, g.sc, g.funcs, level)
}

fn push_arr_copy(cn: &Vec<char>, src: &Vec<char>, n: u64, out: &mut Vec<char>, level: usize)
    ensures
        final(out)@ == old(out)@ + spec_arr_copy(cn@, src@, n as nat, level as nat),
{
    let ghost start = out@;
    let mut i: u64 = 0;
    while i < n
        invariant
            i <= n,
            out@ == start + spec_arr_copy(cn@, src@, i as nat, level as nat),
        decreases n - i,
    {
        let ghost before = out@;
        indent(out, level);
        push_all(cn, out);
        push_str_chars("[", out);
        push_decimal(i, out);
        push_str_chars("] = ", out);
        push_all(src, out);
        push_str_chars("[", out);
        push_decimal(i, out);
        push_str_chars("];\n", out);
        assert(out@ =~= start + spec_arr_copy(cn@, src@, (i + 1) as nat, level as nat));
        i = i + 1;
    }
}

#[verifier::spinoff_prover]
#[verifier::rlimit(40)]
fn emit_decl_arr(
    cn: &Vec<char>,
    elem: Ty,
    len: u64,
    value: &Expr,
    scope: &Scope,
    sigs: &FuncTable,
    structs: &[StructDef],
    tables: &TypeTables,
    out: &mut Vec<char>,
    level: usize,
)
    requires
        value is ArrLit ==> forall|i: int|
            0 <= i < value@->ArrLit_elems.len() ==> emit_safe(
                #[trigger] value@->ArrLit_elems[i],
                genv(*scope, *sigs, structs@, tables@),
            ),
    ensures
        final(out)@ == old(out)@ + spec_decl_arr(cn@, elem, len as nat, value@, genv(*scope, *sigs, structs@, tables@), level as nat),
{
    let ghost g = genv(*scope, *sigs, structs@, tables@);
    let ghost start = out@;
    match value {
        Expr::ArrLit { elems, .. } => {
            assert(value@->ArrLit_elems == exprs_view(elems@));
            indent(out, level);
            push_str_chars(elem.c_name(), out);
            push_str_chars(" ", out);
            push_all(cn, out);
            push_str_chars("[", out);
            push_decimal(len, out);
            push_str_chars("] = {", out);
            emit_list(elems, scope, sigs, structs, tables, out);
            push_str_chars("};\n", out);
        },
        Expr::Var(src) => {
            let mut sc: Vec<char> = Vec::new();
            push_cname(src.as_str(), &mut sc);
            indent(out, level);
            push_str_chars(elem.c_name(), out);
            push_str_chars(" ", out);
            push_all(cn, out);
            push_str_chars("[", out);
            push_decimal(len, out);
            push_str_chars("];\n", out);
            push_arr_copy(cn, &sc, len, out, level);
        },
        _ => {},
    }
    let ghost mid = out@;
    emit_move_nulls(value, false, scope, sigs, out, level);
    assert(out@ =~= start + spec_decl_arr(cn@, elem, len as nat, value@, g, level as nat));
}

/// 动态数组字面量的逐元素追加行（str 元素复制或移动）
pub open spec fn spec_dpush_lines(elem: Ty, es: Seq<SExpr>, g: GEnv, level: nat) -> Seq<char>
    decreases es.len(),
{
    if es.len() == 0 {
        seq![]
    } else {
        let x = es.last();
        spec_dpush_lines(elem, es.drop_last(), g, level) + spec_indent(level) + "  __t_dpush_"@ + darr_suffix(elem)
            + "(__t_h, "@ + (if elem == Ty::Str { spec_emit_bind(x, g) } else { spec_emit_expr(x, g) }) + ");\n"@
    }
}

/// 动态数组声明：字面量建新堆块并逐个追加，其余接管右侧的指针；右侧随后按移动置空
pub open spec fn spec_decl_darr(cn: Seq<char>, elem: Ty, value: SExpr, g: GEnv, level: nat) -> Seq<char> {
    (match value {
        SExpr::DArrLit { elems, .. } => spec_indent(level) + "{ void* __t_h = __t_dnew("@ + radix_text(elems.len(), 10)
            + ");\n"@ + spec_dpush_lines(elem, elems, g, level) + spec_indent(level) + "  "@ + cn + " = __t_h; }\n"@,
        _ => spec_indent(level) + cn + " = "@ + spec_emit_expr(value, g) + ";\n"@,
    }) + spec_move_nulls(value, true, g.sc, g.funcs, level)
}

fn push_dpush_lines(
    elem: Ty,
    es: &Vec<Expr>,
    scope: &Scope,
    sigs: &FuncTable,
    structs: &[StructDef],
    tables: &TypeTables,
    out: &mut Vec<char>,
    level: usize,
)
    requires
        forall|i: int| 0 <= i < es@.len() ==> emit_safe(#[trigger] exprs_view(es@)[i], genv(*scope, *sigs, structs@, tables@)),
    ensures
        final(out)@ == old(out)@ + spec_dpush_lines(elem, exprs_view(es@), genv(*scope, *sigs, structs@, tables@), level as nat),
{
    let ghost g = genv(*scope, *sigs, structs@, tables@);
    let ghost v = exprs_view(es@);
    let ghost start = out@;
    let mut i: usize = 0;
    while i < es.len()
        invariant
            i <= es@.len(),
            v == exprs_view(es@),
            g == genv(*scope, *sigs, structs@, tables@),
            forall|k: int| 0 <= k < es@.len() ==> emit_safe(#[trigger] v[k], g),
            out@ == start + spec_dpush_lines(elem, v.take(i as int), g, level as nat),
        decreases es@.len() - i,
    {
        proof {
            assert(v[i as int] == es@[i as int]@);
            assert(emit_safe(v[i as int], g));
        }
        let mut x: Vec<char> = Vec::new();
        if elem == Ty::Str {
            emit_bind(&es[i], scope, sigs, structs, tables, &mut x);
        } else {
            emit_expr(&es[i], scope, sigs, structs, tables, &mut x);
        }
        indent(out, level);
        push_str_chars("  __t_dpush_", out);
        push_darr_suffix(elem, out);
        push_str_chars("(__t_h, ", out);
        push_all(&x, out);
        push_str_chars(");\n", out);
        proof {
            let w = v.take(i + 1);
            assert(w.drop_last() =~= v.take(i as int));
            assert(w.last() == v[i as int]);
            assert(out@ =~= start + spec_dpush_lines(elem, w, g, level as nat));
        }
        i = i + 1;
    }
    assert(v.take(es@.len() as int) =~= v);
}

#[verifier::spinoff_prover]
#[verifier::rlimit(40)]
fn emit_decl_darr(
    cn: &Vec<char>,
    elem: Ty,
    value: &Expr,
    scope: &Scope,
    sigs: &FuncTable,
    structs: &[StructDef],
    tables: &TypeTables,
    out: &mut Vec<char>,
    level: usize,
)
    requires
        value is DArrLit ==> forall|i: int|
            0 <= i < value@->DArrLit_elems.len() ==> emit_safe(
                #[trigger] value@->DArrLit_elems[i],
                genv(*scope, *sigs, structs@, tables@),
            ),
        !(value is DArrLit) ==> emit_safe(value@, genv(*scope, *sigs, structs@, tables@)),
    ensures
        final(out)@ == old(out)@ + spec_decl_darr(cn@, elem, value@, genv(*scope, *sigs, structs@, tables@), level as nat),
{
    let ghost g = genv(*scope, *sigs, structs@, tables@);
    let ghost start = out@;
    match value {
        Expr::DArrLit { elems, .. } => {
            assert(value@->DArrLit_elems == exprs_view(elems@));
            indent(out, level);
            push_str_chars("{ void* __t_h = __t_dnew(", out);
            push_decimal(elems.len() as u64, out);
            push_str_chars(");\n", out);
            push_dpush_lines(elem, elems, scope, sigs, structs, tables, out, level);
            indent(out, level);
            push_str_chars("  ", out);
            push_all(cn, out);
            push_str_chars(" = __t_h; }\n", out);
        },
        _ => {
            let mut x: Vec<char> = Vec::new();
            emit_expr(value, scope, sigs, structs, tables, &mut x);
            indent(out, level);
            push_all(cn, out);
            push_str_chars(" = ", out);
            push_all(&x, out);
            push_str_chars(";\n", out);
        },
    }
    let ghost mid = out@;
    emit_move_nulls(value, true, scope, sigs, out, level);
    assert(out@ =~= start + spec_decl_darr(cn@, elem, value@, g, level as nat));
}

/// map 声明：字面量走构造块，其余接管右侧的指针；右侧随后按移动置空
pub open spec fn spec_decl_map(cn: Seq<char>, m: MapDef, value: SExpr, g: GEnv, level: nat) -> Seq<char> {
    (match value {
        SExpr::MapLit { entries, .. } => spec_map_ctor(m, entries, g, level, cn + " = __t_h; }"@),
        _ => spec_indent(level) + cn + " = "@ + spec_emit_expr(value, g) + ";\n"@,
    }) + spec_move_nulls(value, true, g.sc, g.funcs, level)
}

#[verifier::spinoff_prover]
#[verifier::rlimit(40)]
fn emit_decl_map(
    cn: &Vec<char>,
    t: Ty,
    value: &Expr,
    scope: &Scope,
    sigs: &FuncTable,
    structs: &[StructDef],
    tables: &TypeTables,
    out: &mut Vec<char>,
    level: usize,
)
    requires
        t is MapOf,
        (t->MapOf_0 as int) < tables@.maps.len(),
        value is MapLit ==> forall|j: int|
            0 <= j < value@->MapLit_entries.len() ==> emit_safe(
                #[trigger] value@->MapLit_entries[j].0,
                genv(*scope, *sigs, structs@, tables@),
            ) && emit_safe(value@->MapLit_entries[j].1, genv(*scope, *sigs, structs@, tables@)),
        !(value is MapLit) ==> emit_safe(value@, genv(*scope, *sigs, structs@, tables@)),
    ensures
        final(out)@ == old(out)@ + spec_decl_map(
            cn@,
            tables@.maps[t->MapOf_0 as int],
            value@,
            genv(*scope, *sigs, structs@, tables@),
            level as nat,
        ),
{
    let ghost g = genv(*scope, *sigs, structs@, tables@);
    let ghost start = out@;
    match value {
        Expr::MapLit { entries, .. } => {
            assert(value@->MapLit_entries == entries_view(entries@));
            let mut tail: Vec<char> = Vec::new();
            push_all(cn, &mut tail);
            push_str_chars(" = __t_h; }", &mut tail);
            let tail_s = string_of_all(&tail);
            emit_map_ctor(t, entries, scope, sigs, structs, tables, out, level, tail_s.as_str());
        },
        _ => {
            let mut x: Vec<char> = Vec::new();
            emit_expr(value, scope, sigs, structs, tables, &mut x);
            indent(out, level);
            push_all(cn, out);
            push_str_chars(" = ", out);
            push_all(&x, out);
            push_str_chars(";\n", out);
        },
    }
    let ghost mid = out@;
    emit_move_nulls(value, true, scope, sigs, out, level);
    assert(out@ =~= start + spec_decl_map(cn@, tables@.maps[t->MapOf_0 as int], value@, g, level as nat));
}

/// 其余声明：堆值槽先释放旧值再接管（槽在作用域开头已置 NULL），标量按 C 类型直接声明
pub open spec fn spec_decl_plain(cn: Seq<char>, t: Ty, value: SExpr, g: GEnv, level: nat) -> Seq<char> {
    let e = if t == Ty::Str { spec_emit_bind(value, g) } else { spec_emit_expr(value, g) };
    if spec_is_owned(t) {
        spec_indent(level) + (if t == Ty::Str {
            "__t_free("@ + cn + ");\n"@
        } else {
            spec_free_slot(cn, t, g.structs, g.tb) + "\n"@
        }) + spec_indent(level) + cn + " = "@ + e + ";\n"@ + spec_move_nulls(value, true, g.sc, g.funcs, level)
    } else {
        spec_indent(level) + spec_c_name(t) + " "@ + cn + " = "@ + e + ";\n"@ + spec_move_nulls(
            value,
            false,
            g.sc,
            g.funcs,
            level,
        )
    }
}

#[verifier::spinoff_prover]
#[verifier::rlimit(80)]
fn emit_decl_plain(
    cn: &Vec<char>,
    t: Ty,
    value: &Expr,
    scope: &Scope,
    sigs: &FuncTable,
    structs: &[StructDef],
    tables: &TypeTables,
    out: &mut Vec<char>,
    level: usize,
)
    requires
        emit_safe(value@, genv(*scope, *sigs, structs@, tables@)),
        ty_in_tables(t, structs@, tables@),
    ensures
        final(out)@ == old(out)@ + spec_decl_plain(cn@, t, value@, genv(*scope, *sigs, structs@, tables@), level as nat),
{
    let ghost g = genv(*scope, *sigs, structs@, tables@);
    let ghost start = out@;
    let mut x: Vec<char> = Vec::new();
    if t == Ty::Str {
        emit_bind(value, scope, sigs, structs, tables, &mut x);
    } else {
        emit_expr(value, scope, sigs, structs, tables, &mut x);
    }
    indent(out, level);
    if is_owned(t) {
        if t == Ty::Str {
            push_str_chars("__t_free(", out);
            push_all(cn, out);
            push_str_chars(");\n", out);
        } else {
            let cs = string_of_all(cn);
            let fs = free_slot(cs.as_str(), t, structs, tables);
            push_str_chars(fs.as_str(), out);
            push_str_chars("\n", out);
        }
        indent(out, level);
        push_all(cn, out);
        push_str_chars(" = ", out);
        push_all(&x, out);
        push_str_chars(";\n", out);
        let ghost mid = out@;
        emit_move_nulls(value, true, scope, sigs, out, level);
    } else {
        push_str_chars(t.c_name(), out);
        push_str_chars(" ", out);
        push_all(cn, out);
        push_str_chars(" = ", out);
        push_all(&x, out);
        push_str_chars(";\n", out);
        let ghost mid = out@;
        emit_move_nulls(value, false, scope, sigs, out, level);
    }
    assert(out@ =~= start + spec_decl_plain(cn@, t, value@, g, level as nat));
}

/// 新声明变量的作用域条目
pub open spec fn decl_var(t: Ty, mutable: bool) -> VarInfo {
    VarInfo { ty: t, mutable, moved: false, is_param: false, is_borrow: false }
}

/// 声明的类型：标注优先，否则为右侧推导出的类型
pub open spec fn decl_ty(ty: Option<Ty>, value: SExpr, g: GEnv) -> Ty {
    match ty {
        Some(t) => t,
        None => match spec_ty_of(value, var_tys(g.sc), g.funcs, g.structs, g.tb) {
            Ok(t) => t,
            Err(_) => Ty::I64,
        },
    }
}

/// 声明可以生成：类型序号在表内；定长数组右侧是字面量或变量；
/// 动态数组 / map 字面量的元素可生成，其余右侧可生成
pub open spec fn decl_safe(t: Ty, value: SExpr, g: GEnv) -> bool {
    match t {
        Ty::Arr(i) => (i as int) < g.tb.arrs.len() && ((value is ArrLit && forall|k: int|
            0 <= k < value->ArrLit_elems.len() ==> emit_safe(#[trigger] value->ArrLit_elems[k], g)) || value is Var),
        Ty::DArr(i) => {
            &&& (i as int) < g.tb.darrs.len()
            &&& value is DArrLit ==> forall|k: int|
                0 <= k < value->DArrLit_elems.len() ==> emit_safe(#[trigger] value->DArrLit_elems[k], g)
            &&& !(value is DArrLit) ==> emit_safe(value, g)
        },
        Ty::MapOf(i) => {
            &&& (i as int) < g.tb.maps.len()
            &&& value is MapLit ==> forall|k: int|
                0 <= k < value->MapLit_entries.len() ==> emit_safe(#[trigger] value->MapLit_entries[k].0, g)
                    && emit_safe(value->MapLit_entries[k].1, g)
            &&& !(value is MapLit) ==> emit_safe(value, g)
        },
        _ => emit_safe(value, g) && ty_in_tables(t, g.structs, g.tb),
    }
}

/// 声明语句的 C 文本；`g` 已含新变量
pub open spec fn spec_emit_decl(name: Seq<char>, t: Ty, value: SExpr, g: GEnv, level: nat) -> Seq<char> {
    let cn = spec_cname(name);
    match t {
        Ty::Arr(i) => spec_decl_arr(cn, g.tb.arrs[i as int].elem, g.tb.arrs[i as int].len as nat, value, g, level),
        Ty::DArr(i) => spec_decl_darr(cn, g.tb.darrs[i as int].elem, value, g, level),
        Ty::MapOf(i) => spec_decl_map(cn, g.tb.maps[i as int], value, g, level),
        _ => spec_decl_plain(cn, t, value, g, level),
    }
}

/// 变量声明：先把变量登记进作用域，再按类型生成初始化代码
pub fn emit_decl(
    name: &String,
    ty: Option<Ty>,
    value: &Expr,
    mutable: bool,
    scope: &mut Scope,
    sigs: &FuncTable,
    structs: &[StructDef],
    tables: &TypeTables,
    out: &mut Vec<char>,
    level: usize,
)
    requires
        decl_safe(
            decl_ty(ty, value@, genv(*old(scope), *sigs, structs@, tables@)),
            value@,
            genv(*old(scope), *sigs, structs@, tables@).insert_var(
                name@,
                decl_var(decl_ty(ty, value@, genv(*old(scope), *sigs, structs@, tables@)), mutable),
            ),
        ),
    ensures
        final(scope).view() == old(scope).view().insert(
            name@,
            decl_var(decl_ty(ty, value@, genv(*old(scope), *sigs, structs@, tables@)), mutable),
        ),
        final(out)@ == old(out)@ + spec_emit_decl(
            name@,
            decl_ty(ty, value@, genv(*old(scope), *sigs, structs@, tables@)),
            value@,
            genv(*final(scope), *sigs, structs@, tables@),
            level as nat,
        ),
{
    let t = match ty {
        Some(t) => t,
        None => match ty_of(value, scope, sigs, structs, tables) {
            Ok(t) => t,
            Err(_) => Ty::I64,
        },
    };
    scope.insert(name.clone(), VarInfo::new(t, mutable));
    let ghost g = genv(*scope, *sigs, structs@, tables@);
    let mut cn: Vec<char> = Vec::new();
    push_cname(name.as_str(), &mut cn);
    match t {
        Ty::Arr(_) => {
            let (elem, len) = arr_of(t, tables);
            proof {
                if value is ArrLit {
                    assert forall|i: int| 0 <= i < value@->ArrLit_elems.len() implies emit_safe(
                        #[trigger] value@->ArrLit_elems[i],
                        g,
                    ) by {}
                }
            }
            emit_decl_arr(&cn, elem, len, value, scope, sigs, structs, tables, out, level);
        },
        Ty::DArr(i) => {
            let elem = tables.darrs[i as usize].elem;
            emit_decl_darr(&cn, elem, value, scope, sigs, structs, tables, out, level);
        },
        Ty::MapOf(_) => {
            emit_decl_map(&cn, t, value, scope, sigs, structs, tables, out, level);
        },
        _ => {
            emit_decl_plain(&cn, t, value, scope, sigs, structs, tables, out, level);
        },
    }
}

// ───────────────────────── 赋值 ─────────────────────────

/// m[k] = v 的写入行（键、值的 C 文本已生成）
pub open spec fn spec_mset_line(be: Seq<char>, m: MapDef, ks: Seq<char>, vs: Seq<char>, level: nat) -> Seq<char> {
    let ka = if m.key == Ty::Str { "__t_dup("@ + ks + ")"@ } else { "(long long)("@ + ks + ")"@ };
    spec_indent(level) + be + " = __t_mset_"@ + spec_key_wire(m.key) + spec_val_wire(m.val) + "("@ + be + ", "@ + ka
        + ", "@ + map_val_arg(m, vs) + ");\n"@
}

/// m[k] = v：__t_mset 可能重新分配，变量重绑；str 键复制出 map 自有副本，str 值整体移动
pub open spec fn spec_assign_mset(b: SExpr, ix: SExpr, value: SExpr, m: MapDef, g: GEnv, level: nat) -> Seq<char> {
    let vs = if m.val == Ty::Str { spec_emit_bind(value, g) } else { spec_emit_expr(value, g) };
    spec_mset_line(var_cname(b), m, spec_emit_expr(ix, g), vs, level) + spec_move_nulls(
        value,
        m.val == Ty::Str,
        g.sc,
        g.funcs,
        level,
    )
}

#[verifier::spinoff_prover]
fn push_mset_line(be: &Vec<char>, m: MapDef, ks: &Vec<char>, vs: &Vec<char>, out: &mut Vec<char>, level: usize)
    ensures
        final(out)@ == old(out)@ + spec_mset_line(be@, m, ks@, vs@, level as nat),
{
    let ghost start = out@;
    let mut ka: Vec<char> = Vec::new();
    if m.key == Ty::Str {
        push_str_chars("__t_dup(", &mut ka);
    } else {
        push_str_chars("(long long)(", &mut ka);
    }
    push_all(ks, &mut ka);
    push_str_chars(")", &mut ka);
    assert(ka@ =~= (if m.key == Ty::Str { "__t_dup("@ + ks@ + ")"@ } else { "(long long)("@ + ks@ + ")"@ }));
    let mut va: Vec<char> = Vec::new();
    if m.val == Ty::Str || m.val == Ty::F64 {
        push_all(vs, &mut va);
    } else {
        push_str_chars("(long long)(", &mut va);
        push_all(vs, &mut va);
        push_str_chars(")", &mut va);
    }
    assert(va@ =~= map_val_arg(m, vs@));
    indent(out, level);
    push_all(be, out);
    push_str_chars(" = __t_mset_", out);
    push_str_chars(map_key_wire(m.key), out);
    push_str_chars(map_val_wire(m.val), out);
    push_str_chars("(", out);
    push_all(be, out);
    push_str_chars(", ", out);
    push_all(&ka, out);
    push_str_chars(", ", out);
    push_all(&va, out);
    push_str_chars(");\n", out);
    assert(out@ =~= start + spec_mset_line(be@, m, ks@, vs@, level as nat));
}

fn emit_assign_mset(
    b: &Expr,
    ix: &Expr,
    value: &Expr,
    m: MapDef,
    scope: &Scope,
    sigs: &FuncTable,
    structs: &[StructDef],
    tables: &TypeTables,
    out: &mut Vec<char>,
    level: usize,
)
    requires
        emit_safe(ix@, genv(*scope, *sigs, structs@, tables@)),
        emit_safe(value@, genv(*scope, *sigs, structs@, tables@)),
    ensures
        final(out)@ == old(out)@ + spec_assign_mset(b@, ix@, value@, m, genv(*scope, *sigs, structs@, tables@), level as nat),
{
    let mut be: Vec<char> = Vec::new();
    push_var_cname(b, &mut be);
    let mut ks: Vec<char> = Vec::new();
    emit_expr(ix, scope, sigs, structs, tables, &mut ks);
    let mut vs: Vec<char> = Vec::new();
    if m.val == Ty::Str {
        emit_bind(value, scope, sigs, structs, tables, &mut vs);
    } else {
        emit_expr(value, scope, sigs, structs, tables, &mut vs);
    }
    push_mset_line(&be, m, &ks, &vs, out, level);
    emit_move_nulls(value, m.val == Ty::Str, scope, sigs, out, level);
}

/// a[i] = v（动态数组）的写入行（下标、值的 C 文本已生成）
pub open spec fn spec_dset_line(be: Seq<char>, elem: Ty, is: Seq<char>, vs: Seq<char>, level: nat) -> Seq<char> {
    spec_indent(level) + "__t_dset_"@ + (if elem == Ty::F64 { "f"@ } else { "i"@ }) + "("@ + be + ", "@ + is + ", "@ + vs
        + ");\n"@
}

/// a[i] = v（动态数组）：越界守卫的写入
pub open spec fn spec_assign_dset(b: SExpr, ix: SExpr, value: SExpr, elem: Ty, g: GEnv, level: nat) -> Seq<char> {
    spec_dset_line(var_cname(b), elem, spec_emit_expr(ix, g), spec_emit_expr(value, g), level) + spec_move_nulls(
        value,
        false,
        g.sc,
        g.funcs,
        level,
    )
}

fn push_dset_line(be: &Vec<char>, elem: Ty, is: &Vec<char>, vs: &Vec<char>, out: &mut Vec<char>, level: usize)
    ensures
        final(out)@ == old(out)@ + spec_dset_line(be@, elem, is@, vs@, level as nat),
{
    let ghost start = out@;
    indent(out, level);
    push_str_chars("__t_dset_", out);
    if elem == Ty::F64 {
        push_str_chars("f", out);
    } else {
        push_str_chars("i", out);
    }
    push_str_chars("(", out);
    push_all(be, out);
    push_str_chars(", ", out);
    push_all(is, out);
    push_str_chars(", ", out);
    push_all(vs, out);
    push_str_chars(");\n", out);
    assert(out@ =~= start + spec_dset_line(be@, elem, is@, vs@, level as nat));
}

fn emit_assign_dset(
    b: &Expr,
    ix: &Expr,
    value: &Expr,
    elem: Ty,
    scope: &Scope,
    sigs: &FuncTable,
    structs: &[StructDef],
    tables: &TypeTables,
    out: &mut Vec<char>,
    level: usize,
)
    requires
        emit_safe(ix@, genv(*scope, *sigs, structs@, tables@)),
        emit_safe(value@, genv(*scope, *sigs, structs@, tables@)),
    ensures
        final(out)@ == old(out)@ + spec_assign_dset(b@, ix@, value@, elem, genv(*scope, *sigs, structs@, tables@), level as nat),
{
    let mut be: Vec<char> = Vec::new();
    push_var_cname(b, &mut be);
    let mut is: Vec<char> = Vec::new();
    emit_expr(ix, scope, sigs, structs, tables, &mut is);
    let mut vs: Vec<char> = Vec::new();
    emit_expr(value, scope, sigs, structs, tables, &mut vs);
    push_dset_line(&be, elem, &is, &vs, out, level);
    emit_move_nulls(value, false, scope, sigs, out, level);
}

/// 赋值左侧的 C 左值文本与类型：变量、字段（p->f）、定长数组元素（越界守卫）
pub open spec fn assign_lhs(target: SExpr, g: GEnv) -> (Seq<char>, Ty) {
    match target {
        SExpr::Var(n) => (spec_cname(n), if g.sc.contains_key(n) {
            g.sc[n].ty
        } else {
            Ty::I64
        }),
        SExpr::Field(b, f) => {
            let ft = match gty(*b, g) {
                Ty::Struct(i) => {
                    let fs = g.structs[i as int].fields@;
                    let k = field_pos(fs, f, 0);
                    if k < fs.len() {
                        fs[k].ty
                    } else {
                        Ty::I64
                    }
                },
                _ => Ty::I64,
            };
            (var_cname(*b) + "->"@ + spec_cname(f), ft)
        },
        SExpr::Index(b, ix) => {
            let a = g.tb.arrs[gty(*b, g)->Arr_0 as int];
            (var_cname(*b) + "[__t_idx("@ + radix_text(a.len as nat, 10) + ", (long long)("@ + spec_emit_expr(*ix, g)
                + "))]"@, a.elem)
        },
        _ => (seq![], Ty::I64),
    }
}

/// 左侧可以生成：字段的结构体序号在表内；下标左侧是定长数组且下标可生成
pub open spec fn lhs_safe(target: SExpr, g: GEnv) -> bool {
    match target {
        SExpr::Var(_) => true,
        SExpr::Field(b, _) => gty(*b, g) is Struct ==> (gty(*b, g)->Struct_0 as int) < g.structs.len(),
        SExpr::Index(b, ix) => gty(*b, g) is Arr && (gty(*b, g)->Arr_0 as int) < g.tb.arrs.len() && emit_safe(*ix, g),
        _ => false,
    }
}

#[verifier::spinoff_prover]
#[verifier::rlimit(40)]
pub(crate) fn emit_lhs(
    target: &Expr,
    scope: &Scope,
    sigs: &FuncTable,
    structs: &[StructDef],
    tables: &TypeTables,
) -> (r: (Vec<char>, Ty))
    requires
        lhs_safe(target@, genv(*scope, *sigs, structs@, tables@)),
    ensures
        (r.0@, r.1) == assign_lhs(target@, genv(*scope, *sigs, structs@, tables@)),
{
    let ghost g = genv(*scope, *sigs, structs@, tables@);
    let mut cn: Vec<char> = Vec::new();
    match target {
        Expr::Var(n) => {
            push_cname(n.as_str(), &mut cn);
            let t = match scope.get(n.as_str()) {
                Some(v) => v.ty,
                None => Ty::I64,
            };
            (cn, t)
        },
        Expr::Field(b, f) => {
            let bt = gty_of(b, scope, sigs, structs, tables);
            let ft = match bt {
                Ty::Struct(i) => {
                    let sd = &structs[i as usize];
                    let k = field_index(sd, f.as_str());
                    if k < sd.fields.len() {
                        sd.fields[k].ty
                    } else {
                        Ty::I64
                    }
                },
                _ => Ty::I64,
            };
            push_var_cname(b, &mut cn);
            push_str_chars("->", &mut cn);
            push_cname(f.as_str(), &mut cn);
            assert(cn@ =~= assign_lhs(target@, g).0);
            (cn, ft)
        },
        Expr::Index(b, ix) => {
            let bt = gty_of(b, scope, sigs, structs, tables);
            let (elem, len) = arr_of(bt, tables);
            push_var_cname(b, &mut cn);
            push_str_chars("[__t_idx(", &mut cn);
            push_decimal(len, &mut cn);
            push_str_chars(", (long long)(", &mut cn);
            emit_expr(ix, scope, sigs, structs, tables, &mut cn);
            push_str_chars("))]", &mut cn);
            assert(cn@ =~= assign_lhs(target@, g).0);
            (cn, elem)
        },
        _ => (cn, Ty::I64),
    }
}

/// 左侧为变量时的名字
pub open spec fn target_var(target: SExpr) -> Option<Seq<char>> {
    match target {
        SExpr::Var(n) => Some(n),
        _ => None,
    }
}

/// 右侧是否已消费左侧变量（没有左侧变量时取 `dflt`）
pub open spec fn consumed_or(tv: Option<Seq<char>>, value: SExpr, funcs: Map<Seq<char>, FSig>, dflt: bool) -> bool {
    match tv {
        Some(n) => spec_consumes(value, n, true, funcs),
        None => dflt,
    }
}

fn consumed_of(target: &Expr, value: &Expr, sigs: &FuncTable, dflt: bool) -> (r: bool)
    ensures
        r == consumed_or(target_var(target@), value@, sigs.view(), dflt),
{
    match target {
        Expr::Var(n) => consumes_var(value, n.as_str(), true, sigs),
        _ => dflt,
    }
}

/// 堆值（动态数组 / map）整体接管右侧指针：先求值到临时，置空被移动的源，未被自我消费则释放旧值
pub open spec fn spec_heap_take(cn: Seq<char>, t: Ty, consumed: bool, value: SExpr, g: GEnv, level: nat) -> Seq<char> {
    spec_indent(level) + "{ void* __t_h = "@ + spec_emit_expr(value, g) + ";\n"@ + spec_move_nulls(value, true, g.sc, g.funcs, level)
        + spec_indent(level) + (if !consumed { "  "@ + spec_free_slot(cn, t, g.structs, g.tb) + "\n"@ } else { seq![] })
        + spec_indent(level) + "  "@ + cn + " = __t_h; }\n"@
}

#[verifier::spinoff_prover]
#[verifier::rlimit(40)]
fn emit_heap_take(
    cn: &Vec<char>,
    t: Ty,
    consumed: bool,
    value: &Expr,
    scope: &Scope,
    sigs: &FuncTable,
    structs: &[StructDef],
    tables: &TypeTables,
    out: &mut Vec<char>,
    level: usize,
)
    requires
        emit_safe(value@, genv(*scope, *sigs, structs@, tables@)),
        ty_in_tables(t, structs@, tables@),
    ensures
        final(out)@ == old(out)@ + spec_heap_take(cn@, t, consumed, value@, genv(*scope, *sigs, structs@, tables@), level as nat),
{
    let ghost g = genv(*scope, *sigs, structs@, tables@);
    let ghost start = out@;
    let mut x: Vec<char> = Vec::new();
    emit_expr(value, scope, sigs, structs, tables, &mut x);
    indent(out, level);
    push_str_chars("{ void* __t_h = ", out);
    push_all(&x, out);
    push_str_chars(";\n", out);
    let ghost a = out@;
    emit_move_nulls(value, true, scope, sigs, out, level);
    let ghost b = out@;
    indent(out, level);
    if !consumed {
        let cs = string_of_all(cn);
        let fs = free_slot(cs.as_str(), t, structs, tables);
        push_str_chars("  ", out);
        push_str_chars(fs.as_str(), out);
        push_str_chars("\n", out);
    }
    indent(out, level);
    push_str_chars("  ", out);
    push_all(cn, out);
    push_str_chars(" = __t_h; }\n", out);
    assert(out@ =~= start + spec_heap_take(cn@, t, consumed, value@, g, level as nat));
}

/// map 整体赋值：字面量走构造块（块末释放旧值并接管），其余整体接管
pub open spec fn spec_assign_map(cn: Seq<char>, t: Ty, consumed: bool, value: SExpr, g: GEnv, level: nat) -> Seq<char> {
    match value {
        SExpr::MapLit { entries, .. } => spec_map_ctor(
            g.tb.maps[t->MapOf_0 as int],
            entries,
            g,
            level,
            if !consumed {
                spec_free_slot(cn, t, g.structs, g.tb) + "\n  "@ + cn + " = __t_h; }"@
            } else {
                cn + " = __t_h; }"@
            },
        ) + spec_move_nulls(value, true, g.sc, g.funcs, level),
        _ => spec_heap_take(cn, t, consumed, value, g, level),
    }
}

#[verifier::spinoff_prover]
#[verifier::rlimit(40)]
fn emit_assign_map(
    cn: &Vec<char>,
    t: Ty,
    consumed: bool,
    value: &Expr,
    scope: &Scope,
    sigs: &FuncTable,
    structs: &[StructDef],
    tables: &TypeTables,
    out: &mut Vec<char>,
    level: usize,
)
    requires
        t is MapOf,
        (t->MapOf_0 as int) < tables@.maps.len(),
        value is MapLit ==> forall|j: int|
            0 <= j < value@->MapLit_entries.len() ==> emit_safe(
                #[trigger] value@->MapLit_entries[j].0,
                genv(*scope, *sigs, structs@, tables@),
            ) && emit_safe(value@->MapLit_entries[j].1, genv(*scope, *sigs, structs@, tables@)),
        !(value is MapLit) ==> emit_safe(value@, genv(*scope, *sigs, structs@, tables@)),
    ensures
        final(out)@ == old(out)@ + spec_assign_map(cn@, t, consumed, value@, genv(*scope, *sigs, structs@, tables@), level as nat),
{
    let ghost g = genv(*scope, *sigs, structs@, tables@);
    let ghost start = out@;
    match value {
        Expr::MapLit { entries, .. } => {
            assert(value@->MapLit_entries == entries_view(entries@));
            let mut tail: Vec<char> = Vec::new();
            if !consumed {
                let cs = string_of_all(cn);
                let fs = free_slot(cs.as_str(), t, structs, tables);
                push_str_chars(fs.as_str(), &mut tail);
                push_str_chars("\n  ", &mut tail);
            }
            push_all(cn, &mut tail);
            push_str_chars(" = __t_h; }", &mut tail);
            let ghost tl = if !consumed {
                spec_free_slot(cn@, t, g.structs, g.tb) + "\n  "@ + cn@ + " = __t_h; }"@
            } else {
                cn@ + " = __t_h; }"@
            };
            assert(tail@ =~= tl);
            let tail_s = string_of_all(&tail);
            emit_map_ctor(t, entries, scope, sigs, structs, tables, out, level, tail_s.as_str());
            let ghost mid = out@;
            emit_move_nulls(value, true, scope, sigs, out, level);
            assert(out@ =~= start + spec_assign_map(cn@, t, consumed, value@, g, level as nat));
        },
        _ => {
            emit_heap_take(cn, t, consumed, value, scope, sigs, structs, tables, out, level);
        },
    }
}

/// 动态数组整体赋值：字面量建新块（块末释放旧值并接管），其余整体接管
pub open spec fn spec_assign_darr(cn: Seq<char>, t: Ty, consumed: bool, value: SExpr, g: GEnv, level: nat) -> Seq<char> {
    match value {
        SExpr::DArrLit { elems, .. } => spec_indent(level) + "{ void* __t_h = __t_dnew("@ + radix_text(
            if elems.len() == 0 { 1 } else { elems.len() },
            10,
        ) + ");\n"@ + spec_dpush_lines(g.tb.darrs[t->DArr_0 as int].elem, elems, g, level) + spec_indent(level) + (if !consumed {
            "  "@ + spec_free_slot(cn, t, g.structs, g.tb) + "\n"@
        } else {
            seq![]
        }) + "  "@ + cn + " = __t_h; }\n"@ + spec_move_nulls(value, true, g.sc, g.funcs, level),
        _ => spec_heap_take(cn, t, consumed, value, g, level),
    }
}

#[verifier::spinoff_prover]
#[verifier::rlimit(40)]
fn emit_assign_darr(
    cn: &Vec<char>,
    t: Ty,
    consumed: bool,
    value: &Expr,
    scope: &Scope,
    sigs: &FuncTable,
    structs: &[StructDef],
    tables: &TypeTables,
    out: &mut Vec<char>,
    level: usize,
)
    requires
        t is DArr,
        (t->DArr_0 as int) < tables@.darrs.len(),
        value is DArrLit ==> forall|i: int|
            0 <= i < value@->DArrLit_elems.len() ==> emit_safe(
                #[trigger] value@->DArrLit_elems[i],
                genv(*scope, *sigs, structs@, tables@),
            ),
        !(value is DArrLit) ==> emit_safe(value@, genv(*scope, *sigs, structs@, tables@)),
    ensures
        final(out)@ == old(out)@ + spec_assign_darr(cn@, t, consumed, value@, genv(*scope, *sigs, structs@, tables@), level as nat),
{
    let ghost g = genv(*scope, *sigs, structs@, tables@);
    let ghost start = out@;
    match value {
        Expr::DArrLit { elems, .. } => {
            assert(value@->DArrLit_elems == exprs_view(elems@));
            let di: u32 = match t {
                Ty::DArr(i) => i,
                _ => 0,
            };
            let elem = tables.darrs[di as usize].elem;
            indent(out, level);
            push_str_chars("{ void* __t_h = __t_dnew(", out);
            let n: usize = if elems.len() == 0 { 1 } else { elems.len() };
            push_decimal(n as u64, out);
            push_str_chars(");\n", out);
            push_dpush_lines(elem, elems, scope, sigs, structs, tables, out, level);
            indent(out, level);
            if !consumed {
                let cs = string_of_all(cn);
                let fs = free_slot(cs.as_str(), t, structs, tables);
                push_str_chars("  ", out);
                push_str_chars(fs.as_str(), out);
                push_str_chars("\n", out);
            }
            push_str_chars("  ", out);
            push_all(cn, out);
            push_str_chars(" = __t_h; }\n", out);
            let ghost mid = out@;
            emit_move_nulls(value, true, scope, sigs, out, level);
            assert(out@ =~= start + spec_assign_darr(cn@, t, consumed, value@, g, level as nat));
        },
        _ => {
            emit_heap_take(cn, t, consumed, value, scope, sigs, structs, tables, out, level);
        },
    }
}

/// 定长数组字面量整体赋值的逐元素写入行
pub open spec fn spec_arr_set_lines(cn: Seq<char>, es: Seq<SExpr>, g: GEnv, level: nat) -> Seq<char>
    decreases es.len(),
{
    if es.len() == 0 {
        seq![]
    } else {
        spec_arr_set_lines(cn, es.drop_last(), g, level) + spec_indent(level) + cn + "["@ + radix_text(
            (es.len() - 1) as nat,
            10,
        ) + "] = "@ + spec_emit_expr(es.last(), g) + ";\n"@
    }
}

/// 定长数组整体赋值（拷贝语义）：字面量逐元素写入，同型变量逐元素拷贝
pub open spec fn spec_assign_arr(cn: Seq<char>, len: nat, value: SExpr, g: GEnv, level: nat) -> Seq<char> {
    (match value {
        SExpr::ArrLit { elems, .. } => spec_arr_set_lines(cn, elems, g, level),
        SExpr::Var(src) => spec_arr_copy(cn, spec_cname(src), len, level),
        _ => seq![],
    }) + spec_move_nulls(value, false, g.sc, g.funcs, level)
}

fn emit_assign_arr(
    cn: &Vec<char>,
    len: u64,
    value: &Expr,
    scope: &Scope,
    sigs: &FuncTable,
    structs: &[StructDef],
    tables: &TypeTables,
    out: &mut Vec<char>,
    level: usize,
)
    requires
        value is ArrLit ==> forall|i: int|
            0 <= i < value@->ArrLit_elems.len() ==> emit_safe(
                #[trigger] value@->ArrLit_elems[i],
                genv(*scope, *sigs, structs@, tables@),
            ),
    ensures
        final(out)@ == old(out)@ + spec_assign_arr(cn@, len as nat, value@, genv(*scope, *sigs, structs@, tables@), level as nat),
{
    let ghost g = genv(*scope, *sigs, structs@, tables@);
    let ghost start = out@;
    match value {
        Expr::ArrLit { elems, .. } => {
            let ghost v = exprs_view(elems@);
            assert(value@->ArrLit_elems == v);
            let mut i: usize = 0;
            while i < elems.len()
                invariant
                    i <= elems@.len(),
                    v == exprs_view(elems@),
                    g == genv(*scope, *sigs, structs@, tables@),
                    forall|k: int| 0 <= k < elems@.len() ==> emit_safe(#[trigger] v[k], g),
                    out@ == start + spec_arr_set_lines(cn@, v.take(i as int), g, level as nat),
                decreases elems@.len() - i,
            {
                proof {
                    assert(v[i as int] == elems@[i as int]@);
                    assert(emit_safe(v[i as int], g));
                }
                let mut x: Vec<char> = Vec::new();
                emit_expr(&elems[i], scope, sigs, structs, tables, &mut x);
                indent(out, level);
                push_all(cn, out);
                push_str_chars("[", out);
                push_decimal(i as u64, out);
                push_str_chars("] = ", out);
                push_all(&x, out);
                push_str_chars(";\n", out);
                proof {
                    let w = v.take(i + 1);
                    assert(w.drop_last() =~= v.take(i as int));
                    assert(w.last() == v[i as int]);
                    assert(out@ =~= start + spec_arr_set_lines(cn@, w, g, level as nat));
                }
                i = i + 1;
            }
            assert(v.take(elems@.len() as int) =~= v);
        },
        Expr::Var(src) => {
            let mut sc: Vec<char> = Vec::new();
            push_cname(src.as_str(), &mut sc);
            push_arr_copy(cn, &sc, len, out, level);
        },
        _ => {},
    }
    let ghost mid = out@;
    emit_move_nulls(value, false, scope, sigs, out, level);
    assert(out@ =~= start + spec_assign_arr(cn@, len as nat, value@, g, level as nat));
}

/// 左侧变量被原样移回自身（a = a）
pub open spec fn self_move(tv: Option<Seq<char>>, value: SExpr) -> bool {
    match tv {
        Some(n) => value == SExpr::Var(n),
        None => false,
    }
}

/// str 变量赋值：先求值到临时，置空被移动的源，未被右侧消费则释放旧值，再接管
pub open spec fn spec_assign_str_var(cn: Seq<char>, consumed: bool, value: SExpr, g: GEnv, level: nat) -> Seq<char> {
    "{ const char* __t_tmp = "@ + spec_emit_bind(value, g) + ";\n"@ + spec_move_nulls(value, true, g.sc, g.funcs, level)
        + spec_indent(level) + (if !consumed { "__t_free("@ + cn + ");\n"@ } else { seq![] }) + cn + " = __t_tmp; }\n"@
}

/// str 字段赋值：释放旧字段值后接管
pub open spec fn spec_assign_str_field(cn: Seq<char>, value: SExpr, g: GEnv, level: nat) -> Seq<char> {
    "__t_free("@ + cn + "); "@ + cn + " = "@ + spec_emit_bind(value, g) + ";\n"@ + spec_move_nulls(value, true, g.sc, g.funcs, level)
}

/// 结构体赋值：先求值到临时，置空被移动的源，未被右侧消费则深释放旧值，再接管
pub open spec fn spec_assign_struct(cn: Seq<char>, t: Ty, consumed: bool, value: SExpr, g: GEnv, level: nat) -> Seq<char> {
    "{ "@ + spec_c_ty(t, g.structs, g.tb) + " __t_tmp = "@ + spec_emit_expr(value, g) + ";\n"@ + spec_move_nulls(
        value,
        true,
        g.sc,
        g.funcs,
        level,
    ) + spec_indent(level) + (if !consumed { spec_free_slot(cn, t, g.structs, g.tb) + "\n"@ } else { seq![] }) + cn
        + " = __t_tmp; }\n"@
}

/// 标量赋值
pub open spec fn spec_assign_scalar(cn: Seq<char>, value: SExpr, g: GEnv, level: nat) -> Seq<char> {
    cn + " = "@ + spec_emit_expr(value, g) + ";\n"@ + spec_move_nulls(value, false, g.sc, g.funcs, level)
}

/// 其余赋值：堆值槽（str、结构体）先求值到临时再释放旧值接管，自我移动不做事；标量直接赋值
pub open spec fn spec_assign_plain(cn: Seq<char>, t: Ty, tv: Option<Seq<char>>, value: SExpr, g: GEnv, level: nat) -> Seq<char> {
    spec_indent(level) + if spec_is_owned(t) {
        if self_move(tv, value) {
            seq![]
        } else if t == Ty::Str && tv is Some {
            spec_assign_str_var(cn, consumed_or(tv, value, g.funcs, false), value, g, level)
        } else if t == Ty::Str {
            spec_assign_str_field(cn, value, g, level)
        } else {
            spec_assign_struct(cn, t, consumed_or(tv, value, g.funcs, true), value, g, level)
        }
    } else {
        spec_assign_scalar(cn, value, g, level)
    }
}

fn is_self_move(target: &Expr, value: &Expr) -> (r: bool)
    ensures
        r == self_move(target_var(target@), value@),
{
    match (target, value) {
        (Expr::Var(n), Expr::Var(v)) => {
            let r = crate::text::str_eq(v.as_str(), n.as_str());
            proof {
                if r {
                    assert(value@ == SExpr::Var(n@));
                }
            }
            r
        },
        _ => false,
    }
}

#[verifier::spinoff_prover]
fn emit_assign_str_var(
    cn: &Vec<char>,
    consumed: bool,
    value: &Expr,
    scope: &Scope,
    sigs: &FuncTable,
    structs: &[StructDef],
    tables: &TypeTables,
    out: &mut Vec<char>,
    level: usize,
)
    requires
        emit_safe(value@, genv(*scope, *sigs, structs@, tables@)),
    ensures
        final(out)@ == old(out)@ + spec_assign_str_var(cn@, consumed, value@, genv(*scope, *sigs, structs@, tables@), level as nat),
{
    let ghost g = genv(*scope, *sigs, structs@, tables@);
    let ghost start = out@;
    let mut x: Vec<char> = Vec::new();
    emit_bind(value, scope, sigs, structs, tables, &mut x);
    push_str_chars("{ const char* __t_tmp = ", out);
    push_all(&x, out);
    push_str_chars(";\n", out);
    let ghost a = out@;
    emit_move_nulls(value, true, scope, sigs, out, level);
    let ghost b = out@;
    indent(out, level);
    if !consumed {
        push_str_chars("__t_free(", out);
        push_all(cn, out);
        push_str_chars(");\n", out);
    }
    push_all(cn, out);
    push_str_chars(" = __t_tmp; }\n", out);
    assert(out@ =~= start + spec_assign_str_var(cn@, consumed, value@, g, level as nat));
}

#[verifier::spinoff_prover]
fn emit_assign_str_field(
    cn: &Vec<char>,
    value: &Expr,
    scope: &Scope,
    sigs: &FuncTable,
    structs: &[StructDef],
    tables: &TypeTables,
    out: &mut Vec<char>,
    level: usize,
)
    requires
        emit_safe(value@, genv(*scope, *sigs, structs@, tables@)),
    ensures
        final(out)@ == old(out)@ + spec_assign_str_field(cn@, value@, genv(*scope, *sigs, structs@, tables@), level as nat),
{
    let ghost g = genv(*scope, *sigs, structs@, tables@);
    let ghost start = out@;
    let mut x: Vec<char> = Vec::new();
    emit_bind(value, scope, sigs, structs, tables, &mut x);
    push_str_chars("__t_free(", out);
    push_all(cn, out);
    push_str_chars("); ", out);
    push_all(cn, out);
    push_str_chars(" = ", out);
    push_all(&x, out);
    push_str_chars(";\n", out);
    let ghost a = out@;
    emit_move_nulls(value, true, scope, sigs, out, level);
    assert(out@ =~= start + spec_assign_str_field(cn@, value@, g, level as nat));
}

#[verifier::spinoff_prover]
fn emit_assign_struct(
    cn: &Vec<char>,
    t: Ty,
    consumed: bool,
    value: &Expr,
    scope: &Scope,
    sigs: &FuncTable,
    structs: &[StructDef],
    tables: &TypeTables,
    out: &mut Vec<char>,
    level: usize,
)
    requires
        emit_safe(value@, genv(*scope, *sigs, structs@, tables@)),
        ty_in_tables(t, structs@, tables@),
    ensures
        final(out)@ == old(out)@ + spec_assign_struct(cn@, t, consumed, value@, genv(*scope, *sigs, structs@, tables@), level as nat),
{
    let ghost g = genv(*scope, *sigs, structs@, tables@);
    let ghost start = out@;
    let mut x: Vec<char> = Vec::new();
    emit_expr(value, scope, sigs, structs, tables, &mut x);
    let ct = c_ty(t, structs, tables);
    push_str_chars("{ ", out);
    push_str_chars(ct.as_str(), out);
    push_str_chars(" __t_tmp = ", out);
    push_all(&x, out);
    push_str_chars(";\n", out);
    let ghost a = out@;
    emit_move_nulls(value, true, scope, sigs, out, level);
    let ghost b = out@;
    indent(out, level);
    if !consumed {
        let cs = string_of_all(cn);
        let fs = free_slot(cs.as_str(), t, structs, tables);
        push_str_chars(fs.as_str(), out);
        push_str_chars("\n", out);
    }
    push_all(cn, out);
    push_str_chars(" = __t_tmp; }\n", out);
    assert(out@ =~= start + spec_assign_struct(cn@, t, consumed, value@, g, level as nat));
}

#[verifier::spinoff_prover]
fn emit_assign_scalar(
    cn: &Vec<char>,
    value: &Expr,
    scope: &Scope,
    sigs: &FuncTable,
    structs: &[StructDef],
    tables: &TypeTables,
    out: &mut Vec<char>,
    level: usize,
)
    requires
        emit_safe(value@, genv(*scope, *sigs, structs@, tables@)),
    ensures
        final(out)@ == old(out)@ + spec_assign_scalar(cn@, value@, genv(*scope, *sigs, structs@, tables@), level as nat),
{
    let ghost g = genv(*scope, *sigs, structs@, tables@);
    let ghost start = out@;
    let mut x: Vec<char> = Vec::new();
    emit_expr(value, scope, sigs, structs, tables, &mut x);
    push_all(cn, out);
    push_str_chars(" = ", out);
    push_all(&x, out);
    push_str_chars(";\n", out);
    let ghost a = out@;
    emit_move_nulls(value, false, scope, sigs, out, level);
    assert(out@ =~= start + spec_assign_scalar(cn@, value@, g, level as nat));
}

#[verifier::spinoff_prover]
fn emit_assign_plain(
    target: &Expr,
    cn: &Vec<char>,
    t: Ty,
    value: &Expr,
    scope: &Scope,
    sigs: &FuncTable,
    structs: &[StructDef],
    tables: &TypeTables,
    out: &mut Vec<char>,
    level: usize,
)
    requires
        emit_safe(value@, genv(*scope, *sigs, structs@, tables@)),
        ty_in_tables(t, structs@, tables@),
    ensures
        final(out)@ == old(out)@ + spec_assign_plain(
            cn@,
            t,
            target_var(target@),
            value@,
            genv(*scope, *sigs, structs@, tables@),
            level as nat,
        ),
{
    let ghost g = genv(*scope, *sigs, structs@, tables@);
    let ghost tv = target_var(target@);
    let ghost start = out@;
    indent(out, level);
    let ghost i0 = out@;
    let is_var = match target {
        Expr::Var(_) => true,
        _ => false,
    };
    if is_owned(t) {
        if is_self_move(target, value) {
        } else if t == Ty::Str && is_var {
            let consumed = consumed_of(target, value, sigs, false);
            emit_assign_str_var(cn, consumed, value, scope, sigs, structs, tables, out, level);
        } else if t == Ty::Str {
            emit_assign_str_field(cn, value, scope, sigs, structs, tables, out, level);
        } else {
            let consumed = consumed_of(target, value, sigs, true);
            emit_assign_struct(cn, t, consumed, value, scope, sigs, structs, tables, out, level);
        }
    } else {
        emit_assign_scalar(cn, value, scope, sigs, structs, tables, out, level);
    }
    assert(out@ =~= start + spec_assign_plain(cn@, t, tv, value@, g, level as nat));
}

/// 下标赋值的目标是否为 map / 动态数组（走运行时写入函数）
pub open spec fn index_target_kind(target: SExpr, g: GEnv) -> Ty {
    match target {
        SExpr::Index(b, _) => gty(*b, g),
        _ => Ty::I64,
    }
}

pub open spec fn is_mset(target: SExpr, g: GEnv) -> bool {
    target is Index && index_target_kind(target, g) is MapOf && (index_target_kind(target, g)->MapOf_0 as int)
        < g.tb.maps.len()
}

pub open spec fn is_dset(target: SExpr, g: GEnv) -> bool {
    target is Index && index_target_kind(target, g) is DArr && (index_target_kind(target, g)->DArr_0 as int)
        < g.tb.darrs.len()
}

/// 赋值可以生成：map / 动态数组下标写入时下标与右侧可生成；其余左侧可生成，右侧按左侧类型可生成
pub open spec fn assign_safe(target: SExpr, value: SExpr, g: GEnv) -> bool {
    if is_mset(target, g) || is_dset(target, g) {
        emit_safe(*target->Index_1, g) && emit_safe(value, g)
    } else {
        lhs_safe(target, g) && decl_safe(assign_lhs(target, g).1, value, g)
    }
}

/// 赋值语句的 C 文本
pub open spec fn spec_emit_assign(target: SExpr, value: SExpr, g: GEnv, level: nat) -> Seq<char> {
    if is_mset(target, g) {
        spec_assign_mset(
            *target->Index_0,
            *target->Index_1,
            value,
            g.tb.maps[index_target_kind(target, g)->MapOf_0 as int],
            g,
            level,
        )
    } else if is_dset(target, g) {
        spec_assign_dset(
            *target->Index_0,
            *target->Index_1,
            value,
            g.tb.darrs[index_target_kind(target, g)->DArr_0 as int].elem,
            g,
            level,
        )
    } else {
        let cn = assign_lhs(target, g).0;
        let t = assign_lhs(target, g).1;
        let tv = target_var(target);
        match t {
            Ty::MapOf(_) => spec_assign_map(cn, t, consumed_or(tv, value, g.funcs, false), value, g, level),
            Ty::DArr(_) => spec_assign_darr(cn, t, consumed_or(tv, value, g.funcs, false), value, g, level),
            Ty::Arr(i) => spec_assign_arr(cn, g.tb.arrs[i as int].len as nat, value, g, level),
            _ => spec_assign_plain(cn, t, tv, value, g, level),
        }
    }
}

/// 赋值语句
pub fn emit_assign(
    target: &Expr,
    value: &Expr,
    scope: &Scope,
    sigs: &FuncTable,
    structs: &[StructDef],
    tables: &TypeTables,
    out: &mut Vec<char>,
    level: usize,
)
    requires
        assign_safe(target@, value@, genv(*scope, *sigs, structs@, tables@)),
    ensures
        final(out)@ == old(out)@ + spec_emit_assign(target@, value@, genv(*scope, *sigs, structs@, tables@), level as nat),
{
    let ghost g = genv(*scope, *sigs, structs@, tables@);
    if let Expr::Index(b, ix) = target {
        let bt = gty_of(b, scope, sigs, structs, tables);
        match bt {
            Ty::MapOf(i) => {
                if (i as usize) < tables.maps.len() {
                    let m = tables.maps[i as usize];
                    emit_assign_mset(b, ix, value, m, scope, sigs, structs, tables, out, level);
                    return;
                }
            },
            Ty::DArr(i) => {
                if (i as usize) < tables.darrs.len() {
                    let elem = tables.darrs[i as usize].elem;
                    emit_assign_dset(b, ix, value, elem, scope, sigs, structs, tables, out, level);
                    return;
                }
            },
            _ => {},
        }
    }
    let (cn, t) = emit_lhs(target, scope, sigs, structs, tables);
    match t {
        Ty::MapOf(_) => {
            let consumed = consumed_of(target, value, sigs, false);
            emit_assign_map(&cn, t, consumed, value, scope, sigs, structs, tables, out, level);
        },
        Ty::DArr(_) => {
            let consumed = consumed_of(target, value, sigs, false);
            emit_assign_darr(&cn, t, consumed, value, scope, sigs, structs, tables, out, level);
        },
        Ty::Arr(i) => {
            let len = tables.arrs[i as usize].len;
            proof {
                if value is ArrLit {
                    assert forall|k: int| 0 <= k < value@->ArrLit_elems.len() implies emit_safe(
                        #[trigger] value@->ArrLit_elems[k],
                        g,
                    ) by {}
                }
            }
            emit_assign_arr(&cn, len, value, scope, sigs, structs, tables, out, level);
        },
        _ => {
            emit_assign_plain(target, &cn, t, value, scope, sigs, structs, tables, out, level);
        },
    }
}

// ───────────────────────── 返回 ─────────────────────────

/// 元组槽位的 C 存储类型：f64 为 double，其余（含 str 指针）为 long long
pub open spec fn slot_ty(t: Ty) -> Seq<char> {
    if t == Ty::F64 {
        "double"@
    } else {
        "long long"@
    }
}

fn push_slot_ty(t: Ty, out: &mut Vec<char>)
    ensures
        final(out)@ == old(out)@ + slot_ty(t),
{
    if t == Ty::F64 {
        push_str_chars("double", out);
    } else {
        push_str_chars("long long", out);
    }
}

/// 元组返回块中逐槽存储的行
pub open spec fn spec_tuple_slots(es: Seq<SExpr>, tys: Seq<Ty>, g: GEnv, level: nat) -> Seq<char>
    decreases es.len(),
{
    if es.len() == 0 {
        seq![]
    } else {
        let i = es.len() - 1;
        let t = tys[i];
        spec_tuple_slots(es.drop_last(), tys, g, level) + spec_indent(level) + "  (("@ + slot_ty(t) + "*)t_ret)["@
            + radix_text(i as nat, 10) + "] = ("@ + slot_ty(t) + ")("@ + (if t == Ty::Str {
            spec_emit_bind(es.last(), g)
        } else {
            spec_emit_expr(es.last(), g)
        }) + ");\n"@
    }
}

/// 元组返回值的各元素：元组字面量取其元素，其余视为单个元素
pub open spec fn tuple_parts(e: SExpr) -> Seq<SExpr> {
    match e {
        SExpr::TupExpr { elems, .. } => elems,
        _ => seq![e],
    }
}

/// 返回 `ret` 可见时的环境（@post 中 ret 指返回值）
pub open spec fn with_ret(g: GEnv, fn_ret: Ty) -> GEnv {
    g.insert_var("ret"@, decl_var(fn_ret, false))
}

/// @post 出口条件的校验语句
pub open spec fn spec_post_cond(p: SExpr, line: nat, g: GEnv) -> Seq<char> {
    "if (!("@ + spec_emit_expr(p, g) + ")) { fprintf(stderr, \"@post 契约失败（第 "@ + radix_text(line, 10)
        + " 行）\\n\"); exit(1); }"@
}

/// 按返回类型的强转（标量返回）
pub open spec fn ret_cast(t: Ty) -> Seq<char> {
    match t {
        Ty::I32 => "(int)"@,
        Ty::I64 => "(long long)"@,
        Ty::F64 => "(double)"@,
        Ty::Str => "(const char*)"@,
        Ty::Bool => "(int)"@,
        _ => seq![],
    }
}

/// 带值返回是否走“先求值到临时再返回”的路径
pub open spec fn return_via_tmp(e: SExpr, fn_ret: Ty, post: Option<SExpr>, g: GEnv) -> bool {
    spec_is_owned(fn_ret) || fn_ret is Tuple || spec_has_move_nulls(e, spec_is_owned(fn_ret), g.funcs) || post is Some
}

/// 带值返回：堆值、元组、需要置空源或有 @post 时先求值到临时；其余直接按返回类型强转返回
pub open spec fn spec_return_value(e: SExpr, g: GEnv, fn_ret: Ty, post: Option<SExpr>, post_line: nat, level: nat) -> Seq<char> {
    let x = if fn_ret == Ty::Str { spec_emit_bind(e, g) } else { spec_emit_expr(e, g) };
    spec_indent(level) + if return_via_tmp(e, fn_ret, post, g) {
        if fn_ret is Tuple {
            let tys = g.tb.tuples[fn_ret->Tuple_0 as int];
            "{ void* t_ret = __t_malloc("@ + radix_text(tys.len() * 8, 10) + ");\n"@ + spec_tuple_slots(
                tuple_parts(e),
                tys,
                g,
                level,
            ) + spec_move_nulls(e, true, g.sc, g.funcs, level) + spec_indent(level) + "return t_ret; }\n"@
        } else {
            "{ "@ + spec_c_ty(fn_ret, g.structs, g.tb) + " t_ret = "@ + x + ";\n"@ + spec_move_nulls(
                e,
                spec_is_owned(fn_ret),
                g.sc,
                g.funcs,
                level,
            ) + (match post {
                Some(p) => spec_indent(level) + spec_post_cond(p, post_line, with_ret(g, fn_ret)) + "\n"@,
                None => seq![],
            }) + spec_indent(level) + "return t_ret; }\n"@
        }
    } else {
        "return "@ + ret_cast(fn_ret) + "("@ + x + ");\n"@
    }
}

/// 裸返回：返回类型的零值（有 @post 时先校验）
pub open spec fn spec_return_none(g: GEnv, fn_ret: Ty, post: Option<SExpr>, post_line: nat, level: nat) -> Seq<char> {
    match post {
        Some(p) => "{ "@ + spec_c_ty(fn_ret, g.structs, g.tb) + " t_ret = "@ + spec_zero_value(fn_ret) + ";\n"@
            + spec_indent(level) + spec_post_cond(p, post_line, with_ret(g, fn_ret)) + " return t_ret; }\n"@,
        None => "return "@ + spec_zero_value(fn_ret) + ";\n"@,
    }
}

/// 返回语句可以生成
pub open spec fn return_safe(e: Option<SExpr>, g: GEnv, fn_ret: Ty, post: Option<SExpr>) -> bool {
    &&& fn_ret != Ty::BorrowStr
    &&& !(fn_ret is Arr)
    &&& ty_in_tables(fn_ret, g.structs, g.tb)
    &&& (post is Some ==> emit_safe(post->Some_0, with_ret(g, fn_ret)))
    &&& match e {
        Some(x) => if fn_ret is Tuple {
            let tys = g.tb.tuples[fn_ret->Tuple_0 as int];
            &&& tys.len() * 8 <= u64::MAX
            &&& tuple_parts(x).len() <= tys.len()
            &&& forall|i: int| 0 <= i < tuple_parts(x).len() ==> emit_safe(#[trigger] tuple_parts(x)[i], g)
        } else {
            emit_safe(x, g)
        },
        None => !(fn_ret is Tuple),
    }
}

/// 返回语句的 C 文本
pub open spec fn spec_emit_return(e: Option<SExpr>, g: GEnv, fn_ret: Ty, post: Option<SExpr>, post_line: nat, level: nat) -> Seq<char> {
    match e {
        Some(x) => spec_return_value(x, g, fn_ret, post, post_line, level),
        None => spec_return_none(g, fn_ret, post, post_line, level),
    }
}

pub(crate) fn push_post_cond(
    p: &Expr,
    line: usize,
    scope: &Scope,
    fn_ret: Ty,
    sigs: &FuncTable,
    structs: &[StructDef],
    tables: &TypeTables,
    out: &mut Vec<char>,
)
    requires
        emit_safe(p@, with_ret(genv(*scope, *sigs, structs@, tables@), fn_ret)),
    ensures
        final(out)@ == old(out)@ + spec_post_cond(p@, line as nat, with_ret(genv(*scope, *sigs, structs@, tables@), fn_ret)),
{
    let ghost start = out@;
    let mut ps = scope.duplicate();
    ps.insert("ret".to_string(), VarInfo::new(fn_ret, false));
    proof {
        reveal_strlit("ret");
    }
    assert(genv(ps, *sigs, structs@, tables@) == with_ret(genv(*scope, *sigs, structs@, tables@), fn_ret));
    let mut c: Vec<char> = Vec::new();
    emit_expr(p, &ps, sigs, structs, tables, &mut c);
    push_str_chars("if (!(", out);
    push_all(&c, out);
    push_str_chars(")) { fprintf(stderr, \"@post 契约失败（第 ", out);
    push_decimal(line as u64, out);
    push_str_chars(" 行）\\n\"); exit(1); }", out);
    assert(out@ =~= start + spec_post_cond(p@, line as nat, with_ret(genv(*scope, *sigs, structs@, tables@), fn_ret)));
}

#[verifier::spinoff_prover]
#[verifier::rlimit(40)]
fn push_tuple_slots(
    es: &Vec<&Expr>,
    tys: &Vec<Ty>,
    scope: &Scope,
    sigs: &FuncTable,
    structs: &[StructDef],
    tables: &TypeTables,
    out: &mut Vec<char>,
    level: usize,
)
    requires
        es@.len() <= tys@.len(),
        forall|i: int| 0 <= i < es@.len() ==> emit_safe(#[trigger] es@[i]@, genv(*scope, *sigs, structs@, tables@)),
    ensures
        final(out)@ == old(out)@ + spec_tuple_slots(
            es@.map_values(|x: &Expr| x@),
            tys@,
            genv(*scope, *sigs, structs@, tables@),
            level as nat,
        ),
{
    let ghost g = genv(*scope, *sigs, structs@, tables@);
    let ghost v = es@.map_values(|x: &Expr| x@);
    let ghost start = out@;
    let mut i: usize = 0;
    while i < es.len()
        invariant
            i <= es@.len(),
            es@.len() <= tys@.len(),
            v == es@.map_values(|x: &Expr| x@),
            g == genv(*scope, *sigs, structs@, tables@),
            forall|k: int| 0 <= k < es@.len() ==> emit_safe(#[trigger] es@[k]@, g),
            out@ == start + spec_tuple_slots(v.take(i as int), tys@, g, level as nat),
        decreases es@.len() - i,
    {
        assert(emit_safe(es@[i as int]@, g));
        let t = tys[i];
        let mut x: Vec<char> = Vec::new();
        if t == Ty::Str {
            emit_bind(es[i], scope, sigs, structs, tables, &mut x);
        } else {
            emit_expr(es[i], scope, sigs, structs, tables, &mut x);
        }
        indent(out, level);
        push_str_chars("  ((", out);
        push_slot_ty(t, out);
        push_str_chars("*)t_ret)[", out);
        push_decimal(i as u64, out);
        push_str_chars("] = (", out);
        push_slot_ty(t, out);
        push_str_chars(")(", out);
        push_all(&x, out);
        push_str_chars(");\n", out);
        proof {
            let w = v.take(i + 1);
            assert(w.drop_last() =~= v.take(i as int));
            assert(w.last() == es@[i as int]@);
            assert(out@ =~= start + spec_tuple_slots(w, tys@, g, level as nat));
        }
        i = i + 1;
    }
    assert(v.take(es@.len() as int) =~= v);
}

#[verifier::spinoff_prover]
#[verifier::rlimit(60)]
fn emit_return_tuple(
    e: &Expr,
    fn_ret: Ty,
    scope: &Scope,
    sigs: &FuncTable,
    structs: &[StructDef],
    tables: &TypeTables,
    out: &mut Vec<char>,
    level: usize,
)
    requires
        fn_ret is Tuple,
        (fn_ret->Tuple_0 as int) < tables@.tuples.len(),
        tables@.tuples[fn_ret->Tuple_0 as int].len() * 8 <= u64::MAX,
        tuple_parts(e@).len() <= tables@.tuples[fn_ret->Tuple_0 as int].len(),
        forall|i: int| 0 <= i < tuple_parts(e@).len() ==> emit_safe(#[trigger] tuple_parts(e@)[i], genv(*scope, *sigs, structs@, tables@)),
    ensures
        final(out)@ == old(out)@ + ({
            let g = genv(*scope, *sigs, structs@, tables@);
            let tys = g.tb.tuples[fn_ret->Tuple_0 as int];
            "{ void* t_ret = __t_malloc("@ + radix_text(tys.len() * 8, 10) + ");\n"@ + spec_tuple_slots(
                tuple_parts(e@),
                tys,
                g,
                level as nat,
            ) + spec_move_nulls(e@, true, g.sc, g.funcs, level as nat) + spec_indent(level as nat) + "return t_ret; }\n"@
        }),
{
    let ghost g = genv(*scope, *sigs, structs@, tables@);
    let ghost start = out@;
    let tid: u32 = match fn_ret {
        Ty::Tuple(i) => i,
        _ => 0,
    };
    let td = &tables.tuples[tid as usize];
    assert(tables@.tuples == tuples_view(tables.tuples@));
    assert(td.elems@ == g.tb.tuples[tid as int]);
    let mut es: Vec<&Expr> = Vec::new();
    match e {
        Expr::TupExpr { elems, .. } => {
            let mut k: usize = 0;
            while k < elems.len()
                invariant
                    k <= elems@.len(),
                    es@.len() == k,
                    forall|j: int| 0 <= j < k ==> es@[j] == &elems@[j],
                decreases elems@.len() - k,
            {
                es.push(&elems[k]);
                k = k + 1;
            }
            assert(e@ == SExpr::TupExpr { elems: exprs_view(elems@), tup: e@->TupExpr_tup });
            assert(tuple_parts(e@) == exprs_view(elems@));
            assert forall|j: int| 0 <= j < es@.len() implies es@.map_values(|x: &Expr| x@)[j] == exprs_view(elems@)[j] by {
                assert(es@[j] == &elems@[j]);
            }
            assert(es@.map_values(|x: &Expr| x@) =~= tuple_parts(e@));
        },
        _ => {
            es.push(e);
            assert(!(e@ is TupExpr));
            assert(tuple_parts(e@) == seq![e@]);
            assert(es@.map_values(|x: &Expr| x@) =~= tuple_parts(e@));
        },
    }
    assert forall|i: int| 0 <= i < es@.len() implies emit_safe(#[trigger] es@[i]@, g) by {
        assert(es@[i]@ == es@.map_values(|x: &Expr| x@)[i]);
        assert(emit_safe(tuple_parts(e@)[i], g));
    }
    push_str_chars("{ void* t_ret = __t_malloc(", out);
    push_decimal((td.elems.len() as u64) * 8, out);
    push_str_chars(");\n", out);
    push_tuple_slots(&es, &td.elems, scope, sigs, structs, tables, out, level);
    let ghost a = out@;
    emit_move_nulls(e, true, scope, sigs, out, level);
    indent(out, level);
    push_str_chars("return t_ret; }\n", out);
}

fn push_ret_cast(t: Ty, out: &mut Vec<char>)
    ensures
        final(out)@ == old(out)@ + ret_cast(t),
{
    match t {
        Ty::I32 => push_str_chars("(int)", out),
        Ty::I64 => push_str_chars("(long long)", out),
        Ty::F64 => push_str_chars("(double)", out),
        Ty::Str => push_str_chars("(const char*)", out),
        Ty::Bool => push_str_chars("(int)", out),
        _ => {},
    }
}

#[verifier::spinoff_prover]
#[verifier::rlimit(60)]
fn emit_return_value(
    e: &Expr,
    fn_ret: Ty,
    post: Option<&Expr>,
    post_line: usize,
    scope: &Scope,
    sigs: &FuncTable,
    structs: &[StructDef],
    tables: &TypeTables,
    out: &mut Vec<char>,
    level: usize,
)
    requires
        return_safe(Some(e@), genv(*scope, *sigs, structs@, tables@), fn_ret, post_view(post)),
    ensures
        final(out)@ == old(out)@ + spec_return_value(
            e@,
            genv(*scope, *sigs, structs@, tables@),
            fn_ret,
            post_view(post),
            post_line as nat,
            level as nat,
        ),
{
    let ghost g = genv(*scope, *sigs, structs@, tables@);
    let ghost start = out@;
    let needs_nulls = has_move_nulls(e, is_owned(fn_ret), sigs);
    let is_tuple = match fn_ret {
        Ty::Tuple(_) => true,
        _ => false,
    };
    if is_tuple {
        indent(out, level);
        emit_return_tuple(e, fn_ret, scope, sigs, structs, tables, out, level);
        assert(out@ =~= start + spec_return_value(e@, g, fn_ret, post_view(post), post_line as nat, level as nat));
        return;
    }
    let mut x: Vec<char> = Vec::new();
    if fn_ret == Ty::Str {
        emit_bind(e, scope, sigs, structs, tables, &mut x);
    } else {
        emit_expr(e, scope, sigs, structs, tables, &mut x);
    }
    indent(out, level);
    let ghost i0 = out@;
    if is_owned(fn_ret) || needs_nulls || post.is_some() {
        let ct = c_ty(fn_ret, structs, tables);
        push_str_chars("{ ", out);
        push_str_chars(ct.as_str(), out);
        push_str_chars(" t_ret = ", out);
        push_all(&x, out);
        push_str_chars(";\n", out);
        let ghost a = out@;
        emit_move_nulls(e, is_owned(fn_ret), scope, sigs, out, level);
        let ghost b = out@;
        match post {
            Some(p) => {
                indent(out, level);
                push_post_cond(p, post_line, scope, fn_ret, sigs, structs, tables, out);
                push_str_chars("\n", out);
            },
            None => {},
        }
        let ghost c = out@;
        indent(out, level);
        push_str_chars("return t_ret; }\n", out);
        assert(out@ =~= start + spec_return_value(e@, g, fn_ret, post_view(post), post_line as nat, level as nat));
    } else {
        push_str_chars("return ", out);
        push_ret_cast(fn_ret, out);
        push_str_chars("(", out);
        push_all(&x, out);
        push_str_chars(");\n", out);
        assert(out@ =~= start + spec_return_value(e@, g, fn_ret, post_view(post), post_line as nat, level as nat));
    }
}

/// @post 表达式的视图
pub open spec fn post_view(post: Option<&Expr>) -> Option<SExpr> {
    match post {
        Some(p) => Some(p@),
        None => None,
    }
}

/// 返回语句
pub fn emit_return(
    e: Option<&Expr>,
    fn_ret: Ty,
    post: Option<&Expr>,
    post_line: usize,
    scope: &Scope,
    sigs: &FuncTable,
    structs: &[StructDef],
    tables: &TypeTables,
    out: &mut Vec<char>,
    level: usize,
)
    requires
        return_safe(post_view(e), genv(*scope, *sigs, structs@, tables@), fn_ret, post_view(post)),
    ensures
        final(out)@ == old(out)@ + spec_emit_return(
            post_view(e),
            genv(*scope, *sigs, structs@, tables@),
            fn_ret,
            post_view(post),
            post_line as nat,
            level as nat,
        ),
{
    let ghost g = genv(*scope, *sigs, structs@, tables@);
    let ghost start = out@;
    match e {
        Some(x) => emit_return_value(x, fn_ret, post, post_line, scope, sigs, structs, tables, out, level),
        None => {
            let zero = zero_value(fn_ret);
            match post {
                Some(p) => {
                    let ct = c_ty(fn_ret, structs, tables);
                    push_str_chars("{ ", out);
                    push_str_chars(ct.as_str(), out);
                    push_str_chars(" t_ret = ", out);
                    push_str_chars(zero, out);
                    push_str_chars(";\n", out);
                    indent(out, level);
                    push_post_cond(p, post_line, scope, fn_ret, sigs, structs, tables, out);
                    push_str_chars(" return t_ret; }\n", out);
                },
                None => {
                    push_str_chars("return ", out);
                    push_str_chars(zero, out);
                    push_str_chars(";\n", out);
                },
            }
            assert(out@ =~= start + spec_emit_return(post_view(e), g, fn_ret, post_view(post), post_line as nat, level as nat));
        },
    }
}

// ───────────────────────── 多声明解构 ─────────────────────────

/// 多声明依次登记后的作用域
pub open spec fn multi_scope(sc: Map<Seq<char>, VarInfo>, names: Seq<Seq<char>>, tys: Seq<Ty>, mutable: bool) -> Map<Seq<char>, VarInfo>
    decreases names.len(),
{
    if names.len() == 0 {
        sc
    } else {
        multi_scope(sc, names.drop_last(), tys, mutable).insert(names.last(), decl_var(tys[names.len() - 1], mutable))
    }
}

/// 标量元素的 C 声明（堆值槽已在作用域开头声明）
pub open spec fn spec_multi_scalar_decls(names: Seq<Seq<char>>, tys: Seq<Ty>, structs: Seq<StructDef>, tb: TbView, level: nat) -> Seq<char>
    decreases names.len(),
{
    if names.len() == 0 {
        seq![]
    } else {
        let t = tys[names.len() - 1];
        spec_multi_scalar_decls(names.drop_last(), tys, structs, tb, level) + if !spec_is_owned(t) {
            spec_indent(level) + spec_c_ty(t, structs, tb) + " "@ + spec_cname(names.last()) + ";\n"@
        } else {
            seq![]
        }
    }
}

/// 元组元素读出后的 C 类型
pub open spec fn take_ty(t: Ty) -> Seq<char> {
    if t == Ty::Str {
        "const char*"@
    } else if t == Ty::F64 {
        "double"@
    } else {
        "long long"@
    }
}

/// 逐元素从元组块取出的行
pub open spec fn spec_multi_takes(names: Seq<Seq<char>>, tys: Seq<Ty>, level: nat) -> Seq<char>
    decreases names.len(),
{
    if names.len() == 0 {
        seq![]
    } else {
        let i = names.len() - 1;
        let t = tys[i];
        spec_multi_takes(names.drop_last(), tys, level) + spec_indent(level) + "  "@ + spec_cname(names.last()) + " = ("@
            + take_ty(t) + ") (("@ + slot_ty(t) + "*)__t_t)["@ + radix_text(i as nat, 10) + "];\n"@
    }
}

/// 多声明解构的右侧元组类型的各元素
pub open spec fn multi_tys(value: SExpr, g: GEnv) -> Seq<Ty> {
    g.tb.tuples[decl_ty(None, value, g)->Tuple_0 as int]
}

/// 多声明可以生成：右侧是已登记的元组类型、可生成，名字不多于元素，元素类型都在表内
pub open spec fn multi_safe(names: Seq<Seq<char>>, value: SExpr, g: GEnv) -> bool {
    &&& decl_ty(None, value, g) is Tuple
    &&& (decl_ty(None, value, g)->Tuple_0 as int) < g.tb.tuples.len()
    &&& names.len() <= multi_tys(value, g).len()
    &&& forall|i: int| 0 <= i < multi_tys(value, g).len() ==> ty_in_tables(#[trigger] multi_tys(value, g)[i], g.structs, g.tb)
    &&& emit_safe(value, g)
}

/// 多声明解构的 C 文本：标量元素先声明，再从元组块逐元素取出，最后释放元组块
pub open spec fn spec_emit_multi(names: Seq<Seq<char>>, value: SExpr, g: GEnv, level: nat) -> Seq<char> {
    let tys = multi_tys(value, g);
    spec_multi_scalar_decls(names, tys, g.structs, g.tb, level) + spec_indent(level) + "{ void* __t_t = "@ + spec_emit_expr(value, g)
        + ";\n"@ + spec_multi_takes(names, tys, level) + spec_indent(level) + "  __t_free(__t_t); }\n"@
}

fn push_take_ty(t: Ty, out: &mut Vec<char>)
    ensures
        final(out)@ == old(out)@ + take_ty(t),
{
    if t == Ty::Str {
        push_str_chars("const char*", out);
    } else if t == Ty::F64 {
        push_str_chars("double", out);
    } else {
        push_str_chars("long long", out);
    }
}

fn push_multi_scalar_decls(names: &Vec<String>, tys: &Vec<Ty>, structs: &[StructDef], tables: &TypeTables, out: &mut Vec<char>, level: usize)
    requires
        names@.len() <= tys@.len(),
        forall|i: int| 0 <= i < tys@.len() ==> ty_in_tables(#[trigger] tys@[i], structs@, tables@),
    ensures
        final(out)@ == old(out)@ + spec_multi_scalar_decls(crate::ast::strs_view(names@), tys@, structs@, tables@, level as nat),
{
    let ghost nv = crate::ast::strs_view(names@);
    let ghost start = out@;
    let mut i: usize = 0;
    while i < names.len()
        invariant
            i <= names@.len(),
            names@.len() <= tys@.len(),
            nv == crate::ast::strs_view(names@),
            forall|k: int| 0 <= k < tys@.len() ==> ty_in_tables(#[trigger] tys@[k], structs@, tables@),
            out@ == start + spec_multi_scalar_decls(nv.take(i as int), tys@, structs@, tables@, level as nat),
        decreases names@.len() - i,
    {
        let t = tys[i];
        assert(ty_in_tables(tys@[i as int], structs@, tables@));
        if !is_owned(t) {
            indent(out, level);
            let ct = c_ty(t, structs, tables);
            push_str_chars(ct.as_str(), out);
            push_str_chars(" ", out);
            push_cname(names[i].as_str(), out);
            push_str_chars(";\n", out);
        }
        proof {
            let w = nv.take(i + 1);
            assert(w.drop_last() =~= nv.take(i as int));
            assert(w.last() == names@[i as int]@);
            assert(out@ =~= start + spec_multi_scalar_decls(w, tys@, structs@, tables@, level as nat));
        }
        i = i + 1;
    }
    assert(nv.take(names@.len() as int) =~= nv);
}

fn push_multi_takes(names: &Vec<String>, tys: &Vec<Ty>, out: &mut Vec<char>, level: usize)
    requires
        names@.len() <= tys@.len(),
    ensures
        final(out)@ == old(out)@ + spec_multi_takes(crate::ast::strs_view(names@), tys@, level as nat),
{
    let ghost nv = crate::ast::strs_view(names@);
    let ghost start = out@;
    let mut i: usize = 0;
    while i < names.len()
        invariant
            i <= names@.len(),
            names@.len() <= tys@.len(),
            nv == crate::ast::strs_view(names@),
            out@ == start + spec_multi_takes(nv.take(i as int), tys@, level as nat),
        decreases names@.len() - i,
    {
        let t = tys[i];
        indent(out, level);
        push_str_chars("  ", out);
        push_cname(names[i].as_str(), out);
        push_str_chars(" = (", out);
        push_take_ty(t, out);
        push_str_chars(") ((", out);
        push_slot_ty(t, out);
        push_str_chars("*)__t_t)[", out);
        push_decimal(i as u64, out);
        push_str_chars("];\n", out);
        proof {
            let w = nv.take(i + 1);
            assert(w.drop_last() =~= nv.take(i as int));
            assert(w.last() == names@[i as int]@);
            assert(out@ =~= start + spec_multi_takes(w, tys@, level as nat));
        }
        i = i + 1;
    }
    assert(nv.take(names@.len() as int) =~= nv);
}

/// 多声明解构 //a, b = f(...)：元素按类型接管，元组块随即释放；名字随后登记进作用域
#[verifier::spinoff_prover]
#[verifier::rlimit(40)]
pub fn emit_multi_decl(
    names: &Vec<String>,
    value: &Expr,
    mutable: bool,
    scope: &mut Scope,
    sigs: &FuncTable,
    structs: &[StructDef],
    tables: &TypeTables,
    out: &mut Vec<char>,
    level: usize,
)
    requires
        multi_safe(crate::ast::strs_view(names@), value@, genv(*old(scope), *sigs, structs@, tables@)),
    ensures
        final(out)@ == old(out)@ + spec_emit_multi(
            crate::ast::strs_view(names@),
            value@,
            genv(*old(scope), *sigs, structs@, tables@),
            level as nat,
        ),
        final(scope).view() == multi_scope(
            old(scope).view(),
            crate::ast::strs_view(names@),
            multi_tys(value@, genv(*old(scope), *sigs, structs@, tables@)),
            mutable,
        ),
{
    let ghost g = genv(*scope, *sigs, structs@, tables@);
    let ghost sc0 = scope.view();
    let ghost nv = crate::ast::strs_view(names@);
    let ghost start = out@;
    let vt = match ty_of(value, scope, sigs, structs, tables) {
        Ok(t) => t,
        Err(_) => Ty::I64,
    };
    let tid: u32 = match vt {
        Ty::Tuple(i) => i,
        _ => 0,
    };
    let td = &tables.tuples[tid as usize];
    assert(tables@.tuples == tuples_view(tables.tuples@));
    assert(td.elems@ == multi_tys(value@, g));
    push_multi_scalar_decls(names, &td.elems, structs, tables, out, level);
    let mut x: Vec<char> = Vec::new();
    emit_expr(value, scope, sigs, structs, tables, &mut x);
    indent(out, level);
    push_str_chars("{ void* __t_t = ", out);
    push_all(&x, out);
    push_str_chars(";\n", out);
    push_multi_takes(names, &td.elems, out, level);
    indent(out, level);
    push_str_chars("  __t_free(__t_t); }\n", out);
    assert(out@ =~= start + spec_emit_multi(nv, value@, g, level as nat));
    let mut i: usize = 0;
    while i < names.len()
        invariant
            i <= names@.len(),
            names@.len() <= td.elems@.len(),
            nv == crate::ast::strs_view(names@),
            scope.view() == multi_scope(sc0, nv.take(i as int), td.elems@, mutable),
        decreases names@.len() - i,
    {
        scope.insert(names[i].clone(), VarInfo::new(td.elems[i], mutable));
        proof {
            let w = nv.take(i + 1);
            assert(w.drop_last() =~= nv.take(i as int));
            assert(w.last() == names@[i as int]@);
        }
        i = i + 1;
    }
    assert(nv.take(names@.len() as int) =~= nv);
}

// ───────────────────────── 语句与语句块 ─────────────────────────

/// 语句之后的环境：声明登记新变量；循环体、分支体中的声明在其后仍可见
pub open spec fn stmt_env(s: SStmt, g: GEnv) -> GEnv
    decreases s,
{
    match s {
        SStmt::Decl { mutable, name, ty, value, .. } => g.insert_var(name, decl_var(decl_ty(ty, value, g), mutable)),
        SStmt::MultiDecl { mutable, names, value, .. } => GEnv {
            sc: multi_scope(g.sc, names, multi_tys(value, g), mutable),
            ..g
        },
        SStmt::While { body, .. } => block_env(body, g),
        SStmt::If { body, else_body, .. } => match else_body {
            Some(eb) => block_env(eb, block_env(body, g)),
            None => block_env(body, g),
        },
        _ => g,
    }
}

pub open spec fn block_env(ss: Seq<SStmt>, g: GEnv) -> GEnv
    decreases ss,
{
    if ss.len() == 0 {
        g
    } else {
        stmt_env(ss.last(), block_env(ss.drop_last(), g))
    }
}

/// 语句可以生成（各类语句的条件见其生成函数）
pub open spec fn stmt_safe(s: SStmt, g: GEnv, fn_ret: Ty, post: Option<SExpr>) -> bool
    decreases s,
{
    match s {
        SStmt::Decl { mutable, name, ty, value, .. } => decl_safe(decl_ty(ty, value, g), value, stmt_env(s, g)),
        SStmt::MultiDecl { names, value, .. } => multi_safe(names, value, g),
        SStmt::Assign { target, value, .. } => assign_safe(target, value, g),
        SStmt::Print(e, _) => emit_safe(e, g) && printable(gty(e, g)),
        SStmt::While { cond, body, .. } => emit_safe(cond, g) && block_safe(body, g, fn_ret, post),
        SStmt::If { cond, body, else_body, .. } => {
            &&& emit_safe(cond, g)
            &&& block_safe(body, g, fn_ret, post)
            &&& match else_body {
                Some(eb) => block_safe(eb, block_env(body, g), fn_ret, post),
                None => true,
            }
        },
        SStmt::Return(e, _) => return_safe(e, g, fn_ret, post),
        SStmt::Expr(e, _) => match e {
            SExpr::Pop { .. } => true,
            SExpr::Push { arr, value } => {
                &&& var_ty_or_i64(*arr, g.sc) is DArr
                &&& (var_ty_or_i64(*arr, g.sc)->DArr_0 as int) < g.tb.darrs.len()
                &&& emit_safe(*value, g)
            },
            SExpr::Del { map, key } => {
                &&& gty(*map, g) is MapOf
                &&& (gty(*map, g)->MapOf_0 as int) < g.tb.maps.len()
                &&& emit_safe(*key, g)
            },
            _ => emit_safe(e, g),
        },
        SStmt::Break(_) => true,
        SStmt::Continue(_) => true,
        SStmt::Panic(m, _) => emit_safe(m, g),
        SStmt::Check(c, m, _) => emit_safe(c, g) && emit_safe(m, g),
    }
}

pub open spec fn block_safe(ss: Seq<SStmt>, g: GEnv, fn_ret: Ty, post: Option<SExpr>) -> bool
    decreases ss,
{
    if ss.len() == 0 {
        true
    } else {
        block_safe(ss.drop_last(), g, fn_ret, post) && stmt_safe(ss.last(), block_env(ss.drop_last(), g), fn_ret, post)
    }
}

/// 语句的 C 文本
pub open spec fn stmt_text(s: SStmt, g: GEnv, fn_ret: Ty, post: Option<SExpr>, post_line: nat, level: nat) -> Seq<char>
    decreases s,
{
    match s {
        SStmt::Decl { mutable, name, ty, value, .. } => spec_emit_decl(name, decl_ty(ty, value, g), value, stmt_env(s, g), level),
        SStmt::MultiDecl { names, value, .. } => spec_emit_multi(names, value, g, level),
        SStmt::Assign { target, value, .. } => spec_emit_assign(target, value, g, level),
        SStmt::Print(e, _) => spec_print_line(gty(e, g), spec_emit_expr(e, g), level) + spec_move_nulls(e, false, g.sc, g.funcs, level),
        SStmt::While { cond, body, .. } => spec_indent(level) + "while ("@ + spec_emit_expr(cond, g) + ") {\n"@ + block_text(
            body,
            g,
            fn_ret,
            post,
            post_line,
            level + 1,
        ) + spec_indent(level) + "}\n"@,
        SStmt::If { cond, body, else_body, .. } => spec_indent(level) + "if ("@ + spec_emit_expr(cond, g) + ") {\n"@
            + block_text(body, g, fn_ret, post, post_line, level + 1) + (match else_body {
            Some(eb) => spec_indent(level) + "} else {\n"@ + block_text(eb, block_env(body, g), fn_ret, post, post_line, level + 1),
            None => seq![],
        }) + spec_indent(level) + "}\n"@,
        SStmt::Return(e, _) => spec_emit_return(e, g, fn_ret, post, post_line, level),
        SStmt::Expr(e, _) => match e {
            SExpr::Pop { arr } => spec_emit_pop(*arr, level),
            SExpr::Push { arr, value } => spec_emit_push(*arr, *value, g, level),
            SExpr::Del { map, key } => spec_emit_del(*map, *key, g, level),
            _ => spec_emit_expr_stmt(e, g, level),
        },
        SStmt::Break(_) => spec_indent(level) + "break;\n"@,
        SStmt::Continue(_) => spec_indent(level) + "continue;\n"@,
        SStmt::Panic(m, _) => spec_emit_panic(m, g, level),
        SStmt::Check(c, m, _) => spec_emit_check(c, m, g, level),
    }
}

pub open spec fn block_text(ss: Seq<SStmt>, g: GEnv, fn_ret: Ty, post: Option<SExpr>, post_line: nat, level: nat) -> Seq<char>
    decreases ss,
{
    if ss.len() == 0 {
        seq![]
    } else {
        block_text(ss.drop_last(), g, fn_ret, post, post_line, level) + stmt_text(
            ss.last(),
            block_env(ss.drop_last(), g),
            fn_ret,
            post,
            post_line,
            level,
        )
    }
}

#[verifier::spinoff_prover]
#[verifier::rlimit(60)]
fn emit_stmt_expr(
    e: &Expr,
    scope: &Scope,
    sigs: &FuncTable,
    structs: &[StructDef],
    tables: &TypeTables,
    out: &mut Vec<char>,
    level: usize,
)
    requires
        stmt_safe(SStmt::Expr(e@, 0), genv(*scope, *sigs, structs@, tables@), Ty::I64, None),
    ensures
        final(out)@ == old(out)@ + stmt_text(SStmt::Expr(e@, 0), genv(*scope, *sigs, structs@, tables@), Ty::I64, None, 0, level as nat),
{
    match e {
        Expr::Pop { arr } => emit_pop(arr, out, level),
        Expr::Push { arr, value } => emit_push(arr, value, scope, sigs, structs, tables, out, level),
        Expr::Del { map, key } => emit_del(map, key, scope, sigs, structs, tables, out, level),
        _ => emit_expr_stmt(e, scope, sigs, structs, tables, out, level),
    }
}

/// 语句：生成 C 文本并把声明登记进作用域
#[verifier::spinoff_prover]
#[verifier::rlimit(60)]
pub fn emit_stmt(
    s: &Stmt,
    scope: &mut Scope,
    sigs: &FuncTable,
    structs: &[StructDef],
    tables: &TypeTables,
    fn_ret: Ty,
    post: Option<&Expr>,
    post_line: usize,
    out: &mut Vec<char>,
    level: usize,
)
    requires
        stmt_safe(s@, genv(*old(scope), *sigs, structs@, tables@), fn_ret, post_view(post)),
        level + stmt_depth(s@) < usize::MAX,
    ensures
        genv(*final(scope), *sigs, structs@, tables@) == stmt_env(s@, genv(*old(scope), *sigs, structs@, tables@)),
        final(out)@ == old(out)@ + stmt_text(
            s@,
            genv(*old(scope), *sigs, structs@, tables@),
            fn_ret,
            post_view(post),
            post_line as nat,
            level as nat,
        ),
    decreases s,
{
    let ghost g = genv(*scope, *sigs, structs@, tables@);
    let ghost start = out@;
    match s {
        Stmt::Decl { mutable, name, ty, value, .. } => {
            emit_decl(name, *ty, value, *mutable, scope, sigs, structs, tables, out, level);
        },
        Stmt::MultiDecl { mutable, names, value, .. } => {
            emit_multi_decl(names, value, *mutable, scope, sigs, structs, tables, out, level);
        },
        Stmt::Assign { target, value, .. } => {
            emit_assign(target, value, scope, sigs, structs, tables, out, level);
        },
        Stmt::Print(e, _) => {
            emit_print(e, scope, sigs, structs, tables, out, level);
        },
        Stmt::While { cond, body, .. } => {
            let mut c: Vec<char> = Vec::new();
            emit_expr(cond, scope, sigs, structs, tables, &mut c);
            indent(out, level);
            push_str_chars("while (", out);
            push_all(&c, out);
            push_str_chars(") {\n", out);
            let ghost a = out@;
            emit_block(body, scope, sigs, structs, tables, fn_ret, post, post_line, out, level + 1);
            let ghost b = out@;
            indent(out, level);
            push_str_chars("}\n", out);
            assert(out@ =~= start + stmt_text(s@, g, fn_ret, post_view(post), post_line as nat, level as nat));
        },
        Stmt::If { cond, body, else_body, .. } => {
            let mut c: Vec<char> = Vec::new();
            emit_expr(cond, scope, sigs, structs, tables, &mut c);
            indent(out, level);
            push_str_chars("if (", out);
            push_all(&c, out);
            push_str_chars(") {\n", out);
            let ghost a = out@;
            emit_block(body, scope, sigs, structs, tables, fn_ret, post, post_line, out, level + 1);
            let ghost b = out@;
            match else_body {
                Some(eb) => {
                    indent(out, level);
                    push_str_chars("} else {\n", out);
                    emit_block(eb, scope, sigs, structs, tables, fn_ret, post, post_line, out, level + 1);
                },
                None => {},
            }
            let ghost c2 = out@;
            indent(out, level);
            push_str_chars("}\n", out);
            assert(out@ =~= start + stmt_text(s@, g, fn_ret, post_view(post), post_line as nat, level as nat));
        },
        Stmt::Return(e, _) => {
            let ev: Option<&Expr> = match e {
                Some(x) => Some(x),
                None => None,
            };
            assert(post_view(ev) == s@->Return_0);
            emit_return(ev, fn_ret, post, post_line, scope, sigs, structs, tables, out, level);
        },
        Stmt::Expr(e, _) => {
            emit_stmt_expr(e, scope, sigs, structs, tables, out, level);
        },
        Stmt::Break(_) => {
            indent(out, level);
            push_str_chars("break;\n", out);
        },
        Stmt::Continue(_) => {
            indent(out, level);
            push_str_chars("continue;\n", out);
        },
        Stmt::Panic(m, _) => {
            emit_panic(m, scope, sigs, structs, tables, out, level);
        },
        Stmt::Check(c, m, _) => {
            emit_check(c, m, scope, sigs, structs, tables, out, level);
        },
    }
}

/// 语句块：依次生成各语句，作用域随声明增长
pub fn emit_block(
    ss: &Vec<Stmt>,
    scope: &mut Scope,
    sigs: &FuncTable,
    structs: &[StructDef],
    tables: &TypeTables,
    fn_ret: Ty,
    post: Option<&Expr>,
    post_line: usize,
    out: &mut Vec<char>,
    level: usize,
)
    requires
        block_safe(stmts_view(ss@), genv(*old(scope), *sigs, structs@, tables@), fn_ret, post_view(post)),
        level + block_depth(stmts_view(ss@)) < usize::MAX,
    ensures
        genv(*final(scope), *sigs, structs@, tables@) == block_env(stmts_view(ss@), genv(*old(scope), *sigs, structs@, tables@)),
        final(out)@ == old(out)@ + block_text(
            stmts_view(ss@),
            genv(*old(scope), *sigs, structs@, tables@),
            fn_ret,
            post_view(post),
            post_line as nat,
            level as nat,
        ),
    decreases ss,
{
    let ghost g0 = genv(*scope, *sigs, structs@, tables@);
    let ghost v = stmts_view(ss@);
    let ghost start = out@;
    let mut i: usize = 0;
    while i < ss.len()
        invariant
            i <= ss@.len(),
            v == stmts_view(ss@),
            level + block_depth(v) < usize::MAX,
            block_safe(v, g0, fn_ret, post_view(post)),
            genv(*scope, *sigs, structs@, tables@) == block_env(v.take(i as int), g0),
            out@ == start + block_text(v.take(i as int), g0, fn_ret, post_view(post), post_line as nat, level as nat),
        decreases ss@.len() - i,
    {
        proof {
            lemma_block_safe_prefix(v, g0, fn_ret, post_view(post), i as int + 1);
            lemma_block_depth(v, i as int);
            let w = v.take(i + 1);
            assert(w.drop_last() =~= v.take(i as int));
            assert(w.last() == ss@[i as int]@);
        }
        emit_stmt(&ss[i], scope, sigs, structs, tables, fn_ret, post, post_line, out, level);
        proof {
            let w = v.take(i + 1);
            assert(w.drop_last() =~= v.take(i as int));
        }
        i = i + 1;
    }
    assert(v.take(ss@.len() as int) =~= v);
}

/// 语句的嵌套深度（循环与分支各加一层）
pub open spec fn stmt_depth(s: SStmt) -> nat
    decreases s,
{
    match s {
        SStmt::While { body, .. } => 1 + block_depth(body),
        SStmt::If { body, else_body, .. } => 1 + match else_body {
            Some(eb) => if block_depth(body) >= block_depth(eb) {
                block_depth(body)
            } else {
                block_depth(eb)
            },
            None => block_depth(body),
        },
        _ => 0,
    }
}

pub open spec fn block_depth(ss: Seq<SStmt>) -> nat
    decreases ss,
{
    if ss.len() == 0 {
        0
    } else if block_depth(ss.drop_last()) >= stmt_depth(ss.last()) {
        block_depth(ss.drop_last())
    } else {
        stmt_depth(ss.last())
    }
}

/// 块中每条语句的深度不超过块的深度
proof fn lemma_block_depth(ss: Seq<SStmt>, i: int)
    requires
        0 <= i < ss.len(),
    ensures
        stmt_depth(ss[i]) <= block_depth(ss),
    decreases ss.len(),
{
    if i < ss.len() - 1 {
        assert(ss.drop_last()[i] == ss[i]);
        lemma_block_depth(ss.drop_last(), i);
    }
}

/// 语句块可生成，则其任一前缀可生成
pub(crate) proof fn lemma_block_safe_prefix(ss: Seq<SStmt>, g: GEnv, fn_ret: Ty, post: Option<SExpr>, n: int)
    requires
        block_safe(ss, g, fn_ret, post),
        0 <= n <= ss.len(),
    ensures
        block_safe(ss.take(n), g, fn_ret, post),
    decreases ss.len(),
{
    if n < ss.len() {
        assert(ss.drop_last().take(n) =~= ss.take(n));
        lemma_block_safe_prefix(ss.drop_last(), g, fn_ret, post, n);
    } else {
        assert(ss.take(n) =~= ss);
    }
}

} // verus!
