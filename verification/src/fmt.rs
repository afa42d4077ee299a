//! 源码格式化器（tc fmt）
//!
//! AST → 规范化源码：统一缩进（4 空格）、运算符两侧空格、
//! 顶层顺序规范化为 use → struct → fn → 顶层语句。
//! 每个格式化函数的结果由同名的规约函数（`spec_*`）逐字给出。

use vstd::prelude::*;
use crate::ast::{
    Ty, BinOp, Expr, Stmt, Contract, FnDef, Program, StructDef, StructView, ArrDef, DArrDef,
    MapDef, TupleDef, SExpr, SStmt, SContract, SFnDef, spec_label, spec_binop_str, exprs_view,
    field_inits_view, entries_view, stmts_view, strs_view, fields_view, params_view,
    contracts_view, opt_str_view,
};
use crate::text::{chars_of, int_text, push_int, push_str_chars, string_of_all, radix_text};
use crate::type_check::{TypeTables, structs_view, tuples_view, spec_ty_label, ty_label};
use crate::parser::{fns_view, tuple_table_ok, tuple_elems_ok, scalar_of_name};
use crate::lexer::{TokenOf, spec_lex_spanned, scan_string, next_token_at, lex_from, line_at, ends_expr, Step};

verus! {

broadcast use vstd::std_specs::vec::axiom_vec_decreases_to_view;

// ───────────────────────── 类型名 ─────────────────────────

/// 格式化所用的类型表视图
pub struct TV {
    pub structs: Seq<StructView>,
    pub arrs: Seq<ArrDef>,
    pub darrs: Seq<DArrDef>,
    pub tuples: Seq<Seq<Ty>>,
    pub maps: Seq<MapDef>,
}

pub open spec fn tv_of(tb: TypeTables) -> TV {
    TV {
        structs: structs_view(tb.structs@),
        arrs: tb.arrs@,
        darrs: tb.darrs@,
        tuples: tuples_view(tb.tuples@),
        maps: tb.maps@,
    }
}

/// 元组的元素都不是元组（解析器保证：不支持嵌套元组）
pub open spec fn flat_tuples(tv: TV) -> bool {
    forall|i: int, j: int|
        0 <= i < tv.tuples.len() && 0 <= j < tv.tuples[i].len() ==> !(#[trigger] tv.tuples[i][j] is Tuple)
}

/// 非元组类型的类型名：i64[3]、Point、[]i64、map[str]i64、i32 ...
pub open spec fn ty_str_base(t: Ty, tv: TV) -> Seq<char> {
    spec_ty_label(t, tv.structs, tv.arrs, tv.darrs, tv.maps)
}

/// 类型名以 ", " 连接
pub open spec fn tys_join(ts: Seq<Ty>, tv: TV) -> Seq<char>
    decreases ts.len(),
{
    if ts.len() == 0 {
        seq![]
    } else if ts.len() == 1 {
        ty_str_base(ts[0], tv)
    } else {
        tys_join(ts.drop_last(), tv) + ", "@ + ty_str_base(ts.last(), tv)
    }
}

/// 类型名；元组还原为 (e1, e2, ...)
pub open spec fn spec_ty_str(t: Ty, tv: TV) -> Seq<char> {
    match t {
        Ty::Tuple(i) => if (i as int) < tv.tuples.len() {
            "("@ + tys_join(tv.tuples[i as int], tv) + ")"@
        } else {
            "tuple"@
        },
        _ => ty_str_base(t, tv),
    }
}

fn push_string(s: String, out: &mut Vec<char>)
    ensures
        final(out)@ == old(out)@ + s@,
{
    push_str_chars(s.as_str(), out);
}

/// 追加类型名
pub fn push_ty_str(t: Ty, tb: &TypeTables, out: &mut Vec<char>)
    requires
        flat_tuples(tv_of(*tb)),
    ensures
        final(out)@ == old(out)@ + spec_ty_str(t, tv_of(*tb)),
{
    match t {
        Ty::Tuple(i) => {
            if (i as usize) < tb.tuples.len() {
                let ghost tv = tv_of(*tb);
                let elems = &tb.tuples[i as usize].elems;
                assert(tv.tuples[i as int] == elems@);
                push_str_chars("(", out);
                let ghost start = out@;
                let mut j: usize = 0;
                while j < elems.len()
                    invariant
                        j <= elems@.len(),
                        tv == tv_of(*tb),
                        flat_tuples(tv),
                        (i as int) < tv.tuples.len(),
                        tv.tuples[i as int] == elems@,
                        out@ == start + tys_join(elems@.take(j as int), tv),
                    decreases elems@.len() - j,
                {
                    if j > 0 {
                        push_str_chars(", ", out);
                    }
                    let e = elems[j];
                    assert(!(tv.tuples[i as int][j as int] is Tuple));
                    let s = ty_label(e, tb.structs.as_slice(), tb);
                    push_string(s, out);
                    assert(elems@.take(j + 1).drop_last() =~= elems@.take(j as int));
                    j = j + 1;
                }
                assert(elems@.take(elems@.len() as int) =~= elems@);
                push_str_chars(")", out);
            } else {
                push_str_chars("tuple", out);
            }
        },
        _ => {
            let s = ty_label(t, tb.structs.as_slice(), tb);
            push_string(s, out);
        },
    }
}

/// 类型名
pub fn ty_str(t: Ty, tb: &TypeTables) -> (r: String)
    requires
        flat_tuples(tv_of(*tb)),
    ensures
        r@ == spec_ty_str(t, tv_of(*tb)),
{
    let mut out: Vec<char> = Vec::new();
    push_ty_str(t, tb, &mut out);
    string_of_all(&out)
}

// ───────────────────────── 字符串字面量 ─────────────────────────

/// 单个字符的转义：" \ 换行 制表（与词法分析器支持的转义一致）
pub open spec fn esc_char(c: char) -> Seq<char> {
    if c == '"' {
        seq!['\\', '"']
    } else if c == '\\' {
        seq!['\\', '\\']
    } else if c == '\n' {
        seq!['\\', 'n']
    } else if c == '\t' {
        seq!['\\', 't']
    } else {
        seq![c]
    }
}

pub open spec fn esc(s: Seq<char>) -> Seq<char>
    decreases s.len(),
{
    if s.len() == 0 {
        seq![]
    } else {
        esc(s.drop_last()) + esc_char(s.last())
    }
}

/// 字符串字面量重建
pub open spec fn spec_c_str_lit(s: Seq<char>) -> Seq<char> {
    seq!['"'] + esc(s) + seq!['"']
}

/// 追加字符串字面量
pub fn push_c_str_lit(s: &str, out: &mut Vec<char>)
    ensures
        final(out)@ == old(out)@ + spec_c_str_lit(s@),
{
    let cs = chars_of(s);
    let ghost start = out@;
    out.push('"');
    let mut i: usize = 0;
    while i < cs.len()
        invariant
            i <= cs@.len(),
            cs@ == s@,
            out@ == start + seq!['"'] + esc(cs@.take(i as int)),
        decreases cs@.len() - i,
    {
        let c = cs[i];
        if c == '"' {
            out.push('\\');
            out.push('"');
        } else if c == '\\' {
            out.push('\\');
            out.push('\\');
        } else if c == '\n' {
            out.push('\\');
            out.push('n');
        } else if c == '\t' {
            out.push('\\');
            out.push('t');
        } else {
            out.push(c);
        }
        assert(cs@.take(i + 1).drop_last() =~= cs@.take(i as int));
        i = i + 1;
    }
    assert(cs@.take(cs@.len() as int) =~= cs@);
    out.push('"');
}

/// 字符串字面量重建（转义 " \ \n \t）
pub fn c_str_lit(s: &str) -> (r: String)
    ensures
        r@ == spec_c_str_lit(s@),
{
    let mut out: Vec<char> = Vec::new();
    push_c_str_lit(s, &mut out);
    string_of_all(&out)
}

/// 转义前缀的转义是全文转义的前缀
proof fn lemma_esc_prefix(s: Seq<char>, k: int)
    requires
        0 <= k <= s.len(),
    ensures
        esc(s.take(k)).is_prefix_of(esc(s)),
    decreases s.len(),
{
    if k < s.len() {
        let d = s.drop_last();
        assert(s.take(k) =~= d.take(k));
        lemma_esc_prefix(d, k);
        assert(esc(d).is_prefix_of(esc(s)));
    } else {
        assert(s.take(k) =~= s);
    }
}

/// 扫描到一个字符的转义形式：读入该字符并前进转义形式的长度
proof fn lemma_scan_step(l: Seq<char>, p: int, acc: Seq<char>, c: char)
    requires
        0 <= p,
        p + esc_char(c).len() <= l.len(),
        forall|j: int| 0 <= j < esc_char(c).len() ==> l[p + j] == #[trigger] esc_char(c)[j],
    ensures
        scan_string(l, p, acc) == scan_string(l, p + esc_char(c).len(), acc.push(c)),
{
    let e = esc_char(c);
    assert(l[p + 0] == e[0]);
    if c == '"' || c == '\\' || c == '\n' || c == '\t' {
        assert(l[p + 1] == e[1]);
    }
}

/// 从转义文本中第 k 个字符的起点扫描，得到整个字符串的 Token，位置停在闭引号之后
#[verifier::spinoff_prover]
#[verifier::rlimit(30)]
proof fn lemma_scan_escaped(s: Seq<char>, k: int)
    requires
        0 <= k <= s.len(),
    ensures
        scan_string(spec_c_str_lit(s), 1 + esc(s.take(k)).len() as int, s.take(k)) == Step::Token(
            TokenOf::Str(s),
            spec_c_str_lit(s).len() as int,
        ),
    decreases s.len() - k,
{
    let l = spec_c_str_lit(s);
    let p: int = 1 + esc(s.take(k)).len() as int;
    lemma_esc_prefix(s, k);
    if k == s.len() {
        assert(s.take(k) =~= s);
        assert(l[p] == '"');
    } else {
        let c = s[k];
        let t1 = s.take(k + 1);
        assert(t1.drop_last() =~= s.take(k));
        assert(t1.last() == c);
        assert(esc(t1) == esc(s.take(k)) + esc_char(c));
        assert(s.take(k).push(c) =~= t1);
        lemma_esc_prefix(s, k + 1);
        let e = esc_char(c);
        assert forall|j: int| 0 <= j < e.len() implies l[p + j] == #[trigger] e[j] by {
            assert(esc(t1)[esc(s.take(k)).len() + j] == e[j]);
            assert(esc(s)[esc(s.take(k)).len() + j] == e[j]);
        }
        lemma_scan_step(l, p, s.take(k), c);
        lemma_scan_escaped(s, k + 1);
    }
}

/// 字符串字面量的重建文本经词法分析恰得到原字符串：转义 `"`、`\`、换行、制表符的方式
/// 与词法分析器解转义的方式互逆，因此 `c_str_lit(s)` 恰被读作一个字符串 Token（内容为 s）后接流尾
pub proof fn law_c_str_lit_lexes_back(s: Seq<char>)
    ensures
        spec_lex_spanned(spec_c_str_lit(s)) == Ok::<Seq<(TokenOf<Seq<char>>, int)>, (Seq<char>, int)>(
            seq![
                (TokenOf::Str(s), line_at(spec_c_str_lit(s), 0)),
                (TokenOf::Eof, line_at(spec_c_str_lit(s), spec_c_str_lit(s).len() as int)),
            ],
        ),
{
    let l = spec_c_str_lit(s);
    assert(s.take(0) =~= Seq::<char>::empty());
    assert(esc(s.take(0)) =~= Seq::<char>::empty());
    lemma_scan_escaped(s, 0);
    assert(l[0] == '"');
    assert(next_token_at(l, 0, false) == Step::Token(TokenOf::Str(s), l.len() as int));
    assert(next_token_at(l, l.len() as int, true) == Step::Token(TokenOf::<Seq<char>>::Eof, l.len() as int));
    let tail = seq![(TokenOf::<Seq<char>>::Eof, line_at(l, l.len() as int))];
    assert(lex_from(l, l.len() as int, true) == Ok::<Seq<(TokenOf<Seq<char>>, int)>, (Seq<char>, int)>(tail));
    assert(ends_expr(TokenOf::Str(s)));
    assert(seq![(TokenOf::Str(s), line_at(l, 0))] + tail =~= seq![
        (TokenOf::Str(s), line_at(l, 0)),
        (TokenOf::<Seq<char>>::Eof, line_at(l, l.len() as int)),
    ]);
    assert(lex_from(l, 0, false) == Ok::<Seq<(TokenOf<Seq<char>>, int)>, (Seq<char>, int)>(
        seq![(TokenOf::Str(s), line_at(l, 0))] + tail,
    ));
}

// ───────────────────────── 表达式 ─────────────────────────

/// 优先级：比较(1) < 加减(2) < 乘除(3) < 一元负号(4) < 初等(5)
pub open spec fn spec_prec(e: SExpr) -> u8 {
    match e {
        SExpr::Bin { op, .. } => match op {
            BinOp::Lt | BinOp::Gt | BinOp::Le | BinOp::Ge | BinOp::Eq | BinOp::Ne => 1,
            BinOp::Add | BinOp::Sub => 2,
            BinOp::Mul | BinOp::Div => 3,
        },
        SExpr::Neg(_) => 4,
        _ => 5,
    }
}

pub fn prec(e: &Expr) -> (r: u8)
    ensures
        r == spec_prec(e@),
{
    match e {
        Expr::Bin { op, .. } => match op {
            BinOp::Lt | BinOp::Gt | BinOp::Le | BinOp::Ge | BinOp::Eq | BinOp::Ne => 1,
            BinOp::Add | BinOp::Sub => 2,
            BinOp::Mul | BinOp::Div => 3,
        },
        Expr::Neg(_) => 4,
        _ => 5,
    }
}

/// 运算符文本
pub fn bin_op_str(op: BinOp) -> (r: &'static str)
    ensures
        r@ == spec_binop_str(op),
{
    op.c_str()
}

/// 表达式的源码文本。二元运算左结合：左操作数优先级低于本运算时加括号，右操作数优先级
/// 不高于本运算时加括号（`1 - (2 - 3)` 保持原树，`1 - 2 - 3` 不加括号）
pub open spec fn spec_fmt_expr(e: SExpr, tv: TV) -> Seq<char>
    decreases e,
{
    match e {
        SExpr::Int(v) => int_text(v as int),
        SExpr::Float(t) => t,
        SExpr::Str(s) => spec_c_str_lit(s),
        SExpr::Bool(b) => if b {
            "true"@
        } else {
            "false"@
        },
        SExpr::Var(n) => n,
        SExpr::TupExpr { elems, .. } => spec_fmt_list(elems, tv),
        SExpr::Neg(x) => "-"@ + if spec_prec(*x) < 5 {
            "("@ + spec_fmt_expr(*x, tv) + ")"@
        } else {
            spec_fmt_expr(*x, tv)
        },
        SExpr::Bin { op, lhs, rhs } => {
            let p = spec_prec(e);
            (if spec_prec(*lhs) < p {
                "("@ + spec_fmt_expr(*lhs, tv) + ")"@
            } else {
                spec_fmt_expr(*lhs, tv)
            }) + " "@ + spec_binop_str(op) + " "@ + (if spec_prec(*rhs) <= p {
                "("@ + spec_fmt_expr(*rhs, tv) + ")"@
            } else {
                spec_fmt_expr(*rhs, tv)
            })
        },
        SExpr::Call { name, args } => name + "("@ + spec_fmt_list(args, tv) + ")"@,
        SExpr::Convert { name, arg } => name + "("@ + spec_fmt_expr(*arg, tv) + ")"@,
        SExpr::Borrow(x) => "&"@ + spec_fmt_expr(*x, tv),
        SExpr::StructLit { name, fields, .. } => name + "{"@ + spec_fmt_fields(fields, tv) + "}"@,
        SExpr::Field(b, f) => spec_fmt_expr(*b, tv) + "."@ + f,
        SExpr::Index(b, i) => spec_fmt_expr(*b, tv) + "["@ + spec_fmt_expr(*i, tv) + "]"@,
        SExpr::Len(x) => "len("@ + spec_fmt_expr(*x, tv) + ")"@,
        SExpr::ArrLit { arr, elems } => (if (arr as int) < tv.arrs.len() {
            spec_label(tv.arrs[arr as int].elem) + "["@ + radix_text(tv.arrs[arr as int].len as nat, 10)
                + "]"@
        } else {
            seq![]
        }) + "{"@ + spec_fmt_list(elems, tv) + "}"@,
        SExpr::Sel { cond, a, b } => "sel("@ + spec_fmt_expr(*cond, tv) + ", "@ + spec_fmt_expr(*a, tv)
            + ", "@ + spec_fmt_expr(*b, tv) + ")"@,
        SExpr::DArrLit { darr, elems } => (if (darr as int) < tv.darrs.len() {
            "[]"@ + spec_label(tv.darrs[darr as int].elem)
        } else {
            seq![]
        }) + "{"@ + spec_fmt_list(elems, tv) + "}"@,
        SExpr::Push { arr, value } => "push("@ + spec_fmt_expr(*arr, tv) + ", "@ + spec_fmt_expr(
            *value,
            tv,
        ) + ")"@,
        SExpr::Pop { arr } => "pop("@ + spec_fmt_expr(*arr, tv) + ")"@,
        SExpr::Sub { s, start, n } => "sub("@ + spec_fmt_expr(*s, tv) + ", "@ + spec_fmt_expr(*start, tv)
            + ", "@ + spec_fmt_expr(*n, tv) + ")"@,
        SExpr::MapLit { map, entries } => (if (map as int) < tv.maps.len() {
            "map["@ + spec_label(tv.maps[map as int].key) + "]"@ + spec_label(tv.maps[map as int].val)
        } else {
            "map"@
        }) + "{"@ + spec_fmt_entries(entries, tv) + "}"@,
        SExpr::Has { map, key } => "has("@ + spec_fmt_expr(*map, tv) + ", "@ + spec_fmt_expr(*key, tv)
            + ")"@,
        SExpr::Keys(m) => "keys("@ + spec_fmt_expr(*m, tv) + ")"@,
        SExpr::Values(m) => "values("@ + spec_fmt_expr(*m, tv) + ")"@,
        SExpr::Del { map, key } => "del("@ + spec_fmt_expr(*map, tv) + ", "@ + spec_fmt_expr(*key, tv)
            + ")"@,
    }
}

/// 表达式以 ", " 连接
pub open spec fn spec_fmt_list(es: Seq<SExpr>, tv: TV) -> Seq<char>
    decreases es,
{
    if es.len() == 0 {
        seq![]
    } else if es.len() == 1 {
        spec_fmt_expr(es[0], tv)
    } else {
        spec_fmt_list(es.subrange(0, es.len() - 1), tv) + ", "@ + spec_fmt_expr(es[es.len() - 1], tv)
    }
}

/// 结构体字面量的字段：[名字:]值，以 ", " 连接
pub open spec fn spec_fmt_fields(fs: Seq<(Option<Seq<char>>, SExpr)>, tv: TV) -> Seq<char>
    decreases fs,
{
    if fs.len() == 0 {
        seq![]
    } else {
        let last = fs[fs.len() - 1];
        let item = match last.0 {
            Some(n) => n + ":"@,
            None => seq![],
        } + spec_fmt_expr(last.1, tv);
        if fs.len() == 1 {
            item
        } else {
            spec_fmt_fields(fs.subrange(0, fs.len() - 1), tv) + ", "@ + item
        }
    }
}

/// map 字面量的条目：k: v，以 ", " 连接
pub open spec fn spec_fmt_entries(es: Seq<(SExpr, SExpr)>, tv: TV) -> Seq<char>
    decreases es,
{
    if es.len() == 0 {
        seq![]
    } else {
        let last = es[es.len() - 1];
        let item = spec_fmt_expr(last.0, tv) + ": "@ + spec_fmt_expr(last.1, tv);
        if es.len() == 1 {
            item
        } else {
            spec_fmt_entries(es.subrange(0, es.len() - 1), tv) + ", "@ + item
        }
    }
}


/// 追加表达式的源码文本
#[verifier::spinoff_prover]
#[verifier::rlimit(60)]
pub fn fmt_expr(e: &Expr, tb: &TypeTables, out: &mut Vec<char>)
    ensures
        final(out)@ == old(out)@ + spec_fmt_expr(e@, tv_of(*tb)),
    decreases e,
{
    match e {
        Expr::Int(v) => push_int(*v, out),
        Expr::Float(t) => push_str_chars(t.as_str(), out),
        Expr::Str(s) => push_c_str_lit(s.as_str(), out),
        Expr::Bool(b) => push_str_chars(
            if *b {
                "true"
            } else {
                "false"
            },
            out,
        ),
        Expr::Var(n) => push_str_chars(n.as_str(), out),
        Expr::TupExpr { elems, .. } => fmt_list(elems, tb, out),
        Expr::Neg(x) => {
            push_str_chars("-", out);
            if prec(x) < 5 {
                push_str_chars("(", out);
                fmt_expr(x, tb, out);
                push_str_chars(")", out);
            } else {
                fmt_expr(x, tb, out);
            }
        },
        Expr::Bin { op, lhs, rhs } => {
            let p = prec(e);
            if prec(lhs) < p {
                push_str_chars("(", out);
                fmt_expr(lhs, tb, out);
                push_str_chars(")", out);
            } else {
                fmt_expr(lhs, tb, out);
            }
            push_str_chars(" ", out);
            push_str_chars(bin_op_str(*op), out);
            push_str_chars(" ", out);
            if prec(rhs) <= p {
                push_str_chars("(", out);
                fmt_expr(rhs, tb, out);
                push_str_chars(")", out);
            } else {
                fmt_expr(rhs, tb, out);
            }
        },
        Expr::Call { name, args } => {
            push_str_chars(name.as_str(), out);
            push_str_chars("(", out);
            fmt_list(args, tb, out);
            push_str_chars(")", out);
        },
        Expr::Convert { name, arg } => {
            push_str_chars(name.as_str(), out);
            push_str_chars("(", out);
            fmt_expr(arg, tb, out);
            push_str_chars(")", out);
        },
        Expr::Borrow(x) => {
            push_str_chars("&", out);
            fmt_expr(x, tb, out);
        },
        Expr::StructLit { name, fields, .. } => {
            push_str_chars(name.as_str(), out);
            push_str_chars("{", out);
            fmt_fields(fields, tb, out);
            push_str_chars("}", out);
        },
        Expr::Field(b, f) => {
            fmt_expr(b, tb, out);
            push_str_chars(".", out);
            push_str_chars(f.as_str(), out);
        },
        Expr::Index(b, i) => {
            fmt_expr(b, tb, out);
            push_str_chars("[", out);
            fmt_expr(i, tb, out);
            push_str_chars("]", out);
        },
        Expr::Len(x) => {
            push_str_chars("len(", out);
            fmt_expr(x, tb, out);
            push_str_chars(")", out);
        },
        Expr::ArrLit { arr, elems } => {
            if (*arr as usize) < tb.arrs.len() {
                let a = tb.arrs[*arr as usize];
                push_str_chars(a.elem.label(), out);
                push_str_chars("[", out);
                crate::text::push_decimal(a.len, out);
                push_str_chars("]", out);
            }
            push_str_chars("{", out);
            fmt_list(elems, tb, out);
            push_str_chars("}", out);
        },
        Expr::Sel { cond, a, b } => {
            push_str_chars("sel(", out);
            fmt_expr(cond, tb, out);
            push_str_chars(", ", out);
            fmt_expr(a, tb, out);
            push_str_chars(", ", out);
            fmt_expr(b, tb, out);
            push_str_chars(")", out);
        },
        Expr::DArrLit { darr, elems } => {
            if (*darr as usize) < tb.darrs.len() {
                let d = tb.darrs[*darr as usize];
                push_str_chars("[]", out);
                push_str_chars(d.elem.label(), out);
            }
            push_str_chars("{", out);
            fmt_list(elems, tb, out);
            push_str_chars("}", out);
        },
        Expr::Push { arr, value } => {
            push_str_chars("push(", out);
            fmt_expr(arr, tb, out);
            push_str_chars(", ", out);
            fmt_expr(value, tb, out);
            push_str_chars(")", out);
        },
        Expr::Pop { arr } => {
            push_str_chars("pop(", out);
            fmt_expr(arr, tb, out);
            push_str_chars(")", out);
        },
        Expr::Sub { s, start, n } => {
            push_str_chars("sub(", out);
            fmt_expr(s, tb, out);
            push_str_chars(", ", out);
            fmt_expr(start, tb, out);
            push_str_chars(", ", out);
            fmt_expr(n, tb, out);
            push_str_chars(")", out);
        },
        Expr::MapLit { map, entries } => {
            if (*map as usize) < tb.maps.len() {
                let m = tb.maps[*map as usize];
                push_str_chars("map[", out);
                push_str_chars(m.key.label(), out);
                push_str_chars("]", out);
                push_str_chars(m.val.label(), out);
            } else {
                push_str_chars("map", out);
            }
            push_str_chars("{", out);
            fmt_entries(entries, tb, out);
            push_str_chars("}", out);
        },
        Expr::Has { map, key } => {
            push_str_chars("has(", out);
            fmt_expr(map, tb, out);
            push_str_chars(", ", out);
            fmt_expr(key, tb, out);
            push_str_chars(")", out);
        },
        Expr::Keys(m) => {
            push_str_chars("keys(", out);
            fmt_expr(m, tb, out);
            push_str_chars(")", out);
        },
        Expr::Values(m) => {
            push_str_chars("values(", out);
            fmt_expr(m, tb, out);
            push_str_chars(")", out);
        },
        Expr::Del { map, key } => {
            push_str_chars("del(", out);
            fmt_expr(map, tb, out);
            push_str_chars(", ", out);
            fmt_expr(key, tb, out);
            push_str_chars(")", out);
        },
    }
}

/// 追加以 ", " 连接的表达式
fn fmt_list(es: &Vec<Expr>, tb: &TypeTables, out: &mut Vec<char>)
    ensures
        final(out)@ == old(out)@ + spec_fmt_list(exprs_view(es@), tv_of(*tb)),
    decreases es,
{
    let ghost start = out@;
    let ghost v = exprs_view(es@);
    let mut i: usize = 0;
    while i < es.len()
        invariant
            i <= es@.len(),
            v == exprs_view(es@),
            out@ == start + spec_fmt_list(v.take(i as int), tv_of(*tb)),
        decreases es@.len() - i,
    {
        if i > 0 {
            push_str_chars(", ", out);
        }
        fmt_expr(&es[i], tb, out);
        assert(v.take(i + 1).subrange(0, i as int) =~= v.take(i as int));
        i = i + 1;
    }
    assert(v.take(es@.len() as int) =~= v);
}

/// 追加结构体字面量的字段
fn fmt_fields(fs: &Vec<(Option<String>, Expr)>, tb: &TypeTables, out: &mut Vec<char>)
    ensures
        final(out)@ == old(out)@ + spec_fmt_fields(field_inits_view(fs@), tv_of(*tb)),
    decreases fs,
{
    let ghost start = out@;
    let ghost v = field_inits_view(fs@);
    let mut i: usize = 0;
    while i < fs.len()
        invariant
            i <= fs@.len(),
            v == field_inits_view(fs@),
            out@ == start + spec_fmt_fields(v.take(i as int), tv_of(*tb)),
        decreases fs@.len() - i,
    {
        if i > 0 {
            push_str_chars(", ", out);
        }
        let f = &fs[i];
        match &f.0 {
            Some(n) => {
                push_str_chars(n.as_str(), out);
                push_str_chars(":", out);
            },
            None => {},
        }
        fmt_expr(&f.1, tb, out);
        assert(v.take(i + 1).subrange(0, i as int) =~= v.take(i as int));
        i = i + 1;
    }
    assert(v.take(fs@.len() as int) =~= v);
}

/// 追加 map 字面量的条目
fn fmt_entries(es: &Vec<(Expr, Expr)>, tb: &TypeTables, out: &mut Vec<char>)
    ensures
        final(out)@ == old(out)@ + spec_fmt_entries(entries_view(es@), tv_of(*tb)),
    decreases es,
{
    let ghost start = out@;
    let ghost v = entries_view(es@);
    let mut i: usize = 0;
    while i < es.len()
        invariant
            i <= es@.len(),
            v == entries_view(es@),
            out@ == start + spec_fmt_entries(v.take(i as int), tv_of(*tb)),
        decreases es@.len() - i,
    {
        if i > 0 {
            push_str_chars(", ", out);
        }
        let kv = &es[i];
        fmt_expr(&kv.0, tb, out);
        push_str_chars(": ", out);
        fmt_expr(&kv.1, tb, out);
        assert(v.take(i + 1).subrange(0, i as int) =~= v.take(i as int));
        i = i + 1;
    }
    assert(v.take(es@.len() as int) =~= v);
}


// ───────────────────────── 语句 ─────────────────────────

/// 名字以 ", " 连接
pub open spec fn names_join(ns: Seq<Seq<char>>) -> Seq<char>
    decreases ns.len(),
{
    if ns.len() == 0 {
        seq![]
    } else if ns.len() == 1 {
        ns[0]
    } else {
        names_join(ns.drop_last()) + ", "@ + ns.last()
    }
}

/// 缩进：level 个 4 空格
pub open spec fn pad(level: nat) -> Seq<char>
    decreases level,
{
    if level == 0 {
        seq![]
    } else {
        pad((level - 1) as nat) + "    "@
    }
}

/// 按行加缩进时第 i 个字符的输出：换行后接缩进；紧跟换行的回车随行尾一起去掉
pub open spec fn indent_piece(b: Seq<char>, i: int, p: Seq<char>) -> Seq<char> {
    if b[i] == '\n' {
        seq!['\n'] + p
    } else if b[i] == '\r' && i + 1 < b.len() && b[i + 1] == '\n' {
        seq![]
    } else {
        seq![b[i]]
    }
}

/// 前 k 个字符的输出
pub open spec fn indent_prefix(b: Seq<char>, k: int, p: Seq<char>) -> Seq<char>
    decreases k,
{
    if k <= 0 {
        seq![]
    } else {
        indent_prefix(b, k - 1, p) + indent_piece(b, k - 1, p)
    }
}

/// 逐行加缩进（按 `str::lines` 分行：行以换行或回车换行结束，末尾的行结束可省），再补一个换行
pub open spec fn indent_lines(body: Seq<char>, p: Seq<char>) -> Seq<char> {
    if body.len() == 0 {
        seq!['\n']
    } else {
        let b = if body.last() == '\n' {
            body.drop_last()
        } else {
            body
        };
        let b2 = if b.len() > 0 && b.last() == '\r' && body.last() == '\n' {
            b.drop_last()
        } else {
            b
        };
        p + indent_prefix(b2, b2.len() as int, p) + seq!['\n']
    }
}

/// 语句本体的源码文本（不含缩进与结尾换行）
pub open spec fn spec_fmt_stmt_inner(s: SStmt, tv: TV) -> Seq<char>
    decreases s, 0int,
{
    match s {
        SStmt::Decl { mutable, name, ty, value, .. } => (if mutable {
            "//"@
        } else {
            "/"@
        }) + name + match ty {
            Some(t) => ":"@ + spec_ty_str(t, tv),
            None => seq![],
        } + "="@ + spec_fmt_expr(value, tv),
        SStmt::Assign { target, value, .. } => spec_fmt_expr(target, tv) + "="@ + spec_fmt_expr(value, tv),
        SStmt::Print(e, _) => "`"@ + spec_fmt_expr(e, tv),
        SStmt::While { cond, body, .. } => "w/"@ + spec_fmt_expr(cond, tv) + "{\n"@ + spec_fmt_block(
            body,
            1,
            tv,
        ) + "}"@,
        SStmt::If { cond, body, else_body, .. } => "i/"@ + spec_fmt_expr(cond, tv) + "{\n"@
            + spec_fmt_block(body, 1, tv) + "}"@ + match else_body {
            Some(eb) => "e/{\n"@ + spec_fmt_block(eb, 1, tv) + "}"@,
            None => seq![],
        },
        SStmt::Return(e, _) => "r/"@ + match e {
            Some(x) => spec_fmt_expr(x, tv),
            None => seq![],
        },
        SStmt::Break(_) => "break"@,
        SStmt::Continue(_) => "continue"@,
        SStmt::Panic(m, _) => "panic("@ + spec_fmt_expr(m, tv) + ")"@,
        SStmt::Check(c, m, _) => "check("@ + spec_fmt_expr(c, tv) + ", "@ + spec_fmt_expr(m, tv) + ")"@,
        SStmt::Expr(e, _) => spec_fmt_expr(e, tv),
        SStmt::MultiDecl { mutable, names, value, .. } => (if mutable {
            "//"@
        } else {
            "/"@
        }) + names_join(names) + "="@ + spec_fmt_expr(value, tv),
    }
}

/// 一条语句：本体逐行缩进 level 级，末尾换行
pub open spec fn spec_fmt_stmt(s: SStmt, level: nat, tv: TV) -> Seq<char>
    decreases s, 1int,
{
    indent_lines(spec_fmt_stmt_inner(s, tv), pad(level))
}

/// 语句序列，每条缩进 level 级
pub open spec fn spec_fmt_block(ss: Seq<SStmt>, level: nat, tv: TV) -> Seq<char>
    decreases ss, 2int,
{
    if ss.len() == 0 {
        seq![]
    } else {
        spec_fmt_block(ss.subrange(0, ss.len() - 1), level, tv) + spec_fmt_stmt(
            ss[ss.len() - 1],
            level,
            tv,
        )
    }
}

fn push_pad(level: usize, out: &mut Vec<char>)
    ensures
        final(out)@ == old(out)@ + pad(level as nat),
{
    let ghost start = out@;
    let mut i: usize = 0;
    while i < level
        invariant
            i <= level,
            out@ == start + pad(i as nat),
        decreases level - i,
    {
        push_str_chars("    ", out);
        i = i + 1;
    }
}

/// 逐行缩进后追加
fn push_indented(body: &Vec<char>, level: usize, out: &mut Vec<char>)
    ensures
        final(out)@ == old(out)@ + indent_lines(body@, pad(level as nat)),
{
    if body.len() == 0 {
        out.push('\n');
        return;
    }
    let mut n = body.len();
    if body[n - 1] == '\n' {
        n = n - 1;
        if n > 0 && body[n - 1] == '\r' {
            n = n - 1;
        }
    }
    let ghost b = if body@.last() == '\n' {
        body@.drop_last()
    } else {
        body@
    };
    let ghost b2 = if b.len() > 0 && b.last() == '\r' && body@.last() == '\n' {
        b.drop_last()
    } else {
        b
    };
    assert(b2 =~= body@.take(n as int));
    push_pad(level, out);
    let ghost start = out@;
    let ghost p = pad(level as nat);
    let mut i: usize = 0;
    while i < n
        invariant
            i <= n <= body@.len(),
            b2 =~= body@.take(n as int),
            p == pad(level as nat),
            out@ == start + indent_prefix(b2, i as int, p),
        decreases n - i,
    {
        let c = body[i];
        if c == '\n' {
            out.push('\n');
            push_pad(level, out);
        } else if c == '\r' && i + 1 < n && body[i + 1] == '\n' {
        } else {
            out.push(c);
        }
        proof {
            assert(b2[i as int] == c);
            assert(i + 1 < n ==> b2[i + 1] == body@[i + 1]);
            assert(indent_piece(b2, i as int, p) == if c == '\n' {
                seq!['\n'] + p
            } else if c == '\r' && i + 1 < b2.len() && b2[i + 1] == '\n' {
                seq![]
            } else {
                seq![c]
            });
        }
        i = i + 1;
    }
    out.push('\n');
}

/// 追加名字列表
fn push_names(ns: &Vec<String>, out: &mut Vec<char>)
    ensures
        final(out)@ == old(out)@ + names_join(strs_view(ns@)),
{
    let ghost start = out@;
    let ghost v = strs_view(ns@);
    let mut i: usize = 0;
    while i < ns.len()
        invariant
            i <= ns@.len(),
            v == strs_view(ns@),
            out@ == start + names_join(v.take(i as int)),
        decreases ns@.len() - i,
    {
        if i > 0 {
            push_str_chars(", ", out);
        }
        push_str_chars(ns[i].as_str(), out);
        assert(v.take(i + 1).drop_last() =~= v.take(i as int));
        i = i + 1;
    }
    assert(v.take(ns@.len() as int) =~= v);
}

/// 追加语句本体
#[verifier::spinoff_prover]
#[verifier::rlimit(60)]
pub fn fmt_stmt_inner(s: &Stmt, tb: &TypeTables, out: &mut Vec<char>)
    requires
        flat_tuples(tv_of(*tb)),
    ensures
        final(out)@ == old(out)@ + spec_fmt_stmt_inner(s@, tv_of(*tb)),
    decreases s, 0int,
{
    match s {
        Stmt::Decl { mutable, name, ty, value, .. } => {
            push_str_chars(
                if *mutable {
                    "//"
                } else {
                    "/"
                },
                out,
            );
            push_str_chars(name.as_str(), out);
            match ty {
                Some(t) => {
                    push_str_chars(":", out);
                    push_ty_str(*t, tb, out);
                },
                None => {},
            }
            push_str_chars("=", out);
            fmt_expr(value, tb, out);
        },
        Stmt::Assign { target, value, .. } => {
            fmt_expr(target, tb, out);
            push_str_chars("=", out);
            fmt_expr(value, tb, out);
        },
        Stmt::Print(e, _) => {
            push_str_chars("`", out);
            fmt_expr(e, tb, out);
        },
        Stmt::While { cond, body, .. } => {
            push_str_chars("w/", out);
            fmt_expr(cond, tb, out);
            push_str_chars("{\n", out);
            fmt_block(body, 1, tb, out);
            push_str_chars("}", out);
        },
        Stmt::If { cond, body, else_body, .. } => {
            push_str_chars("i/", out);
            fmt_expr(cond, tb, out);
            push_str_chars("{\n", out);
            fmt_block(body, 1, tb, out);
            push_str_chars("}", out);
            match else_body {
                Some(eb) => {
                    push_str_chars("e/{\n", out);
                    fmt_block(eb, 1, tb, out);
                    push_str_chars("}", out);
                },
                None => {},
            }
        },
        Stmt::Return(e, _) => {
            push_str_chars("r/", out);
            match e {
                Some(x) => fmt_expr(x, tb, out),
                None => {},
            }
        },
        Stmt::Break(_) => push_str_chars("break", out),
        Stmt::Continue(_) => push_str_chars("continue", out),
        Stmt::Panic(m, _) => {
            push_str_chars("panic(", out);
            fmt_expr(m, tb, out);
            push_str_chars(")", out);
        },
        Stmt::Check(c, m, _) => {
            push_str_chars("check(", out);
            fmt_expr(c, tb, out);
            push_str_chars(", ", out);
            fmt_expr(m, tb, out);
            push_str_chars(")", out);
        },
        Stmt::Expr(e, _) => fmt_expr(e, tb, out),
        Stmt::MultiDecl { mutable, names, value, .. } => {
            push_str_chars(
                if *mutable {
                    "//"
                } else {
                    "/"
                },
                out,
            );
            push_names(names, out);
            push_str_chars("=", out);
            fmt_expr(value, tb, out);
        },
    }
}

/// 追加一条语句（逐行缩进 level 级，末尾换行）
pub fn fmt_stmt(s: &Stmt, tb: &TypeTables, out: &mut Vec<char>, level: usize)
    requires
        flat_tuples(tv_of(*tb)),
    ensures
        final(out)@ == old(out)@ + spec_fmt_stmt(s@, level as nat, tv_of(*tb)),
    decreases s, 1int,
{
    let mut body: Vec<char> = Vec::new();
    fmt_stmt_inner(s, tb, &mut body);
    push_indented(&body, level, out);
}

/// 追加语句序列
fn fmt_block(ss: &Vec<Stmt>, level: usize, tb: &TypeTables, out: &mut Vec<char>)
    requires
        flat_tuples(tv_of(*tb)),
    ensures
        final(out)@ == old(out)@ + spec_fmt_block(stmts_view(ss@), level as nat, tv_of(*tb)),
    decreases ss, 2int,
{
    let ghost start = out@;
    let ghost v = stmts_view(ss@);
    let mut i: usize = 0;
    while i < ss.len()
        invariant
            i <= ss@.len(),
            v == stmts_view(ss@),
            flat_tuples(tv_of(*tb)),
            out@ == start + spec_fmt_block(v.take(i as int), level as nat, tv_of(*tb)),
        decreases ss@.len() - i,
    {
        fmt_stmt(&ss[i], tb, out, level);
        assert(v.take(i + 1).subrange(0, i as int) =~= v.take(i as int));
        i = i + 1;
    }
    assert(v.take(ss@.len() as int) =~= v);
}


// ───────────────────────── 整个程序 ─────────────────────────

/// 程序的类型表视图
pub open spec fn prog_tv(p: Program) -> TV {
    TV {
        structs: structs_view(p.structs@),
        arrs: p.arrs@,
        darrs: p.darrs@,
        tuples: tuples_view(p.tuples@),
        maps: p.maps@,
    }
}

/// use 行
pub open spec fn uses_text(us: Seq<Seq<char>>) -> Seq<char>
    decreases us.len(),
{
    if us.len() == 0 {
        seq![]
    } else {
        uses_text(us.drop_last()) + "use "@ + us.last() + "\n"@
    }
}

/// 结构体字段 名字:类型，以两个空格连接
pub open spec fn fields_text(fs: Seq<(Seq<char>, Ty, usize)>, tv: TV) -> Seq<char>
    decreases fs.len(),
{
    if fs.len() == 0 {
        seq![]
    } else {
        let item = fs.last().0 + ":"@ + spec_ty_str(fs.last().1, tv);
        if fs.len() == 1 {
            item
        } else {
            fields_text(fs.drop_last(), tv) + "  "@ + item
        }
    }
}

/// 本文件声明的结构体（导入的不输出）
pub open spec fn structs_text(ss: Seq<StructView>, tv: TV) -> Seq<char>
    decreases ss.len(),
{
    if ss.len() == 0 {
        seq![]
    } else {
        structs_text(ss.drop_last(), tv) + if ss.last().imported {
            seq![]
        } else {
            "struct "@ + ss.last().name + "{"@ + fields_text(ss.last().fields, tv) + "}\n"@
        }
    }
}

/// 形参 [&]名字[:类型]，以 ", " 连接
pub open spec fn params_text(ps: Seq<(Seq<char>, Option<Ty>, bool)>, tv: TV) -> Seq<char>
    decreases ps.len(),
{
    if ps.len() == 0 {
        seq![]
    } else {
        let p = ps.last();
        let item = (if p.2 {
            "&"@
        } else {
            seq![]
        }) + p.0 + match p.1 {
            Some(t) => ":"@ + spec_ty_str(t, tv),
            None => seq![],
        };
        if ps.len() == 1 {
            item
        } else {
            params_text(ps.drop_last(), tv) + ", "@ + item
        }
    }
}

/// 一行语义锚点；元组期望值带括号
pub open spec fn contract_text(c: SContract, tv: TV) -> Seq<char> {
    match c {
        SContract::Pre(e, _) => "@pre: "@ + spec_fmt_expr(e, tv) + "\n"@,
        SContract::Post(e, _) => "@post: "@ + spec_fmt_expr(e, tv) + "\n"@,
        SContract::Example { call, expected, .. } => "@example: "@ + spec_fmt_expr(call, tv) + " -> "@
            + (if expected is TupExpr {
            "("@ + spec_fmt_expr(expected, tv) + ")"@
        } else {
            spec_fmt_expr(expected, tv)
        }) + "\n"@,
    }
}

pub open spec fn contracts_text(cs: Seq<SContract>, tv: TV) -> Seq<char>
    decreases cs.len(),
{
    if cs.len() == 0 {
        seq![]
    } else {
        contracts_text(cs.drop_last(), tv) + contract_text(cs.last(), tv)
    }
}

/// 一个函数定义
pub open spec fn fn_text(f: SFnDef, tv: TV) -> Seq<char> {
    "f/"@ + f.name + "("@ + params_text(f.params, tv) + ")"@ + match f.ret {
        Some(r) => ":"@ + spec_ty_str(r, tv),
        None => seq![],
    } + "{\n"@ + contracts_text(f.contracts, tv) + spec_fmt_block(f.body, 1, tv) + "}\n"@
}

/// 本文件定义的函数（导入的不输出）
pub open spec fn funcs_text(fs: Seq<SFnDef>, tv: TV) -> Seq<char>
    decreases fs.len(),
{
    if fs.len() == 0 {
        seq![]
    } else {
        funcs_text(fs.drop_last(), tv) + if fs.last().imported {
            seq![]
        } else {
            fn_text(fs.last(), tv)
        }
    }
}

/// 格式化结果：use → struct → fn → 顶层语句，各段之间空一行
pub open spec fn spec_format(p: Program) -> Seq<char> {
    let tv = prog_tv(p);
    uses_text(strs_view(p.uses@)) + (if p.uses@.len() > 0 {
        "\n"@
    } else {
        seq![]
    }) + structs_text(structs_view(p.structs@), tv) + (if p.structs@.len() > 0 {
        "\n"@
    } else {
        seq![]
    }) + funcs_text(fns_view(p.funcs@), tv) + (if p.funcs@.len() > 0 && p.top@.len() > 0 {
        "\n"@
    } else {
        seq![]
    }) + spec_fmt_block(stmts_view(p.top@), 0, tv)
}

fn push_uses(us: &Vec<String>, out: &mut Vec<char>)
    ensures
        final(out)@ == old(out)@ + uses_text(strs_view(us@)),
{
    let ghost start = out@;
    let ghost v = strs_view(us@);
    let mut i: usize = 0;
    while i < us.len()
        invariant
            i <= us@.len(),
            v == strs_view(us@),
            out@ == start + uses_text(v.take(i as int)),
        decreases us@.len() - i,
    {
        push_str_chars("use ", out);
        push_str_chars(us[i].as_str(), out);
        push_str_chars("\n", out);
        assert(v.take(i + 1).drop_last() =~= v.take(i as int));
        i = i + 1;
    }
    assert(v.take(us@.len() as int) =~= v);
}

fn push_struct_decls(ss: &Vec<StructDef>, tb: &TypeTables, out: &mut Vec<char>)
    requires
        flat_tuples(tv_of(*tb)),
    ensures
        final(out)@ == old(out)@ + structs_text(structs_view(ss@), tv_of(*tb)),
{
    let ghost start = out@;
    let ghost v = structs_view(ss@);
    let mut i: usize = 0;
    while i < ss.len()
        invariant
            i <= ss@.len(),
            v == structs_view(ss@),
            flat_tuples(tv_of(*tb)),
            out@ == start + structs_text(v.take(i as int), tv_of(*tb)),
        decreases ss@.len() - i,
    {
        let sd = &ss[i];
        if !sd.imported {
            push_str_chars("struct ", out);
            push_str_chars(sd.name.as_str(), out);
            push_str_chars("{", out);
            let ghost fstart = out@;
            let ghost fv = fields_view(sd.fields@);
            let mut j: usize = 0;
            while j < sd.fields.len()
                invariant
                    j <= sd.fields@.len(),
                    fv == fields_view(sd.fields@),
                    flat_tuples(tv_of(*tb)),
                    out@ == fstart + fields_text(fv.take(j as int), tv_of(*tb)),
                decreases sd.fields@.len() - j,
            {
                if j > 0 {
                    push_str_chars("  ", out);
                }
                push_str_chars(sd.fields[j].name.as_str(), out);
                push_str_chars(":", out);
                push_ty_str(sd.fields[j].ty, tb, out);
                assert(fv.take(j + 1).drop_last() =~= fv.take(j as int));
                j = j + 1;
            }
            assert(fv.take(sd.fields@.len() as int) =~= fv);
            push_str_chars("}\n", out);
        }
        assert(v.take(i + 1).drop_last() =~= v.take(i as int));
        i = i + 1;
    }
    assert(v.take(ss@.len() as int) =~= v);
}

fn push_params(ps: &Vec<crate::ast::Param>, tb: &TypeTables, out: &mut Vec<char>)
    requires
        flat_tuples(tv_of(*tb)),
    ensures
        final(out)@ == old(out)@ + params_text(params_view(ps@), tv_of(*tb)),
{
    let ghost start = out@;
    let ghost v = params_view(ps@);
    let mut i: usize = 0;
    while i < ps.len()
        invariant
            i <= ps@.len(),
            v == params_view(ps@),
            flat_tuples(tv_of(*tb)),
            out@ == start + params_text(v.take(i as int), tv_of(*tb)),
        decreases ps@.len() - i,
    {
        if i > 0 {
            push_str_chars(", ", out);
        }
        let p = &ps[i];
        if p.borrow {
            push_str_chars("&", out);
        }
        push_str_chars(p.name.as_str(), out);
        match p.ty {
            Some(t) => {
                push_str_chars(":", out);
                push_ty_str(t, tb, out);
            },
            None => {},
        }
        assert(v.take(i + 1).drop_last() =~= v.take(i as int));
        i = i + 1;
    }
    assert(v.take(ps@.len() as int) =~= v);
}

fn push_contract(c: &Contract, tb: &TypeTables, out: &mut Vec<char>)
    ensures
        final(out)@ == old(out)@ + contract_text(c@, tv_of(*tb)),
{
    match c {
        Contract::Pre(e, _) => {
            push_str_chars("@pre: ", out);
            fmt_expr(e, tb, out);
            push_str_chars("\n", out);
        },
        Contract::Post(e, _) => {
            push_str_chars("@post: ", out);
            fmt_expr(e, tb, out);
            push_str_chars("\n", out);
        },
        Contract::Example { call, expected, .. } => {
            push_str_chars("@example: ", out);
            fmt_expr(call, tb, out);
            push_str_chars(" -> ", out);
            let tup = match expected {
                Expr::TupExpr { .. } => true,
                _ => false,
            };
            if tup {
                push_str_chars("(", out);
                fmt_expr(expected, tb, out);
                push_str_chars(")", out);
            } else {
                fmt_expr(expected, tb, out);
            }
            push_str_chars("\n", out);
        },
    }
}

fn push_contracts(cs: &Vec<Contract>, tb: &TypeTables, out: &mut Vec<char>)
    ensures
        final(out)@ == old(out)@ + contracts_text(contracts_view(cs@), tv_of(*tb)),
{
    let ghost start = out@;
    let ghost v = contracts_view(cs@);
    let mut i: usize = 0;
    while i < cs.len()
        invariant
            i <= cs@.len(),
            v == contracts_view(cs@),
            out@ == start + contracts_text(v.take(i as int), tv_of(*tb)),
        decreases cs@.len() - i,
    {
        push_contract(&cs[i], tb, out);
        assert(v.take(i + 1).drop_last() =~= v.take(i as int));
        i = i + 1;
    }
    assert(v.take(cs@.len() as int) =~= v);
}

fn push_fn(f: &FnDef, tb: &TypeTables, out: &mut Vec<char>)
    requires
        flat_tuples(tv_of(*tb)),
    ensures
        final(out)@ == old(out)@ + fn_text(f@, tv_of(*tb)),
{
    push_str_chars("f/", out);
    push_str_chars(f.name.as_str(), out);
    push_str_chars("(", out);
    push_params(&f.params, tb, out);
    push_str_chars(")", out);
    match f.ret {
        Some(r) => {
            push_str_chars(":", out);
            push_ty_str(r, tb, out);
        },
        None => {},
    }
    push_str_chars("{\n", out);
    push_contracts(&f.contracts, tb, out);
    fmt_block(&f.body, 1, tb, out);
    push_str_chars("}\n", out);
}

fn push_fns(fs: &Vec<FnDef>, tb: &TypeTables, out: &mut Vec<char>)
    requires
        flat_tuples(tv_of(*tb)),
    ensures
        final(out)@ == old(out)@ + funcs_text(fns_view(fs@), tv_of(*tb)),
{
    let ghost start = out@;
    let ghost v = fns_view(fs@);
    let mut i: usize = 0;
    while i < fs.len()
        invariant
            i <= fs@.len(),
            v == fns_view(fs@),
            flat_tuples(tv_of(*tb)),
            out@ == start + funcs_text(v.take(i as int), tv_of(*tb)),
        decreases fs@.len() - i,
    {
        if !fs[i].imported {
            push_fn(&fs[i], tb, out);
        }
        assert(v.take(i + 1).drop_last() =~= v.take(i as int));
        i = i + 1;
    }
    assert(v.take(fs@.len() as int) =~= v);
}

/// 格式化整个程序：use → struct → fn → 顶层语句（类型名依据程序自己的类型表）
pub fn format(prog: &Program) -> (r: String)
    requires
        flat_tuples(prog_tv(*prog)),
    ensures
        r@ == spec_format(*prog),
{
    let mut tb = TypeTables::new();
    tb.set_structs(prog.structs.as_slice());
    tb.set_arrs(prog.arrs.as_slice());
    tb.set_darrs(prog.darrs.as_slice());
    tb.set_tuples(prog.tuples.as_slice());
    tb.set_maps(prog.maps.as_slice());
    assert(tv_of(tb) == prog_tv(*prog));
    let mut out: Vec<char> = Vec::new();
    push_uses(&prog.uses, &mut out);
    if prog.uses.len() > 0 {
        push_str_chars("\n", &mut out);
    }
    push_struct_decls(&prog.structs, &tb, &mut out);
    if prog.structs.len() > 0 {
        push_str_chars("\n", &mut out);
    }
    push_fns(&prog.funcs, &tb, &mut out);
    if prog.funcs.len() > 0 && prog.top.len() > 0 {
        push_str_chars("\n", &mut out);
    }
    fmt_block(&prog.top, 0, &tb, &mut out);
    string_of_all(&out)
}


/// 规律：带类型标注的声明格式化后保留标注：文本恰是无标注时的文本在名字之后插入 `:` 与类型名；
/// 标量类型名（i32、i64、f64、bool）正是解析器读回同一类型的写法
pub proof fn law_decl_keeps_annotation(mutable: bool, name: Seq<char>, t: Ty, value: SExpr, line: usize, tv: TV)
    ensures
        ({
            let plain = spec_fmt_stmt_inner(SStmt::Decl { mutable, name, ty: None, value, line }, tv);
            let ann = spec_fmt_stmt_inner(SStmt::Decl { mutable, name, ty: Some(t), value, line }, tv);
            let k = plain.len() - (spec_fmt_expr(value, tv).len() + 1);
            &&& 0 <= k <= plain.len()
            &&& ann == plain.take(k) + ":"@ + spec_ty_str(t, tv) + plain.skip(k)
        }),
        (t == Ty::I32 || t == Ty::I64 || t == Ty::F64 || t == Ty::Bool) ==> scalar_of_name(spec_ty_str(t, tv))
            == Some(t),
        spec_fmt_stmt_inner(SStmt::Decl { mutable: true, name, ty: Some(t), value, line }, tv) == "/"@
            + spec_fmt_stmt_inner(SStmt::Decl { mutable: false, name, ty: Some(t), value, line }, tv),
        ("/"@ + name + ":"@).is_prefix_of(
            spec_fmt_stmt_inner(SStmt::Decl { mutable: false, name, ty: Some(t), value, line }, tv),
        ),
{
    reveal_strlit("/");
    reveal_strlit("//");
    reveal_strlit(":");
    assert("//"@ =~= "/"@ + "/"@);
    assert(spec_fmt_stmt_inner(SStmt::Decl { mutable: true, name, ty: Some(t), value, line }, tv) =~= "/"@
        + spec_fmt_stmt_inner(SStmt::Decl { mutable: false, name, ty: Some(t), value, line }, tv));
    assert(("/"@ + name + ":"@).is_prefix_of(
        spec_fmt_stmt_inner(SStmt::Decl { mutable: false, name, ty: Some(t), value, line }, tv),
    ));
    let head = (if mutable {
        "//"@
    } else {
        "/"@
    }) + name;
    let tail = "="@ + spec_fmt_expr(value, tv);
    let plain = spec_fmt_stmt_inner(SStmt::Decl { mutable, name, ty: None, value, line }, tv);
    let ann = spec_fmt_stmt_inner(SStmt::Decl { mutable, name, ty: Some(t), value, line }, tv);
    reveal_strlit("=");
    assert(plain =~= head + tail);
    assert(ann =~= head + (":"@ + spec_ty_str(t, tv)) + tail);
    let k = plain.len() - (spec_fmt_expr(value, tv).len() + 1);
    assert(k == head.len());
    assert(plain.take(k) =~= head);
    assert(plain.skip(k) =~= tail);
    reveal_strlit("i32");
    reveal_strlit("i64");
    reveal_strlit("f64");
    reveal_strlit("bool");
    assert("i32"@ != "i64"@ && "i32"@ != "f64"@ && "i32"@ != "bool"@) by {
        assert("i32"@[1] == '3' && "i64"@[1] == '6' && "f64"@[0] == 'f' && "bool"@.len() == 4);
    }
    assert("i64"@ != "f64"@ && "i64"@ != "bool"@ && "f64"@ != "bool"@) by {
        assert("i64"@[0] == 'i' && "f64"@[0] == 'f' && "bool"@.len() == 4);
    }
}

/// 解析器产出的程序都可格式化：其元组表合法（2–4 个非元组元素），因而满足 `format` 的前提
pub proof fn law_parsed_program_formats(p: Program)
    requires
        tuple_table_ok(tuples_view(p.tuples@)),
    ensures
        flat_tuples(prog_tv(p)),
{
    assert forall|i: int, j: int|
        0 <= i < prog_tv(p).tuples.len() && 0 <= j < prog_tv(p).tuples[i].len() implies !(
        #[trigger] prog_tv(p).tuples[i][j] is Tuple) by {
        assert(tuple_elems_ok(tuples_view(p.tuples@)[i]));
    }
}

/// 程序的元组表是否满足 `format` 的前提
pub fn can_format(prog: &Program) -> (r: bool)
    ensures
        r == flat_tuples(prog_tv(*prog)),
{
    let ghost tv = prog_tv(*prog);
    let mut i: usize = 0;
    while i < prog.tuples.len()
        invariant
            i <= prog.tuples@.len(),
            tv == prog_tv(*prog),
            forall|a: int, b: int|
                0 <= a < i && 0 <= b < tv.tuples[a].len() ==> !(#[trigger] tv.tuples[a][b] is Tuple),
        decreases prog.tuples@.len() - i,
    {
        let elems = &prog.tuples[i].elems;
        let mut j: usize = 0;
        while j < elems.len()
            invariant
                i < prog.tuples@.len(),
                j <= elems@.len(),
                tv == prog_tv(*prog),
                elems@ == tv.tuples[i as int],
                forall|a: int, b: int|
                    0 <= a < i && 0 <= b < tv.tuples[a].len() ==> !(#[trigger] tv.tuples[a][b] is Tuple),
                forall|b: int| 0 <= b < j ==> !(#[trigger] tv.tuples[i as int][b] is Tuple),
            decreases elems@.len() - j,
        {
            if elems[j].is_tuple() {
                return false;
            }
            j = j + 1;
        }
        i = i + 1;
    }
    true
}

} // verus!
