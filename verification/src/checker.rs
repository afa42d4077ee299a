//! 类型检查：AST 静态校验。
//!
//! 拦截 str/bool 与数字混用、只读变量赋值、未声明/重复声明、未定义函数、
//! 参数数量不符、条件非 bool、移动后使用、借用逃逸等。
//!
//! 规约以纯函数给出：表达式检查把 (变量表, 变量名顺序) 映射为 (类型, 新变量表) 或错误，
//! 语句检查把变量表映射为新变量表或错误；执行代码逐一证明与之相符。

use vstd::prelude::*;
use crate::ast::{
    Ty, StructDef, ArrDef, DArrDef, MapDef, Expr, SExpr, BinOp, spec_label, exprs_view,
    field_inits_view, entries_view, Stmt, SStmt, stmts_view, strs_view, SContract, SFnDef, Contract,
    FnDef, Param, Program, FieldDef, params_view, contracts_view,
};
use crate::parser::fns_view;
use crate::text::{int_text, radix_text, str_eq, push_str_chars, push_decimal, push_int, string_of_all};
use crate::type_check::{
    CheckError, VarInfo, Scope, FuncTable, FSig, TypeTables, err, strings_view, similar_candidates,
    spec_similar_candidates, spec_is_owned, value_assignable_s, label_of, spec_ty_of, spec_bin_ty,
    spec_len_ty, spec_snapshot_ty, spec_sel_unify, spec_convert_ty, field_pos, struct_pos,
    field_names, var_tys, TR, TbView, struct_by_id, struct_by_name, field_ty, arr_by_id, darr_by_id,
    map_by_id, ty_label, sel_unify, value_assignable, is_owned, norm, s2, s3, s5, lemma_field_pos,
    lemma_struct_pos, restore_moved, tuples_view, spec_check_args, snorm,
};
use crate::type_check::{ty_of, snapshot_type_of, len_type_of, convert_type_of, bin_type_of, borrow_type_of, ty_result, fsig_view, FuncSig};
use crate::parser::cat_nn;
use vstd::string::StringExecFns;
use crate::parser::msg_nn;
use crate::gen_c::{GEnv, gty, emit_safe};

verus! {

broadcast use vstd::std_specs::vec::axiom_vec_decreases_to_view;

/// 变量表的规约：名字到变量信息的映射，及名字的登记顺序（候选名按此顺序给出）
pub type SV = (Map<Seq<char>, VarInfo>, Seq<Seq<char>>);

/// 错误的规约：消息、行号、提示、候选名
pub type CE = (Seq<char>, usize, Seq<char>, Seq<Seq<char>>);

/// 表达式检查的结果：类型与检查后的变量表
pub type CR = Result<(Ty, SV), CE>;

/// 检查所处的环境：函数表、函数名顺序、结构体表、类型表
pub struct Env {
    pub funcs: Map<Seq<char>, FSig>,
    pub fnames: Seq<Seq<char>>,
    pub structs: Seq<StructDef>,
    pub tb: TbView,
}

pub open spec fn env_of(funcs: FuncTable, structs: Seq<StructDef>, tb: TbView) -> Env {
    Env { funcs: funcs.view(), fnames: funcs.names(), structs, tb }
}

pub open spec fn sv_of(scope: Scope) -> SV {
    (scope.view(), scope.names())
}

pub open spec fn ce(m: Seq<char>, line: usize) -> CE {
    (m, line, seq![], seq![])
}

/// 带候选名的错误：有候选时提示第一个
pub open spec fn ce_cands(m: Seq<char>, line: usize, pre: Seq<char>, c: Seq<Seq<char>>) -> CE {
    (
        m,
        line,
        if c.len() > 0 {
            pre + c[0] + "'？"@
        } else {
            seq![]
        },
        c,
    )
}

pub open spec fn ce_is(e: CheckError, c: CE) -> bool {
    &&& e.msg@ == c.0
    &&& e.line == c.1
    &&& e.hint@ == c.2
    &&& strings_view(e.candidates@) == c.3
}

/// 运行结果（返回值与检查后的变量表）与规约一致
pub open spec fn expr_ok(r: Result<Ty, CheckError>, after: SV, sr: CR) -> bool {
    match sr {
        Ok((t, sv)) => r == Ok::<Ty, CheckError>(t) && after == sv,
        Err(c) => r is Err && ce_is(r->Err_0, c),
    }
}

pub open spec fn lab(t: Ty, env: Env) -> Seq<char> {
    label_of(t, env.structs, env.tb)
}

/// 推导规约的结果配上行号（推导错误的行号统一改为 line），变量表不变
pub open spec fn at_line(tr: TR, sv: SV, line: usize) -> CR {
    match tr {
        Ok(t) => Ok((t, sv)),
        Err((m, h, c)) => Err((m, line, h, c)),
    }
}

pub open spec fn is_int_ty(t: Ty) -> bool {
    t == Ty::I32 || t == Ty::I64
}

/// 语句顶层的移动：值为堆类型变量时，源变量失效
pub open spec fn spec_mark_top_move(e: SExpr, sv: SV) -> SV {
    match e {
        SExpr::Var(n) => if sv.0.contains_key(n) && spec_is_owned(sv.0[n].ty) {
            (sv.0.insert(n, VarInfo { moved: true, ..sv.0[n] }), sv.1)
        } else {
            sv
        },
        _ => sv,
    }
}

/// 变量读取：未声明（带候选名）、移动后使用，或其类型
pub open spec fn spec_check_var(n: Seq<char>, sv: SV, line: usize) -> CR {
    if !sv.0.contains_key(n) {
        Err(
            ce_cands(
                "变量 '"@ + n + "' 未声明"@,
                line,
                "是否想用 '"@,
                spec_similar_candidates(n, sv.1),
            ),
        )
    } else if spec_is_owned(sv.0[n].ty) && sv.0[n].moved {
        Err(ce("变量 '"@ + n + "' 的值已被移动，不能再使用（需要副本请用 copy()）"@, line))
    } else {
        Ok((sv.0[n].ty, sv))
    }
}

/// 字段读取 p.f（bt 为已规范化的基类型）
pub open spec fn spec_check_field(bt: Ty, f: Seq<char>, sv: SV, env: Env, line: usize) -> CR {
    if bt is Struct && (bt->Struct_0 as int) < env.structs.len() {
        let sd = env.structs[bt->Struct_0 as int];
        let k = field_pos(sd.fields@, f, 0);
        if k < sd.fields@.len() {
            Ok((sd.fields@[k].ty, sv))
        } else {
            Err(
                ce_cands(
                    "结构体 '"@ + sd.name@ + "' 没有字段 '"@ + f + "'"@,
                    line,
                    "是否想用 '"@,
                    spec_similar_candidates(f, field_names(sd)),
                ),
            )
        }
    } else {
        Err(ce("类型 "@ + lab(bt, env) + " 没有字段（只有结构体能用 . 取字段）"@, line))
    }
}

/// 下标读取 a[i]（bt 为基表达式类型，it 为下标类型，ix 为下标表达式）
pub open spec fn spec_check_index(bt: Ty, it: Ty, ix: SExpr, sv: SV, env: Env, line: usize) -> CR {
    let nt = if bt == Ty::BorrowStr {
        Ty::Str
    } else {
        bt
    };
    if nt is MapOf && (nt->MapOf_0 as int) < env.tb.maps.len() {
        let m = env.tb.maps[nt->MapOf_0 as int];
        if !value_assignable_s(m.key, it, ix) {
            Err(ce("map 键期望 "@ + spec_label(m.key) + "，实际 "@ + lab(it, env), line))
        } else {
            Ok((m.val, sv))
        }
    } else if !is_int_ty(it) {
        Err(ce("数组下标必须是整数，实际 "@ + lab(it, env), line))
    } else if nt == Ty::Str {
        Ok((Ty::I64, sv))
    } else if nt is Arr && (nt->Arr_0 as int) < env.tb.arrs.len() {
        let a = env.tb.arrs[nt->Arr_0 as int];
        let last = radix_text((a.len - 1) as nat, 10);
        match ix {
            SExpr::Int(n) => if n < 0 || n >= a.len {
                Err(
                    ce(
                        "下标 "@ + int_text(n as int) + " 越界：数组长度为 "@ + radix_text(a.len as nat, 10)
                            + "（合法范围 0.."@ + last + "）"@,
                        line,
                    ),
                )
            } else {
                Ok((a.elem, sv))
            },
            SExpr::Neg(x) => match *x {
                SExpr::Int(n) => Err(
                    ce(
                        "下标 -"@ + int_text(n as int) + " 越界：数组下标不能为负（合法范围 0.."@ + last
                            + "）"@,
                        line,
                    ),
                ),
                _ => Ok((a.elem, sv)),
            },
            _ => Ok((a.elem, sv)),
        }
    } else if nt is DArr && (nt->DArr_0 as int) < env.tb.darrs.len() {
        Ok((env.tb.darrs[nt->DArr_0 as int].elem, sv))
    } else {
        Err(ce("类型 "@ + lab(nt, env) + " 不能取下标（只有数组能用 [i]）"@, line))
    }
}

/// has(m, k) 的键检查（mt、kt 已规范化）
pub open spec fn spec_check_has(mt: Ty, kt: Ty, key: SExpr, sv: SV, env: Env, line: usize) -> CR {
    if mt is MapOf && (mt->MapOf_0 as int) < env.tb.maps.len() {
        let m = env.tb.maps[mt->MapOf_0 as int];
        if !value_assignable_s(m.key, kt, key) {
            Err(ce("has() 键期望 "@ + spec_label(m.key) + "，实际 "@ + lab(kt, env), line))
        } else {
            Ok((Ty::Bool, sv))
        }
    } else {
        Err(ce("has() 第一个实参必须是 map，实际 "@ + lab(mt, env), line))
    }
}

/// 结构体字面量是否为命名式（任一字段带名字）
pub open spec fn lit_named(fs: Seq<(Option<Seq<char>>, SExpr)>) -> bool {
    exists|i: int| 0 <= i < fs.len() && (#[trigger] fs[i]).0 is Some
}

/// 结构体字面量是否含位置式字段
pub open spec fn lit_positional(fs: Seq<(Option<Seq<char>>, SExpr)>) -> bool {
    exists|i: int| 0 <= i < fs.len() && (#[trigger] fs[i]).0 is None
}

/// 表达式检查（带移动追踪）：返回类型与检查后的变量表
pub open spec fn spec_check_expr(e: SExpr, sv: SV, env: Env, line: usize) -> CR
    decreases e, 0int,
{
    match e {
        SExpr::Int(_) => Ok((Ty::I64, sv)),
        SExpr::Float(_) => Ok((Ty::F64, sv)),
        SExpr::Str(_) => Ok((Ty::Str, sv)),
        SExpr::Bool(_) => Ok((Ty::Bool, sv)),
        SExpr::Var(n) => spec_check_var(n, sv, line),
        SExpr::Neg(x) => match spec_check_expr(*x, sv, env, line) {
            Err(c) => Err(c),
            Ok((t, sv1)) => if t == Ty::I32 || t == Ty::I64 || t == Ty::F64 {
                Ok((t, sv1))
            } else {
                Err(ce("类型 "@ + spec_label(t) + " 不能取负号"@, line))
            },
        },
        SExpr::Bin { op, lhs, rhs } => match spec_check_expr(*lhs, sv, env, line) {
            Err(c) => Err(c),
            Ok((l0, sv1)) => match spec_check_expr(*rhs, sv1, env, line) {
                Err(c) => Err(c),
                Ok((r0, sv2)) => at_line(
                    spec_bin_ty(
                        op,
                        if l0 == Ty::BorrowStr {
                            Ty::Str
                        } else {
                            l0
                        },
                        if r0 == Ty::BorrowStr {
                            Ty::Str
                        } else {
                            r0
                        },
                    ),
                    sv2,
                    line,
                ),
            },
        },
        SExpr::Borrow(x) => at_line(
            spec_ty_of(SExpr::Borrow(x), var_tys(sv.0), env.funcs, env.structs, env.tb),
            sv,
            0,
        ),
        SExpr::Call { name, args } => if !env.funcs.contains_key(name) {
            Err(
                ce_cands(
                    "函数 '"@ + name + "' 未定义"@,
                    line,
                    "是否想调用 '"@,
                    spec_similar_candidates(name, env.fnames),
                ),
            )
        } else {
            let sig = env.funcs[name];
            if sig.params.len() != args.len() {
                Err(
                    ce(
                        msg_nn(
                            "函数 '"@ + name + "' 期望 "@,
                            sig.params.len(),
                            " 个参数，实际 "@,
                            args.len(),
                            " 个"@,
                        ),
                        line,
                    ),
                )
            } else {
                match spec_call_args(args, sig, name, 0, sv, env, line) {
                    Err(c) => Err(c),
                    Ok(sv1) => Ok((sig.ret, sv1)),
                }
            }
        },
        SExpr::Field(b, f) => match spec_check_expr(*b, sv, env, line) {
            Err(c) => Err(c),
            Ok((b0, sv1)) => spec_check_field(
                if b0 == Ty::BorrowStr {
                    Ty::Str
                } else {
                    b0
                },
                f,
                sv1,
                env,
                line,
            ),
        },
        SExpr::StructLit { name, fields, .. } => {
            let k = struct_pos(env.structs, name, 0);
            if k >= env.structs.len() {
                Err(ce("未知结构体 '"@ + name + "'"@, line))
            } else {
                let sd = env.structs[k];
                if lit_named(fields) && lit_positional(fields) {
                    Err(ce("结构体 '"@ + name + "' 的字面量不能混用位置式与命名式字段"@, line))
                } else if fields.len() != sd.fields@.len() {
                    Err(
                        ce(
                            msg_nn(
                                "结构体 '"@ + name + "' 期望 "@,
                                sd.fields@.len(),
                                " 个字段，实际 "@,
                                fields.len(),
                                " 个"@,
                            ),
                            line,
                        ),
                    )
                } else {
                    match spec_lit_fields(fields, sd, name, lit_named(fields), 0, sv, env, line) {
                        Err(c) => Err(c),
                        Ok(sv1) => Ok((Ty::Struct(k as u32), sv1)),
                    }
                }
            }
        },
        SExpr::ArrLit { arr, elems } => if (arr as int) >= env.tb.arrs.len() {
            Err(ce("内部错误：数组类型索引越界"@, line))
        } else {
            let a = env.tb.arrs[arr as int];
            if elems.len() != a.len {
                Err(
                    ce(
                        "数组 "@ + spec_label(a.elem) + "["@ + radix_text(a.len as nat, 10) + "] 期望 "@
                            + radix_text(a.len as nat, 10) + " 个元素，实际 "@ + radix_text(
                            elems.len(),
                            10,
                        ) + " 个"@,
                        line,
                    ),
                )
            } else {
                match spec_check_elems(elems, Some(a.elem), "数组元素 #"@, 0, sv, env, line) {
                    Err(c) => Err(c),
                    Ok(sv1) => Ok((Ty::Arr(arr), sv1)),
                }
            }
        },
        SExpr::Index(b, ix) => if !(*b is Var) {
            Err(ce("数组下标的左侧只能是数组变量（如 a[i]）"@, line))
        } else {
            match spec_check_expr(*b, sv, env, line) {
                Err(c) => Err(c),
                Ok((bt, sv1)) => match spec_check_expr(*ix, sv1, env, line) {
                    Err(c) => Err(c),
                    Ok((it, sv2)) => spec_check_index(bt, it, *ix, sv2, env, line),
                },
            }
        },
        SExpr::DArrLit { darr, elems } => if (darr as int) >= env.tb.darrs.len() {
            Err(ce("内部错误：动态数组类型索引越界"@, line))
        } else {
            match spec_check_elems(
                elems,
                Some(env.tb.darrs[darr as int].elem),
                "动态数组元素 #"@,
                0,
                sv,
                env,
                line,
            ) {
                Err(c) => Err(c),
                Ok(sv1) => Ok((Ty::DArr(darr), sv1)),
            }
        },
        SExpr::MapLit { map, entries } => if (map as int) >= env.tb.maps.len() {
            Err(ce("内部错误：关联数组类型索引越界"@, line))
        } else {
            match spec_map_entries(entries, env.tb.maps[map as int], 0, sv, env, line) {
                Err(c) => Err(c),
                Ok(sv1) => Ok((Ty::MapOf(map), sv1)),
            }
        },
        SExpr::Has { map, key } => match spec_check_expr(*map, sv, env, line) {
            Err(c) => Err(c),
            Ok((m0, sv1)) => {
                let mt = if m0 == Ty::BorrowStr {
                    Ty::Str
                } else {
                    m0
                };
                if !(mt is MapOf && (mt->MapOf_0 as int) < env.tb.maps.len()) {
                    spec_check_has(mt, Ty::I64, *key, sv1, env, line)
                } else {
                    match spec_check_expr(*key, sv1, env, line) {
                        Err(c) => Err(c),
                        Ok((k0, sv2)) => spec_check_has(
                            mt,
                            if k0 == Ty::BorrowStr {
                                Ty::Str
                            } else {
                                k0
                            },
                            *key,
                            sv2,
                            env,
                            line,
                        ),
                    }
                }
            },
        },
        SExpr::Keys(m) => match spec_check_expr(*m, sv, env, line) {
            Err(c) => Err(c),
            Ok((t, sv1)) => at_line(
                spec_snapshot_ty(
                    if t == Ty::BorrowStr {
                        Ty::Str
                    } else {
                        t
                    },
                    true,
                    env.structs,
                    env.tb,
                ),
                sv1,
                line,
            ),
        },
        SExpr::Values(m) => match spec_check_expr(*m, sv, env, line) {
            Err(c) => Err(c),
            Ok((t, sv1)) => at_line(
                spec_snapshot_ty(
                    if t == Ty::BorrowStr {
                        Ty::Str
                    } else {
                        t
                    },
                    false,
                    env.structs,
                    env.tb,
                ),
                sv1,
                line,
            ),
        },
        SExpr::Del { .. } => Err(ce("del 只能作为语句使用"@, line)),
        SExpr::Push { .. } => Err(ce("push 只能作为语句使用"@, line)),
        SExpr::Pop { .. } => Err(ce("pop 只能作为语句使用"@, line)),
        SExpr::Len(x) => match spec_check_expr(*x, sv, env, line) {
            Err(c) => Err(c),
            Ok((t, sv1)) => at_line(spec_len_ty(t, env.structs, env.tb), sv1, line),
        },
        SExpr::Sub { s, start, n } => match spec_check_expr(*s, sv, env, line) {
            Err(c) => Err(c),
            Ok((s0, sv1)) => {
                let st = if s0 == Ty::BorrowStr {
                    Ty::Str
                } else {
                    s0
                };
                if st != Ty::Str {
                    Err(ce("sub 实参必须是 str，实际 "@ + lab(st, env), line))
                } else {
                    match spec_check_expr(*start, sv1, env, line) {
                        Err(c) => Err(c),
                        Ok((t1, sv2)) => if !is_int_ty(t1) {
                            Err(ce("sub 的 start 必须是整数，实际 "@ + lab(t1, env), line))
                        } else {
                            match spec_check_expr(*n, sv2, env, line) {
                                Err(c) => Err(c),
                                Ok((t2, sv3)) => if !is_int_ty(t2) {
                                    Err(ce("sub 的 n 必须是整数，实际 "@ + lab(t2, env), line))
                                } else {
                                    Ok((Ty::Str, sv3))
                                },
                            }
                        },
                    }
                }
            },
        },
        SExpr::Sel { cond, a, b } => match spec_check_expr(*cond, sv, env, line) {
            Err(c) => Err(c),
            Ok((ct, sv1)) => if ct != Ty::Bool {
                Err(ce("sel 条件必须是 bool，实际 "@ + lab(ct, env), line))
            } else {
                match spec_check_expr(*a, sv1, env, line) {
                    Err(c) => Err(c),
                    Ok((at, sv2)) => match spec_check_expr(*b, sv2, env, line) {
                        Err(c) => Err(c),
                        Ok((bt, sv3)) => match spec_sel_unify(at, bt, lab(at, env), lab(bt, env)) {
                            Ok(t) => Ok((t, sv3)),
                            Err(m) => Err(ce(m, line)),
                        },
                    },
                }
            },
        },
        SExpr::TupExpr { elems, tup } => if (tup as int) >= env.tb.tuples.len() {
            Err(ce("内部错误：元组类型索引越界"@, line))
        } else if elems.len() != env.tb.tuples[tup as int].len() {
            Err(ce("元组元素个数与声明不符（内部错误）"@, line))
        } else {
            match spec_check_elems(elems, None, ""@, 0, sv, env, line) {
                Err(c) => Err(c),
                Ok(sv1) => Ok((Ty::Tuple(tup), sv1)),
            }
        },
        SExpr::Convert { name, arg } => if name == "copy"@ {
            match spec_copy_arg(*arg, sv, env, line) {
                Err(c) => Err(c),
                Ok((t, sv1)) => if t != Ty::Str && t != Ty::BorrowStr {
                    Err(ce("copy() 只能用于 str，实际 "@ + spec_label(t), line))
                } else {
                    Ok((Ty::Str, sv1))
                },
            }
        } else {
            match spec_check_expr(*arg, sv, env, line) {
                Err(c) => Err(c),
                Ok((t, sv1)) => if name == "tof"@ {
                    let nt = if t == Ty::BorrowStr {
                        Ty::Str
                    } else {
                        t
                    };
                    if nt != Ty::Str {
                        Err(ce("tof 实参必须是 str，实际 "@ + lab(nt, env), line))
                    } else {
                        Ok((Ty::F64, sv1))
                    }
                } else {
                    at_line(spec_convert_ty(name, t, *arg, env.structs, env.tb), sv1, line)
                },
            }
        },
    }
}

/// copy(x) 的实参：&变量 视为借用 str，其余按表达式检查
pub open spec fn spec_copy_arg(a: SExpr, sv: SV, env: Env, line: usize) -> CR
    decreases a, 1int,
{
    match a {
        SExpr::Borrow(inner) => if !(*inner is Var) {
            Err(ce("借用 & 只能作用于 str 变量"@, line))
        } else {
            match spec_check_expr(*inner, sv, env, line) {
                Err(c) => Err(c),
                Ok((it, sv1)) => if it != Ty::Str {
                    Err(ce("只能借用 str，实际 "@ + spec_label(it), line))
                } else {
                    Ok((Ty::BorrowStr, sv1))
                },
            }
        },
        _ => spec_check_expr(a, sv, env, line),
    }
}

/// 从第 i 个起逐个检查元素；elem 为 Some(t) 时要求可赋给 t，报错以 pre + 序号开头
pub open spec fn spec_check_elems(
    es: Seq<SExpr>,
    elem: Option<Ty>,
    pre: Seq<char>,
    i: int,
    sv: SV,
    env: Env,
    line: usize,
) -> Result<SV, CE>
    decreases es, es.len() - i,
{
    if i < 0 || i >= es.len() {
        Ok(sv)
    } else {
        match spec_check_expr(es[i], sv, env, line) {
            Err(c) => Err(c),
            Ok((vt, sv1)) => match elem {
                Some(t) => if !value_assignable_s(t, vt, es[i]) {
                    Err(
                        ce(
                            pre + radix_text(i as nat, 10) + " 期望 "@ + spec_label(t) + "，实际 "@
                                + lab(vt, env),
                            line,
                        ),
                    )
                } else {
                    spec_check_elems(es, elem, pre, i + 1, sv1, env, line)
                },
                None => spec_check_elems(es, elem, pre, i + 1, sv1, env, line),
            },
        }
    }
}

/// 从第 i 个起逐条检查 map 字面量条目的键与值
pub open spec fn spec_map_entries(
    es: Seq<(SExpr, SExpr)>,
    m: MapDef,
    i: int,
    sv: SV,
    env: Env,
    line: usize,
) -> Result<SV, CE>
    decreases es, es.len() - i,
{
    if i < 0 || i >= es.len() {
        Ok(sv)
    } else {
        match spec_check_expr(es[i].0, sv, env, line) {
            Err(c) => Err(c),
            Ok((k0, sv1)) => {
                let kt = if k0 == Ty::BorrowStr {
                    Ty::Str
                } else {
                    k0
                };
                if !value_assignable_s(m.key, kt, es[i].0) {
                    Err(
                        ce(
                            "map 条目 #"@ + radix_text(i as nat, 10) + " 键期望 "@ + spec_label(m.key)
                                + "，实际 "@ + lab(kt, env),
                            line,
                        ),
                    )
                } else {
                    match spec_check_expr(es[i].1, sv1, env, line) {
                        Err(c) => Err(c),
                        Ok((v0, sv2)) => {
                            let vt = if v0 == Ty::BorrowStr {
                                Ty::Str
                            } else {
                                v0
                            };
                            if !value_assignable_s(m.val, vt, es[i].1) {
                                Err(
                                    ce(
                                        "map 条目 #"@ + radix_text(i as nat, 10) + " 值期望 "@
                                            + spec_label(m.val) + "，实际 "@ + lab(vt, env),
                                        line,
                                    ),
                                )
                            } else {
                                spec_map_entries(es, m, i + 1, sv2, env, line)
                            }
                        },
                    }
                }
            },
        }
    }
}

/// 从第 i 个起逐个检查结构体字面量的字段值；named 为命名式
pub open spec fn spec_lit_fields(
    fs: Seq<(Option<Seq<char>>, SExpr)>,
    sd: StructDef,
    name: Seq<char>,
    named: bool,
    i: int,
    sv: SV,
    env: Env,
    line: usize,
) -> Result<SV, CE>
    decreases fs, fs.len() - i,
{
    if i < 0 || i >= fs.len() || i >= sd.fields@.len() {
        Ok(sv)
    } else {
        let n = if named {
            fs[i].0->Some_0
        } else {
            sd.fields@[i].name@
        };
        let k = if named {
            field_pos(sd.fields@, n, 0)
        } else {
            i
        };
        if k >= sd.fields@.len() {
            Err(
                ce_cands(
                    "结构体 '"@ + name + "' 没有字段 '"@ + n + "'"@,
                    line,
                    "是否想用 '"@,
                    spec_similar_candidates(n, field_names(sd)),
                ),
            )
        } else {
            let ft = sd.fields@[k].ty;
            match spec_check_expr(fs[i].1, sv, env, line) {
                Err(c) => Err(c),
                Ok((vt, sv1)) => if !value_assignable_s(ft, vt, fs[i].1) {
                    Err(
                        ce(
                            "结构体 '"@ + name + "' 的字段 '"@ + n + "' 期望 "@ + lab(ft, env)
                                + "，实际 "@ + lab(vt, env),
                            line,
                        ),
                    )
                } else {
                    spec_lit_fields(
                        fs,
                        sd,
                        name,
                        named,
                        i + 1,
                        if ft == Ty::Str {
                            spec_mark_top_move(fs[i].1, sv1)
                        } else {
                            sv1
                        },
                        env,
                        line,
                    )
                },
            }
        }
    }
}

/// 从第 i 个起逐个检查调用实参（含借用、移动规则）
pub open spec fn spec_call_args(
    args: Seq<SExpr>,
    sig: FSig,
    name: Seq<char>,
    i: int,
    sv: SV,
    env: Env,
    line: usize,
) -> Result<SV, CE>
    decreases args, args.len() - i,
{
    if i < 0 || i >= args.len() || i >= sig.params.len() {
        Ok(sv)
    } else {
        match spec_call_arg(
            args[i],
            sig.params[i],
            i < sig.borrows.len() && sig.borrows[i],
            name,
            sv,
            env,
            line,
        ) {
            Err(c) => Err(c),
            Ok(sv1) => spec_call_args(args, sig, name, i + 1, sv1, env, line),
        }
    }
}

/// 借用 &str 形参的实参：字面量、借用变量转借、&变量 或 &变量.字段
pub open spec fn spec_borrow_str_arg(a: SExpr, name: Seq<char>, sv: SV, env: Env, line: usize) -> Result<
    SV,
    CE,
>
    decreases a, 1int,
{
    match a {
        SExpr::Str(_) => Ok(sv),
        SExpr::Var(n) => if sv.0.contains_key(n) && sv.0[n].ty == Ty::BorrowStr {
            Ok(sv)
        } else {
            Err(ce("函数 '"@ + name + "' 的形参是借用 &str，实参需加 & 前缀（借用不移动源变量）"@, line))
        },
        SExpr::Borrow(inner) => match *inner {
            SExpr::Field(base, f) => match spec_check_expr(*base, sv, env, line) {
                Err(c) => Err(c),
                Ok((bt, sv1)) => if !(bt is Struct) {
                    Err(ce("只能借用 str 变量或结构体的 str 字段，实际 "@ + spec_label(bt), line))
                } else if (bt->Struct_0 as int) >= env.structs.len() {
                    Err(ce("内部错误：结构体索引越界"@, line))
                } else {
                    let sd = env.structs[bt->Struct_0 as int];
                    let k = field_pos(sd.fields@, f, 0);
                    if k >= sd.fields@.len() {
                        Err(ce("结构体 '"@ + sd.name@ + "' 没有字段 '"@ + f + "'"@, line))
                    } else if sd.fields@[k].ty != Ty::Str {
                        Err(ce("字段 '"@ + f + "' 不是 str 类型，只能借用 str 字段"@, line))
                    } else {
                        Ok(sv1)
                    }
                },
            },
            SExpr::Var(_) => match spec_check_expr(*inner, sv, env, line) {
                Err(c) => Err(c),
                Ok((t, sv1)) => if t != Ty::Str {
                    Err(ce("只能借用 str，实际 "@ + spec_label(t), line))
                } else {
                    Ok(sv1)
                },
            },
            _ => Err(ce("借用 & 只能作用于 str 变量或 str 字段（&变量 或 &变量.字段）"@, line)),
        },
        _ => Err(ce("函数 '"@ + name + "' 的形参是借用 &str，实参需加 & 前缀（借用不移动源变量）"@, line)),
    }
}

/// 实参所指的变量名：`h` 或 `&h`
pub open spec fn arg_var(a: SExpr) -> Option<Seq<char>> {
    match a {
        SExpr::Var(n) => Some(n),
        SExpr::Borrow(inner) => match *inner {
            SExpr::Var(n) => Some(n),
            _ => None,
        },
        _ => None,
    }
}

/// 实参类型已检查后的规则：数组形参、兼容性、借用形参、元组、动态数组、移动
pub open spec fn spec_arg_rules(
    a: SExpr,
    pt: Ty,
    at: Ty,
    is_borrow_param: bool,
    name: Seq<char>,
    sv1: SV,
    env: Env,
    line: usize,
) -> Result<SV, CE> {
    if pt is Arr {
        if !(a is Var) {
            Err(ce("函数 '"@ + name + "' 的数组形参只接受数组变量实参（只读视图传递）"@, line))
        } else if at != pt {
            Err(
                ce(
                    "函数 '"@ + name + "' 的数组形参期望 "@ + lab(pt, env) + "，实际 "@ + lab(at, env),
                    line,
                ),
            )
        } else {
            Ok(sv1)
        }
    } else if !value_assignable_s(pt, at, a) {
        Err(ce("函数 '"@ + name + "' 的参数期望 "@ + spec_label(pt) + "，实际 "@ + spec_label(at), line))
    } else if is_borrow_param {
        match arg_var(a) {
            Some(n) => if !sv1.0.contains_key(n) {
                Err(ce("变量 '"@ + n + "' 未声明"@, line))
            } else {
                let v = sv1.0[n];
                if v.is_borrow {
                    Ok(sv1)
                } else if !(v.ty is DArr && (v.ty->DArr_0 as int) < env.tb.darrs.len()) && !(v.ty is MapOf
                    && (v.ty->MapOf_0 as int) < env.tb.maps.len()) {
                    Err(ce("函数 '"@ + name + "' 的 &[]T/&map 形参期望动态数组或 map 变量"@, line))
                } else {
                    Ok(sv1)
                }
            },
            None => if a is Call {
                Ok(sv1)
            } else {
                Err(ce("函数 '"@ + name + "' 的 &[]T 形参只接受数组变量实参"@, line))
            },
        }
    } else if at is Tuple || pt is Tuple {
        Err(ce("函数 '"@ + name + "' 的元组不可作为实参（元组仅用于返回边界）"@, line))
    } else if pt is DArr && !(a is Var || a is Call) {
        match arg_var(a) {
            Some(n) => Err(
                ce(
                    "不能把借用 '&"@ + n + "' 传给接管所有权的形参（去掉 & 传值，或把形参改为 &[]T）"@,
                    line,
                ),
            ),
            None => Err(ce("函数 '"@ + name + "' 的动态数组实参只能是数组变量或函数调用"@, line)),
        }
    } else if spec_is_owned(pt) {
        if a is Field {
            Err(
                ce(
                    "不能把结构体字段移出传给 '"@ + name + "'（字段只能借用：调用 copy(p.x) 取副本）"@,
                    line,
                ),
            )
        } else {
            Ok(spec_mark_top_move(a, sv1))
        }
    } else {
        Ok(sv1)
    }
}

/// 一个调用实参
pub open spec fn spec_call_arg(
    a: SExpr,
    pt: Ty,
    is_borrow_param: bool,
    name: Seq<char>,
    sv: SV,
    env: Env,
    line: usize,
) -> Result<SV, CE>
    decreases a, 2int,
{
    if pt == Ty::BorrowStr {
        spec_borrow_str_arg(a, name, sv, env, line)
    } else if pt == Ty::Str && a is Borrow {
        Err(
            ce(
                "函数 '"@ + name + "' 的形参 str 接管所有权，实参不能是借用；去掉 & 传值，或将形参改为 &str"@,
                line,
            ),
        )
    } else {
        match spec_check_expr(a, sv, env, line) {
            Err(c) => Err(c),
            Ok((at, sv1)) => spec_arg_rules(a, pt, at, is_borrow_param, name, sv1, env, line),
        }
    }
}


// ───────────────────────── 语句规约 ─────────────────────────

/// 登记变量（同名覆盖；新名字追加到顺序末尾）
pub open spec fn sv_insert(sv: SV, n: Seq<char>, v: VarInfo) -> SV {
    (sv.0.insert(n, v), if sv.0.contains_key(n) {
        sv.1
    } else {
        sv.1.push(n)
    })
}

pub open spec fn new_var(t: Ty, mutable: bool) -> VarInfo {
    VarInfo { ty: t, mutable, moved: false, is_param: false, is_borrow: false }
}

/// 块作用域：块内声明不外泄；块内被移动的外层变量保持已移动
pub open spec fn block_scope(snap: SV, inner: Result<SV, CE>) -> Result<SV, CE> {
    match inner {
        Err(c) => Err(c),
        Ok(after) => Ok((restore_moved(snap.0, after.0), snap.1)),
    }
}

/// 值是否为动态数组的 str 元素 a[i]
pub open spec fn darr_str_elem(value: SExpr, sv: SV, env: Env) -> bool {
    match value {
        SExpr::Index(b, _) => match spec_ty_of(*b, var_tys(sv.0), env.funcs, env.structs, env.tb) {
            Ok(bt) => bt is DArr && spec_ty_of(value, var_tys(sv.0), env.funcs, env.structs, env.tb)
                == Ok::<Ty, (Seq<char>, Seq<char>, Seq<Seq<char>>)>(Ty::Str),
            Err(_) => false,
        },
        _ => false,
    }
}

/// 返回值是否为借用形参变量
pub open spec fn is_borrow_var(x: SExpr, sv: SV) -> bool {
    match x {
        SExpr::Var(n) => sv.0.contains_key(n) && sv.0[n].is_borrow,
        _ => false,
    }
}

/// 堆类型的值不能从动态数组的 str 元素或结构体字段中移出；检查通过则移动顶层变量
pub open spec fn spec_take_owned(value: SExpr, target: Ty, field_msg: Seq<char>, sv: SV, env: Env, line: usize) -> Result<
    SV,
    CE,
> {
    if !spec_is_owned(target) {
        Ok(sv)
    } else if darr_str_elem(value, sv, env) {
        Err(ce("不能把动态数组的 str 元素移出为所有者（容器负责释放；需要副本用 copy(a[i])）"@, line))
    } else if value is Field {
        Err(ce(field_msg, line))
    } else {
        Ok(spec_mark_top_move(value, sv))
    }
}

/// 声明语句
pub open spec fn spec_decl(
    mutable: bool,
    name: Seq<char>,
    ty: Option<Ty>,
    value: SExpr,
    line: usize,
    sv: SV,
    env: Env,
) -> Result<SV, CE> {
    if sv.0.contains_key(name) {
        Err(ce("变量 '"@ + name + "' 重复声明"@, line))
    } else {
        match spec_check_expr(value, sv, env, line) {
            Err(c) => Err(c),
            Ok((vt, sv1)) => {
                let target = match ty {
                    Some(t) => t,
                    None => vt,
                };
                if target == Ty::BorrowStr {
                    Err(
                        ce(
                            if ty is Some {
                                "局部变量不能声明为借用 &str（借用只存在于调用期间）"@
                            } else {
                                "借用不能取得所有权（&str 形参不可绑定给 str 变量；需要副本请用 copy()）"@
                            },
                            line,
                        ),
                    )
                } else if ty is Some && !value_assignable_s(ty->Some_0, vt, value) {
                    Err(
                        ce(
                            "类型标注 "@ + spec_label(ty->Some_0) + " 与实际类型 "@ + spec_label(vt) + " 不符"@,
                            line,
                        ),
                    )
                } else {
                    match spec_take_owned(
                        value,
                        target,
                        "不能把结构体字段移出为 "@ + lab(target, env) + " 所有者（请用 copy(p.x) 取副本）"@,
                        sv1,
                        env,
                        line,
                    ) {
                        Err(c) => Err(c),
                        Ok(sv2) => Ok(sv_insert(sv2, name, new_var(target, mutable))),
                    }
                }
            },
        }
    }
}

/// 解构声明：名字从第 i 个起不得已声明
pub open spec fn spec_names_fresh(names: Seq<Seq<char>>, i: int, sv: SV, line: usize) -> Result<(), CE>
    decreases names.len() - i,
{
    if i < 0 || i >= names.len() {
        Ok(())
    } else if sv.0.contains_key(names[i]) {
        Err(ce("变量 '"@ + names[i] + "' 重复声明"@, line))
    } else {
        spec_names_fresh(names, i + 1, sv, line)
    }
}

/// 解构声明：从第 i 个起按元组元素类型登记
pub open spec fn spec_bind_elems(
    names: Seq<Seq<char>>,
    elems: Seq<Ty>,
    mutable: bool,
    i: int,
    sv: SV,
    line: usize,
) -> Result<SV, CE>
    decreases names.len() - i,
{
    if i < 0 || i >= names.len() || i >= elems.len() {
        Ok(sv)
    } else if elems[i] == Ty::BorrowStr {
        Err(ce("解构的第 "@ + radix_text((i + 1) as nat, 10) + " 个元素是借用 &str，不能取得所有权"@, line))
    } else {
        spec_bind_elems(names, elems, mutable, i + 1, sv_insert(sv, names[i], new_var(elems[i], mutable)), line)
    }
}

pub open spec fn spec_multi_decl(
    mutable: bool,
    names: Seq<Seq<char>>,
    value: SExpr,
    line: usize,
    sv: SV,
    env: Env,
) -> Result<SV, CE> {
    match spec_check_expr(value, sv, env, line) {
        Err(c) => Err(c),
        Ok((vt, sv1)) => if !(vt is Tuple && (vt->Tuple_0 as int) < env.tb.tuples.len()) {
            Err(
                ce(
                    "解构赋值的右侧必须是返回元组的函数调用（元组仅存在于返回边界，不可作为值出现）"@,
                    line,
                ),
            )
        } else {
            let elems = env.tb.tuples[vt->Tuple_0 as int];
            if names.len() != elems.len() {
                Err(ce(msg_nn("解构数量不符：左侧 "@, names.len(), " 个，元组 "@, elems.len(), " 个元素"@), line))
            } else {
                match spec_names_fresh(names, 0, sv1, line) {
                    Err(c) => Err(c),
                    Ok(_) => spec_bind_elems(names, elems, mutable, 0, sv1, line),
                }
            }
        },
    }
}

/// 赋值左侧为 a[i] 时，下标已检查后的规则：结果为 (被赋值的变量名, 左侧类型)
pub open spec fn spec_index_target(bn: Seq<char>, info: VarInfo, it: Ty, idx: SExpr, env: Env, line: usize) -> Result<
    (Option<Seq<char>>, Ty),
    CE,
> {
    let map_param = info.is_param && info.ty is MapOf;
    if info.ty is MapOf && (info.ty->MapOf_0 as int) < env.tb.maps.len() {
        let m = env.tb.maps[info.ty->MapOf_0 as int];
        if info.is_borrow {
            Err(ce("变量 '"@ + bn + "' 是借用 &map[..]（只读视图），不能写元素"@, line))
        } else if !info.mutable && !map_param {
            Err(ce("变量 '"@ + bn + "' 是只读的（/ 声明），map 元素写入需重绑变量，请用 // 声明"@, line))
        } else if !value_assignable_s(m.key, it, idx) {
            Err(ce("map 键期望 "@ + spec_label(m.key) + "，实际 "@ + lab(it, env), line))
        } else {
            Ok((Some(bn), m.val))
        }
    } else if !is_int_ty(it) {
        Err(ce("数组下标必须是整数，实际 "@ + lab(it, env), line))
    } else if info.ty == Ty::Str || info.ty == Ty::BorrowStr {
        Err(ce("str 不可按下标赋值（str 不可变；用拼接构造新串）"@, line))
    } else if info.is_borrow {
        Err(ce("变量 '"@ + bn + "' 是借用 &[]T（只读视图），不能修改其元素"@, line))
    } else if info.ty is DArr && (info.ty->DArr_0 as int) < env.tb.darrs.len() {
        if idx matches SExpr::Neg(x) && *x is Int {
            Err(ce("数组下标不能为负"@, line))
        } else {
            Ok((None, env.tb.darrs[info.ty->DArr_0 as int].elem))
        }
    } else if info.ty is Arr && (info.ty->Arr_0 as int) < env.tb.arrs.len() {
        let a = env.tb.arrs[info.ty->Arr_0 as int];
        let last = radix_text((a.len - 1) as nat, 10);
        match idx {
            SExpr::Int(n) => if n < 0 || n >= a.len {
                Err(
                    ce(
                        "下标 "@ + int_text(n as int) + " 越界：数组长度为 "@ + radix_text(a.len as nat, 10)
                            + "（合法范围 0.."@ + last + "）"@,
                        line,
                    ),
                )
            } else {
                Ok((None, a.elem))
            },
            SExpr::Neg(x) => match *x {
                SExpr::Int(n) => Err(
                    ce(
                        "下标 -"@ + int_text(n as int) + " 越界：数组下标不能为负（合法范围 0.."@ + last
                            + "）"@,
                        line,
                    ),
                ),
                _ => Ok((None, a.elem)),
            },
            _ => Ok((None, a.elem)),
        }
    } else {
        Err(ce("类型 "@ + lab(info.ty, env) + " 不能按下标赋值（左侧必须是数组或 map）"@, line))
    }
}

/// 赋值左侧：结果为 (被赋值的变量名, 左侧类型, 检查后的变量表)
pub open spec fn spec_assign_target(target: SExpr, sv: SV, env: Env, line: usize) -> Result<
    (Option<Seq<char>>, Ty, SV),
    CE,
> {
    match target {
        SExpr::Var(name) => if !sv.0.contains_key(name) {
            Err(ce("变量 '"@ + name + "' 未声明（声明用 / 或 // 前缀）"@, line))
        } else if !sv.0[name].mutable {
            Err(ce("变量 '"@ + name + "' 是只读的（/ 声明），不能赋值"@, line))
        } else {
            Ok((Some(name), sv.0[name].ty, sv))
        },
        SExpr::Field(base, f) => match spec_check_expr(*base, sv, env, line) {
            Err(c) => Err(c),
            Ok((b0, sv1)) => {
                let bt = if b0 == Ty::BorrowStr {
                    Ty::Str
                } else {
                    b0
                };
                if !(bt is Struct && (bt->Struct_0 as int) < env.structs.len()) {
                    Err(ce("类型 "@ + lab(bt, env) + " 没有字段（只有结构体能用 . 取字段）"@, line))
                } else {
                    let sd = env.structs[bt->Struct_0 as int];
                    let k = field_pos(sd.fields@, f, 0);
                    if k >= sd.fields@.len() {
                        Err(ce("结构体 '"@ + sd.name@ + "' 没有字段 '"@ + f + "'"@, line))
                    } else {
                        match *base {
                            SExpr::Var(bn) => if !sv1.0.contains_key(bn) {
                                Err(ce("变量 '"@ + bn + "' 未声明"@, line))
                            } else if !sv1.0[bn].mutable {
                                Err(ce("变量 '"@ + bn + "' 是只读的（/ 声明），不能修改其字段"@, line))
                            } else if sv1.0[bn].moved {
                                Err(ce("变量 '"@ + bn + "' 的值已被移动，不能修改其字段"@, line))
                            } else {
                                Ok((None, sd.fields@[k].ty, sv1))
                            },
                            _ => Err(ce("只能给'变量.字段'赋值（如 p.x = 1）"@, line)),
                        }
                    }
                }
            },
        },
        SExpr::Index(base, idx) => match *base {
            SExpr::Var(bn) => if !sv.0.contains_key(bn) {
                Err(ce("变量 '"@ + bn + "' 未声明"@, line))
            } else {
                let info = sv.0[bn];
                let darr_param = info.is_param && info.ty is DArr;
                let map_param = info.is_param && info.ty is MapOf;
                if !info.mutable && !darr_param && !map_param {
                    Err(ce("变量 '"@ + bn + "' 是只读的（/ 声明），不能修改其元素"@, line))
                } else {
                    match spec_check_expr(*idx, sv, env, line) {
                        Err(c) => Err(c),
                        Ok((it, sv1)) => match spec_index_target(bn, info, it, *idx, env, line) {
                            Err(c) => Err(c),
                            Ok((vn, t)) => Ok((vn, t, sv1)),
                        },
                    }
                }
            },
            _ => Err(ce("数组下标赋值的左侧只能是数组变量（如 a[i]=1）"@, line)),
        },
        _ => Err(ce("赋值的左侧只能是变量、变量.字段 或 数组元素 a[i]"@, line)),
    }
}

/// 赋值语句
pub open spec fn spec_assign(target: SExpr, value: SExpr, line: usize, sv: SV, env: Env) -> Result<SV, CE> {
    match spec_assign_target(target, sv, env, line) {
        Err(c) => Err(c),
        Ok((vn, tt, sv1)) => match spec_check_expr(value, sv1, env, line) {
            Err(c) => Err(c),
            Ok((vt, sv2)) => if !value_assignable_s(tt, vt, value) {
                Err(ce("不能把 "@ + lab(vt, env) + " 赋给 "@ + lab(tt, env) + " 类型的左侧"@, line))
            } else {
                match spec_take_owned(
                    value,
                    tt,
                    "不能把结构体字段移出（字段只能借用：请用 copy(p.x) 取副本）"@,
                    sv2,
                    env,
                    line,
                ) {
                    Err(c) => Err(c),
                    Ok(sv3) => Ok(
                        match vn {
                            Some(n) => if sv3.0.contains_key(n) {
                                (sv3.0.insert(n, VarInfo { moved: false, ..sv3.0[n] }), sv3.1)
                            } else {
                                sv3
                            },
                            None => sv3,
                        },
                    ),
                }
            },
        },
    }
}

/// 打印语句：结构体、数组、元组、map 不能整体打印
pub open spec fn spec_print(e: SExpr, line: usize, sv: SV, env: Env) -> Result<SV, CE> {
    match spec_check_expr(e, sv, env, line) {
        Err(c) => Err(c),
        Ok((t, sv1)) => if t is Struct {
            Err(ce("不能直接打印结构体 '"@ + lab(t, env) + "'（请打印具体字段，如 p.x）"@, line))
        } else if t is Arr || t is DArr {
            Err(ce("不能直接打印数组 '"@ + lab(t, env) + "'（请打印元素如 `a[0]，或长度 `len(a)）"@, line))
        } else if t is Tuple {
            Err(
                ce(
                    "不能直接打印元组 '"@ + lab(t, env) + "'（请用 destructuring `//a, b = f()` 后分别打印 a、b）"@,
                    line,
                ),
            )
        } else if t is MapOf {
            Err(
                ce(
                    "不能直接打印 map '"@ + lab(t, env)
                        + "'（请打印具体键值，如 `has(m, \"x\")、`len(m) 或逐一 `m[k]）"@,
                    line,
                ),
            )
        } else {
            Ok(sv1)
        },
    }
}

/// 返回语句
pub open spec fn spec_return(e: Option<SExpr>, line: usize, sv: SV, env: Env, in_fn: bool, fn_ret: Ty) -> Result<
    SV,
    CE,
> {
    if !in_fn {
        Err(ce("r/ 返回只能出现在函数体内"@, line))
    } else {
        match e {
            None => Ok(sv),
            Some(x) => match spec_check_expr(x, sv, env, line) {
                Err(c) => Err(c),
                Ok((t, sv1)) => {
                    let container = fn_ret is DArr || fn_ret is MapOf;
                    if t == Ty::BorrowStr {
                        Err(
                            ce(
                                "借用不能逃逸函数（&str 形参不可返回；需要所有权请用 copy() 产生新所有者）"@,
                                line,
                            ),
                        )
                    } else if container && is_borrow_var(x, sv1) {
                        Err(
                            ce(
                                "借用 &[]T/&map 不可逃逸函数（借用形参不可返回；需要所有权请让调用方持有）"@,
                                line,
                            ),
                        )
                    } else if container && !(x is Var || x is Call) {
                        Err(ce("动态数组/map 返回值只能是变量或函数调用（字面量请先赋给变量）"@, line))
                    } else if !value_assignable_s(fn_ret, t, x) {
                        Err(
                            ce(
                                "r/ 返回值类型 "@ + lab(t, env) + " 与声明的返回类型 "@ + lab(fn_ret, env)
                                    + " 不符"@,
                                line,
                            ),
                        )
                    } else if spec_is_owned(fn_ret) {
                        if x is Field {
                            Err(ce("不能把结构体字段移出作为返回值（请用 copy(p.x) 返回副本）"@, line))
                        } else {
                            Ok(spec_mark_top_move(x, sv1))
                        }
                    } else {
                        Ok(sv1)
                    }
                },
            },
        }
    }
}

/// 语句级表达式：函数调用、push、pop、del
pub open spec fn spec_stmt_expr(e: SExpr, line: usize, sv: SV, env: Env) -> Result<SV, CE> {
    match e {
        SExpr::Call { .. } => match spec_check_expr(e, sv, env, line) {
            Err(c) => Err(c),
            Ok((_, sv1)) => Ok(sv1),
        },
        SExpr::Push { arr, value } => match *arr {
            SExpr::Var(bn) => if !sv.0.contains_key(bn) {
                Err(ce("变量 '"@ + bn + "' 未声明"@, line))
            } else {
                let info = sv.0[bn];
                if info.is_borrow {
                    Err(ce("变量 '"@ + bn + "' 是借用 &[]T（只读视图），不能 push"@, line))
                } else if !info.mutable && !info.is_param {
                    Err(ce("变量 '"@ + bn + "' 是只读的（/ 声明），不能 push"@, line))
                } else if !(info.ty is DArr && (info.ty->DArr_0 as int) < env.tb.darrs.len()) {
                    Err(ce("类型 "@ + lab(info.ty, env) + " 不能 push（只有动态数组可以）"@, line))
                } else {
                    let elem = env.tb.darrs[info.ty->DArr_0 as int].elem;
                    match spec_check_expr(*value, sv, env, line) {
                        Err(c) => Err(c),
                        Ok((vt, sv1)) => if !value_assignable_s(elem, vt, *value) {
                            Err(ce("push 元素期望 "@ + spec_label(elem) + "，实际 "@ + lab(vt, env), line))
                        } else if elem == Ty::Str {
                            Ok(spec_mark_top_move(*value, sv1))
                        } else {
                            Ok(sv1)
                        },
                    }
                }
            },
            _ => Err(ce("push 的实参必须是动态数组变量"@, line)),
        },
        SExpr::Pop { arr } => match *arr {
            SExpr::Var(bn) => if !sv.0.contains_key(bn) {
                Err(ce("变量 '"@ + bn + "' 未声明"@, line))
            } else {
                let info = sv.0[bn];
                if info.is_borrow {
                    Err(ce("变量 '"@ + bn + "' 是借用 &[]T（只读视图），不能 pop"@, line))
                } else if !info.mutable && !info.is_param {
                    Err(ce("变量 '"@ + bn + "' 是只读的（/ 声明），不能 pop"@, line))
                } else if !(info.ty is DArr && (info.ty->DArr_0 as int) < env.tb.darrs.len()) {
                    Err(ce("类型 "@ + lab(info.ty, env) + " 不能 pop（只有动态数组可以）"@, line))
                } else {
                    Ok(sv)
                }
            },
            _ => Err(ce("pop 的实参必须是动态数组变量"@, line)),
        },
        SExpr::Del { map, key } => match *map {
            SExpr::Var(bn) => if !sv.0.contains_key(bn) {
                Err(ce("变量 '"@ + bn + "' 未声明"@, line))
            } else {
                let info = sv.0[bn];
                if info.is_borrow {
                    Err(ce("变量 '"@ + bn + "' 是借用 &map[..]（只读视图），不能 del"@, line))
                } else if !(info.ty is MapOf && (info.ty->MapOf_0 as int) < env.tb.maps.len()) {
                    Err(ce("类型 "@ + lab(info.ty, env) + " 不能 del（只有 map 可以）"@, line))
                } else {
                    let m = env.tb.maps[info.ty->MapOf_0 as int];
                    match spec_check_expr(*key, sv, env, line) {
                        Err(c) => Err(c),
                        Ok((kt, sv1)) => if !value_assignable_s(m.key, kt, *key) {
                            Err(ce("del 键期望 "@ + spec_label(m.key) + "，实际 "@ + lab(kt, env), line))
                        } else {
                            Ok(sv1)
                        },
                    }
                }
            },
            _ => Err(ce("del 的第一个实参必须是 map 变量"@, line)),
        },
        _ => Err(ce("语句级表达式只能是函数调用、push、pop 或 del"@, line)),
    }
}

/// 条件表达式必须是 bool：what 为 "while" / "if" / "check"
pub open spec fn spec_cond(cond: SExpr, what: Seq<char>, line: usize, sv: SV, env: Env) -> Result<SV, CE> {
    match spec_check_expr(cond, sv, env, line) {
        Err(c) => Err(c),
        Ok((ct, sv1)) => if ct != Ty::Bool {
            Err(ce(what + " 条件必须是 bool，实际 "@ + lab(ct, env), line))
        } else {
            Ok(sv1)
        },
    }
}

/// 消息表达式必须是 str：what 为 "panic" / "check"
pub open spec fn spec_msg(msg: SExpr, what: Seq<char>, line: usize, sv: SV, env: Env) -> Result<SV, CE> {
    match spec_check_expr(msg, sv, env, line) {
        Err(c) => Err(c),
        Ok((t, sv1)) => if t != Ty::Str {
            Err(ce(what + " 消息必须是 str，实际 "@ + lab(t, env), line))
        } else {
            Ok(sv1)
        },
    }
}

/// 语句检查：in_fn 为是否在函数体内，fn_ret 为所在函数的返回类型，in_loop 为是否在循环体内
pub open spec fn spec_check_stmt(s: SStmt, sv: SV, env: Env, in_fn: bool, fn_ret: Ty, in_loop: bool) -> Result<
    SV,
    CE,
>
    decreases s, 0int,
{
    match s {
        SStmt::Decl { mutable, name, ty, value, line } => spec_decl(mutable, name, ty, value, line, sv, env),
        SStmt::MultiDecl { mutable, names, value, line } => spec_multi_decl(mutable, names, value, line, sv, env),
        SStmt::Assign { target, value, line } => spec_assign(target, value, line, sv, env),
        SStmt::Print(e, line) => spec_print(e, line, sv, env),
        SStmt::While { cond, body, line } => match spec_cond(cond, "while"@, line, sv, env) {
            Err(c) => Err(c),
            Ok(sv1) => block_scope(sv1, spec_check_block(body, 0, sv1, env, in_fn, fn_ret, true)),
        },
        SStmt::If { cond, body, else_body, line } => match spec_cond(cond, "if"@, line, sv, env) {
            Err(c) => Err(c),
            Ok(sv1) => match block_scope(sv1, spec_check_block(body, 0, sv1, env, in_fn, fn_ret, in_loop)) {
                Err(c) => Err(c),
                Ok(sv2) => match else_body {
                    None => Ok(sv2),
                    Some(eb) => block_scope(sv2, spec_check_block(eb, 0, sv2, env, in_fn, fn_ret, in_loop)),
                },
            },
        },
        SStmt::Return(e, line) => spec_return(e, line, sv, env, in_fn, fn_ret),
        SStmt::Panic(m, line) => spec_msg(m, "panic"@, line, sv, env),
        SStmt::Check(c, m, line) => match spec_cond(c, "check"@, line, sv, env) {
            Err(x) => Err(x),
            Ok(sv1) => spec_msg(m, "check"@, line, sv1, env),
        },
        SStmt::Break(line) => if !in_loop {
            Err(ce("break 只能出现在 w/ 循环体内"@, line))
        } else {
            Ok(sv)
        },
        SStmt::Continue(line) => if !in_loop {
            Err(ce("continue 只能出现在 w/ 循环体内"@, line))
        } else {
            Ok(sv)
        },
        SStmt::Expr(e, line) => spec_stmt_expr(e, line, sv, env),
    }
}

/// 从第 i 条起依次检查语句
pub open spec fn spec_check_block(
    ss: Seq<SStmt>,
    i: int,
    sv: SV,
    env: Env,
    in_fn: bool,
    fn_ret: Ty,
    in_loop: bool,
) -> Result<SV, CE>
    decreases ss, ss.len() - i,
{
    if i < 0 || i >= ss.len() {
        Ok(sv)
    } else {
        match spec_check_stmt(ss[i], sv, env, in_fn, fn_ret, in_loop) {
            Err(c) => Err(c),
            Ok(sv1) => spec_check_block(ss, i + 1, sv1, env, in_fn, fn_ret, in_loop),
        }
    }
}

// ───────────────────────── 程序规约 ─────────────────────────

pub open spec fn ty_or_i64(t: Option<Ty>) -> Ty {
    match t {
        Some(t) => t,
        None => Ty::I64,
    }
}

/// 形参的变量信息（只读；借用标记照抄）
pub open spec fn param_var(p: (Seq<char>, Option<Ty>, bool)) -> VarInfo {
    VarInfo { ty: ty_or_i64(p.1), mutable: false, moved: false, is_param: true, is_borrow: p.2 }
}

/// 由形参构成的初始作用域（按形参顺序登记）
pub open spec fn param_scope(ps: Seq<(Seq<char>, Option<Ty>, bool)>) -> SV
    decreases ps.len(),
{
    if ps.len() == 0 {
        (Map::empty(), seq![])
    } else {
        sv_insert(param_scope(ps.drop_last()), ps.last().0, param_var(ps.last()))
    }
}

/// 语义锚点的检查：base 为由形参构成的作用域，ret 为返回类型
pub open spec fn spec_contract(c: SContract, fname: Seq<char>, base: SV, env: Env, ret: Ty) -> Result<(), CE> {
    match c {
        SContract::Pre(e, line) => match spec_check_expr(e, base, env, line) {
            Err(x) => Err(x),
            Ok((t, _)) => if t != Ty::Bool {
                Err(ce("@pre 必须是 bool 表达式，实际 "@ + lab(t, env), line))
            } else {
                Ok(())
            },
        },
        SContract::Post(e, line) => if ret is Tuple {
            Err(ce("@post 不支持元组返回值（元组不可比较/不可访问单个元素）"@, line))
        } else {
            match spec_check_expr(e, sv_insert(base, "ret"@, new_var(ret, false)), env, line) {
                Err(x) => Err(x),
                Ok((t, _)) => if t != Ty::Bool {
                    Err(ce("@post 必须是 bool 表达式，实际 "@ + lab(t, env), line))
                } else if ret is Struct && (e matches SExpr::Bin { lhs, .. } && *lhs == SExpr::Var("ret"@)) {
                    Err(ce("结构体不能用 ==/!= 比较（请比较字段，如 ret.x == 1）"@, line))
                } else {
                    Ok(())
                },
            }
        },
        SContract::Example { call, expected, line } => if !(call matches SExpr::Call { name, .. } && name
            == fname) {
            Err(ce("@example 必须调用本函数自身（自测样例）"@, line))
        } else {
            match spec_check_expr(call, base, env, line) {
                Err(x) => Err(x),
                Ok((ct, sv1)) => match spec_check_expr(expected, sv1, env, line) {
                    Err(x) => Err(x),
                    Ok((et, _)) => if ct != ret {
                        Err(
                            ce(
                                "@example 调用返回类型 "@ + lab(ct, env) + " 与函数返回类型 "@ + lab(ret, env)
                                    + " 不符"@,
                                line,
                            ),
                        )
                    } else if et != ret {
                        Err(
                            ce(
                                "@example 期望值类型 "@ + lab(et, env) + " 与返回类型 "@ + lab(ret, env)
                                    + " 不符"@,
                                line,
                            ),
                        )
                    } else if ret is Struct {
                        Err(ce("结构体返回值不能用 @example 直接比对（请为返回字段的函数写样例）"@, line))
                    } else {
                        Ok(())
                    },
                },
            }
        },
    }
}

/// 从第 k 个起依次检查语义锚点
pub open spec fn spec_contracts(cs: Seq<SContract>, k: int, fname: Seq<char>, base: SV, env: Env, ret: Ty) -> Result<
    (),
    CE,
>
    decreases cs.len() - k,
{
    if k < 0 || k >= cs.len() {
        Ok(())
    } else {
        match spec_contract(cs[k], fname, base, env, ret) {
            Err(x) => Err(x),
            Ok(_) => spec_contracts(cs, k + 1, fname, base, env, ret),
        }
    }
}

/// 函数签名：省略的类型按 i64；借用标记只对动态数组 / map 形参成立
pub open spec fn spec_fn_sig(f: SFnDef) -> FSig {
    FSig {
        params: f.params.map_values(|p: (Seq<char>, Option<Ty>, bool)| ty_or_i64(p.1)),
        borrows: f.params.map_values(
            |p: (Seq<char>, Option<Ty>, bool)| p.2 && (p.1 matches Some(t) && (t is DArr || t is MapOf)),
        ),
        ret: ty_or_i64(f.ret),
    }
}

/// 从第 j 个起第一个与前面同名的形参
pub open spec fn first_dup_param(ps: Seq<(Seq<char>, Option<Ty>, bool)>, j: int) -> Option<Seq<char>>
    decreases ps.len() - j,
{
    if j < 0 || j >= ps.len() {
        None
    } else if exists|k: int| 0 <= k < j && ps[k].0 == ps[j].0 {
        Some(ps[j].0)
    } else {
        first_dup_param(ps, j + 1)
    }
}

/// 从第 i 个函数起登记函数表（m 为已登记的签名，names 为登记顺序）
pub open spec fn spec_build_funcs(fs: Seq<SFnDef>, i: int, m: Map<Seq<char>, FSig>, names: Seq<Seq<char>>) -> Result<
    (Map<Seq<char>, FSig>, Seq<Seq<char>>),
    CE,
>
    decreases fs.len() - i,
{
    if i < 0 || i >= fs.len() {
        Ok((m, names))
    } else {
        let f = fs[i];
        if m.contains_key(f.name) {
            Err(ce("函数 '"@ + f.name + "' 重复定义"@, 0))
        } else if f.ret == Some(Ty::BorrowStr) {
            Err(ce("函数 '"@ + f.name + "' 的返回类型不能是借用 &str"@, 0))
        } else if f.ret matches Some(t) && t is Arr {
            Err(ce("函数 '"@ + f.name + "' 的返回类型不能是数组"@, 0))
        } else {
            match first_dup_param(f.params, 0) {
                Some(pn) => Err(ce("函数 '"@ + f.name + "' 参数 '"@ + pn + "' 重复"@, 0)),
                None => spec_build_funcs(fs, i + 1, m.insert(f.name, spec_fn_sig(f)), names.push(f.name)),
            }
        }
    }
}

/// 结构体字段从第 j 个起：不能是借用、数组或 map
pub open spec fn spec_struct_fields(sd: StructDef, j: int) -> Result<(), CE>
    decreases sd.fields@.len() - j,
{
    if j < 0 || j >= sd.fields@.len() {
        Ok(())
    } else {
        let f = sd.fields@[j];
        let head = "结构体 '"@ + sd.name@ + "' 的字段 '"@ + f.name@;
        if f.ty == Ty::BorrowStr {
            Err(ce(head + "' 不能是借用 &str（借用不可存储在结构体中）"@, f.line))
        } else if f.ty is Arr || f.ty is DArr {
            Err(ce(head + "' 不能是数组类型（v3.3 暂不支持）"@, f.line))
        } else if f.ty is MapOf {
            Err(ce(head + "' 不能是 map 类型（v4.7 暂不支持嵌套容器）"@, f.line))
        } else {
            spec_struct_fields(sd, j + 1)
        }
    }
}

/// 结构体声明从第 i 个起：至少一个字段，且字段类型合法
pub open spec fn spec_struct_decls(ss: Seq<StructDef>, i: int) -> Result<(), CE>
    decreases ss.len() - i,
{
    if i < 0 || i >= ss.len() {
        Ok(())
    } else if ss[i].fields@.len() == 0 {
        Err(ce("结构体 '"@ + ss[i].name@ + "' 至少需要一个字段"@, ss[i].line))
    } else {
        match spec_struct_fields(ss[i], 0) {
            Err(x) => Err(x),
            Ok(_) => spec_struct_decls(ss, i + 1),
        }
    }
}

/// 函数体从第 i 个函数起：作用域仅含自身形参，随后检查语义锚点
pub open spec fn spec_fn_bodies(fs: Seq<SFnDef>, i: int, env: Env) -> Result<(), CE>
    decreases fs.len() - i,
{
    if i < 0 || i >= fs.len() {
        Ok(())
    } else {
        let f = fs[i];
        let ret = ty_or_i64(f.ret);
        match spec_check_block(f.body, 0, param_scope(f.params), env, true, ret, false) {
            Err(x) => Err(x),
            Ok(_) => match spec_contracts(f.contracts, 0, f.name, param_scope(f.params), env, ret) {
                Err(x) => Err(x),
                Ok(_) => spec_fn_bodies(fs, i + 1, env),
            },
        }
    }
}

/// 程序的类型表视图
pub open spec fn prog_tb(p: Program) -> TbView {
    TbView { arrs: p.arrs@, darrs: p.darrs@, tuples: tuples_view(p.tuples@), maps: p.maps@ }
}

/// 整个程序的检查：函数表 → 结构体声明 → 顶层语句（全局作用域）→ 各函数体与语义锚点
pub open spec fn spec_check(p: Program) -> Result<(), CE> {
    match spec_build_funcs(fns_view(p.funcs@), 0, Map::empty(), seq![]) {
        Err(x) => Err(x),
        Ok((m, names)) => match spec_struct_decls(p.structs@, 0) {
            Err(x) => Err(x),
            Ok(_) => {
                let env = Env { funcs: m, fnames: names, structs: p.structs@, tb: prog_tb(p) };
                match spec_check_block(stmts_view(p.top@), 0, (Map::empty(), seq![]), env, false, Ty::I64, false) {
                    Err(x) => Err(x),
                    Ok(_) => spec_fn_bodies(fns_view(p.funcs@), 0, env),
                }
            },
        },
    }
}

// ───────────────────────── 规律 ─────────────────────────

/// b 与 a 只差移动标记：名字顺序、变量集合、各变量的其他信息都不变
pub open spec fn moves_only(a: SV, b: SV) -> bool {
    &&& b.1 == a.1
    &&& b.0.dom() == a.0.dom()
    &&& forall|k: Seq<char>| #[trigger] a.0.contains_key(k) ==> b.0[k] == (VarInfo { moved: b.0[k].moved, ..a.0[k] })
}

proof fn lemma_moves_refl(a: SV)
    ensures
        moves_only(a, a),
{
}

proof fn lemma_moves_trans(a: SV, b: SV, c: SV)
    requires
        moves_only(a, b),
        moves_only(b, c),
    ensures
        moves_only(a, c),
{
    assert forall|k: Seq<char>| #[trigger] a.0.contains_key(k) implies c.0[k] == (VarInfo { moved: c.0[k].moved, ..a.0[k] }) by {
        assert(b.0.contains_key(k));
    }
}

proof fn lemma_mark_moves(e: SExpr, sv: SV)
    ensures
        moves_only(sv, spec_mark_top_move(e, sv)),
{
    let r = spec_mark_top_move(e, sv);
    if e is Var {
        let n = e->Var_0;
        if sv.0.contains_key(n) && spec_is_owned(sv.0[n].ty) {
            assert(r.0.dom() =~= sv.0.dom());
        }
    }
}

/// 规律：表达式检查不声明变量、不改变变量的类型与其他信息，只可能把变量标记为已移动
pub proof fn law_check_expr_only_moves(e: SExpr, sv: SV, env: Env, line: usize)
    ensures
        spec_check_expr(e, sv, env, line) matches Ok((_, sv1)) ==> moves_only(sv, sv1),
    decreases e, 0int,
{
    lemma_moves_refl(sv);
    match e {
        SExpr::Neg(x) => law_check_expr_only_moves(*x, sv, env, line),
        SExpr::Bin { lhs, rhs, .. } => {
            law_check_expr_only_moves(*lhs, sv, env, line);
            if let Ok((_, sv1)) = spec_check_expr(*lhs, sv, env, line) {
                law_check_expr_only_moves(*rhs, sv1, env, line);
                if let Ok((_, sv2)) = spec_check_expr(*rhs, sv1, env, line) {
                    lemma_moves_trans(sv, sv1, sv2);
                }
            }
        },
        SExpr::Call { name, args } => {
            if env.funcs.contains_key(name) {
                lemma_call_args_moves(args, env.funcs[name], name, 0, sv, env, line);
            }
        },
        SExpr::Field(b, _) => law_check_expr_only_moves(*b, sv, env, line),
        SExpr::StructLit { name, fields, .. } => {
            let k = struct_pos(env.structs, name, 0);
            if k < env.structs.len() {
                lemma_lit_fields_moves(fields, env.structs[k], name, lit_named(fields), 0, sv, env, line);
            }
        },
        SExpr::ArrLit { arr, elems } => {
            if (arr as int) < env.tb.arrs.len() {
                lemma_elems_moves(elems, Some(env.tb.arrs[arr as int].elem), "数组元素 #"@, 0, sv, env, line);
            }
        },
        SExpr::Index(b, ix) => {
            law_check_expr_only_moves(*b, sv, env, line);
            if let Ok((_, sv1)) = spec_check_expr(*b, sv, env, line) {
                law_check_expr_only_moves(*ix, sv1, env, line);
                if let Ok((_, sv2)) = spec_check_expr(*ix, sv1, env, line) {
                    lemma_moves_trans(sv, sv1, sv2);
                }
            }
        },
        SExpr::DArrLit { darr, elems } => {
            if (darr as int) < env.tb.darrs.len() {
                lemma_elems_moves(elems, Some(env.tb.darrs[darr as int].elem), "动态数组元素 #"@, 0, sv, env, line);
            }
        },
        SExpr::MapLit { map, entries } => {
            if (map as int) < env.tb.maps.len() {
                lemma_entries_moves(entries, env.tb.maps[map as int], 0, sv, env, line);
            }
        },
        SExpr::Has { map, key } => {
            law_check_expr_only_moves(*map, sv, env, line);
            if let Ok((_, sv1)) = spec_check_expr(*map, sv, env, line) {
                law_check_expr_only_moves(*key, sv1, env, line);
                if let Ok((_, sv2)) = spec_check_expr(*key, sv1, env, line) {
                    lemma_moves_trans(sv, sv1, sv2);
                }
            }
        },
        SExpr::Keys(m) => law_check_expr_only_moves(*m, sv, env, line),
        SExpr::Values(m) => law_check_expr_only_moves(*m, sv, env, line),
        SExpr::Len(x) => law_check_expr_only_moves(*x, sv, env, line),
        SExpr::Sub { s, start, n } => {
            law_check_expr_only_moves(*s, sv, env, line);
            if let Ok((_, sv1)) = spec_check_expr(*s, sv, env, line) {
                law_check_expr_only_moves(*start, sv1, env, line);
                if let Ok((_, sv2)) = spec_check_expr(*start, sv1, env, line) {
                    lemma_moves_trans(sv, sv1, sv2);
                    law_check_expr_only_moves(*n, sv2, env, line);
                    if let Ok((_, sv3)) = spec_check_expr(*n, sv2, env, line) {
                        lemma_moves_trans(sv, sv2, sv3);
                    }
                }
            }
        },
        SExpr::Sel { cond, a, b } => {
            law_check_expr_only_moves(*cond, sv, env, line);
            if let Ok((_, sv1)) = spec_check_expr(*cond, sv, env, line) {
                law_check_expr_only_moves(*a, sv1, env, line);
                if let Ok((_, sv2)) = spec_check_expr(*a, sv1, env, line) {
                    lemma_moves_trans(sv, sv1, sv2);
                    law_check_expr_only_moves(*b, sv2, env, line);
                    if let Ok((_, sv3)) = spec_check_expr(*b, sv2, env, line) {
                        lemma_moves_trans(sv, sv2, sv3);
                    }
                }
            }
        },
        SExpr::TupExpr { elems, .. } => lemma_elems_moves(elems, None, ""@, 0, sv, env, line),
        SExpr::Convert { name, arg } => {
            if name == "copy"@ {
                lemma_copy_arg_moves(*arg, sv, env, line);
            } else {
                law_check_expr_only_moves(*arg, sv, env, line);
            }
        },
        _ => {},
    }
}

/// 只标记移动不改变各变量的类型
proof fn lemma_var_tys_moves(a: SV, b: SV)
    requires
        moves_only(a, b),
    ensures
        var_tys(a.0) == var_tys(b.0),
{
    assert forall|k: Seq<char>| #[trigger] a.0.contains_key(k) implies b.0[k].ty == a.0[k].ty by {}
    assert(var_tys(a.0) =~= var_tys(b.0));
}

/// 检查接受 e 时，纯推导（取检查前各变量的类型）给出同一类型
pub open spec fn checked_ty_agrees(e: SExpr, sv: SV, env: Env, line: usize) -> bool {
    spec_check_expr(e, sv, env, line) matches Ok((t, _)) ==> spec_ty_of(
        e,
        var_tys(sv.0),
        env.funcs,
        env.structs,
        env.tb,
    ) == Ok::<Ty, (Seq<char>, Seq<char>, Seq<Seq<char>>)>(t)
}

/// 规律：两个后端共用的纯类型推导与带移动追踪的检查一致：检查接受一个表达式时，
/// 纯推导（取检查前各变量的类型）给出同一类型
pub proof fn law_ty_of_agrees(e: SExpr, sv: SV, env: Env, line: usize)
    ensures
        checked_ty_agrees(e, sv, env, line),
    decreases e, 2int,
{
    match e {
        SExpr::Var(_) => agree_var(e, sv, env, line),
        SExpr::Neg(_) | SExpr::Len(_) | SExpr::Keys(_) | SExpr::Values(_) | SExpr::Field(..) => agree_unary(
            e,
            sv,
            env,
            line,
        ),
        SExpr::Bin { .. } => agree_bin(e, sv, env, line),
        SExpr::Index(..) => agree_index(e, sv, env, line),
        SExpr::Sel { .. } => agree_sel(e, sv, env, line),
        SExpr::Convert { .. } => agree_convert(e, sv, env, line),
        SExpr::Call { .. } => agree_call(e, sv, env, line),
        _ => agree_leaf(e, sv, env, line),
    }
}

proof fn agree_var(e: SExpr, sv: SV, env: Env, line: usize)
    requires
        e is Var,
    ensures
        checked_ty_agrees(e, sv, env, line),
    decreases e, 1int,
{
    let n = e->Var_0;
    if sv.0.contains_key(n) {
        assert(var_tys(sv.0).contains_key(n) && var_tys(sv.0)[n] == sv.0[n].ty);
    }
}

#[verifier::spinoff_prover]
proof fn agree_leaf(e: SExpr, sv: SV, env: Env, line: usize)
    requires
        !(e is Var || e is Neg || e is Len || e is Keys || e is Values || e is Field || e is Bin || e is Index
            || e is Sel || e is Convert || e is Call),
    ensures
        checked_ty_agrees(e, sv, env, line),
    decreases e, 1int,
{
}

#[verifier::spinoff_prover]
proof fn agree_unary(e: SExpr, sv: SV, env: Env, line: usize)
    requires
        e is Neg || e is Len || e is Keys || e is Values || e is Field,
    ensures
        checked_ty_agrees(e, sv, env, line),
    decreases e, 1int,
{
    match e {
        SExpr::Neg(x) | SExpr::Len(x) | SExpr::Keys(x) | SExpr::Values(x) => law_ty_of_agrees(*x, sv, env, line),
        SExpr::Field(b, _) => law_ty_of_agrees(*b, sv, env, line),
        _ => {},
    }
}

#[verifier::spinoff_prover]
proof fn agree_bin(e: SExpr, sv: SV, env: Env, line: usize)
    requires
        e is Bin,
    ensures
        checked_ty_agrees(e, sv, env, line),
    decreases e, 1int,
{
    if let SExpr::Bin { lhs, rhs, .. } = e {
        law_ty_of_agrees(*lhs, sv, env, line);
        law_check_expr_only_moves(*lhs, sv, env, line);
        if let Ok((_, sv1)) = spec_check_expr(*lhs, sv, env, line) {
            lemma_var_tys_moves(sv, sv1);
            law_ty_of_agrees(*rhs, sv1, env, line);
        }
    }
}

#[verifier::spinoff_prover]
proof fn agree_index(e: SExpr, sv: SV, env: Env, line: usize)
    requires
        e is Index,
    ensures
        checked_ty_agrees(e, sv, env, line),
    decreases e, 1int,
{
    if let SExpr::Index(b, ix) = e {
        law_ty_of_agrees(*b, sv, env, line);
        law_check_expr_only_moves(*b, sv, env, line);
        if let Ok((_, sv1)) = spec_check_expr(*b, sv, env, line) {
            lemma_var_tys_moves(sv, sv1);
            law_ty_of_agrees(*ix, sv1, env, line);
        }
    }
}

#[verifier::spinoff_prover]
proof fn agree_sel(e: SExpr, sv: SV, env: Env, line: usize)
    requires
        e is Sel,
    ensures
        checked_ty_agrees(e, sv, env, line),
    decreases e, 1int,
{
    if let SExpr::Sel { cond, a, b } = e {
        law_ty_of_agrees(*cond, sv, env, line);
        law_check_expr_only_moves(*cond, sv, env, line);
        if let Ok((_, sv1)) = spec_check_expr(*cond, sv, env, line) {
            lemma_var_tys_moves(sv, sv1);
            law_ty_of_agrees(*a, sv1, env, line);
            law_check_expr_only_moves(*a, sv1, env, line);
            if let Ok((_, sv2)) = spec_check_expr(*a, sv1, env, line) {
                lemma_var_tys_moves(sv1, sv2);
                law_ty_of_agrees(*b, sv2, env, line);
            }
        }
    }
}

#[verifier::spinoff_prover]
proof fn agree_convert(e: SExpr, sv: SV, env: Env, line: usize)
    requires
        e is Convert,
    ensures
        checked_ty_agrees(e, sv, env, line),
    decreases e, 1int,
{
    if let SExpr::Convert { name, arg } = e {
        reveal_strlit("copy");
        reveal_strlit("tof");
        reveal_strlit("toi");
        let sc = var_tys(sv.0);
        if name == "copy"@ {
            lemma_copy_arg_agrees(*arg, sv, env, line);
            assert("copy"@.len() == 4 && "tof"@.len() == 3 && "toi"@.len() == 3);
            assert(name != "tof"@ && name != "toi"@);
            if let Ok((t, _)) = spec_copy_arg(*arg, sv, env, line) {
                assert(spec_ty_of(*arg, sc, env.funcs, env.structs, env.tb) == Ok::<
                    Ty,
                    (Seq<char>, Seq<char>, Seq<Seq<char>>),
                >(t));
                assert(spec_convert_ty(name, t, *arg, env.structs, env.tb) == Ok::<
                    Ty,
                    (Seq<char>, Seq<char>, Seq<Seq<char>>),
                >(Ty::Str));
            }
        } else {
            law_ty_of_agrees(*arg, sv, env, line);
        }
    }
}

#[verifier::spinoff_prover]
proof fn agree_call(e: SExpr, sv: SV, env: Env, line: usize)
    requires
        e is Call,
    ensures
        checked_ty_agrees(e, sv, env, line),
    decreases e, 1int,
{
    if let SExpr::Call { name, args } = e {
        if env.funcs.contains_key(name) && env.funcs[name].params.len() == args.len() {
            lemma_call_args_agree(args, env.funcs[name], name, 0, sv, env, line);
        }
    }
}

/// 规律：原地修改动态数组的语句（push、pop）只在对象是已声明、非借用、可写（`//` 声明或形参）
/// 的动态数组变量时被接受；只读（`/` 声明）变量与借用视图都会被拒绝
pub proof fn law_push_pop_need_writable(e: SExpr, line: usize, sv: SV, env: Env, in_fn: bool, fn_ret: Ty, in_loop: bool)
    requires
        e is Push || e is Pop,
    ensures
        spec_check_stmt(SStmt::Expr(e, line), sv, env, in_fn, fn_ret, in_loop) is Ok ==> {
            let a = if e is Push {
                *e->Push_arr
            } else {
                *e->Pop_arr
            };
            &&& a is Var
            &&& sv.0.contains_key(a->Var_0)
            &&& !sv.0[a->Var_0].is_borrow
            &&& sv.0[a->Var_0].mutable || sv.0[a->Var_0].is_param
            &&& sv.0[a->Var_0].ty is DArr
        },
{
}

/// 规律：赋值只写可写的目标：给变量赋值要求它已声明且为 `//` 声明；给 `变量.字段` 赋值要求
/// 该变量为 `//` 声明；给 `变量[i]` 赋值要求它为 `//` 声明，或是动态数组 / map 形参
pub proof fn law_assign_needs_writable(
    target: SExpr,
    value: SExpr,
    line: usize,
    sv: SV,
    env: Env,
    in_fn: bool,
    fn_ret: Ty,
    in_loop: bool,
)
    ensures
        spec_check_stmt(SStmt::Assign { target, value, line }, sv, env, in_fn, fn_ret, in_loop) is Ok ==> {
            &&& target matches SExpr::Var(n) ==> sv.0.contains_key(n) && sv.0[n].mutable
            &&& target matches SExpr::Field(b, _) ==> (*b matches SExpr::Var(n) && sv.0.contains_key(n)
                && sv.0[n].mutable)
            &&& target matches SExpr::Index(b, _) ==> (*b matches SExpr::Var(n) && sv.0.contains_key(n) && (
            sv.0[n].mutable || (sv.0[n].is_param && (sv.0[n].ty is DArr || sv.0[n].ty is MapOf))))
        },
{
    if let SExpr::Field(b, _) = target {
        law_check_expr_only_moves(*b, sv, env, line);
    }
}

// ───────────────────────── 检查与 C 生成规则 ─────────────────────────

/// 检查器不拦截、而 C 生成规则不覆盖的表达式形态之外：容器字面量只出现在声明与赋值右侧
/// （不在表达式里）；对动态数组或 map 求长度、has/keys/values 的对象是变量；定长数组类型
/// 在表内；元组的 8 字节槽总长不越过 usize；借用的对象本身可生成
pub open spec fn gen_shape_ok(e: SExpr, g: GEnv) -> bool
    decreases e,
{
    match e {
        SExpr::ArrLit { .. } | SExpr::DArrLit { .. } | SExpr::MapLit { .. } => false,
        SExpr::Len(x) => {
            let bt = gty(*x, g);
            ||| bt == Ty::Str && gen_shape_ok(*x, g)
            ||| (bt is DArr || bt is MapOf) && *x is Var
            ||| bt is Arr && (bt->Arr_0 as int) < g.tb.arrs.len()
        },
        SExpr::Has { map, key } => *map is Var && gen_shape_ok(*key, g),
        SExpr::Keys(m) | SExpr::Values(m) => *m is Var,
        SExpr::TupExpr { elems, tup } => {
            &&& ((tup as int) < g.tb.tuples.len() ==> g.tb.tuples[tup as int].len() * 8 <= usize::MAX)
            &&& forall|i: int| 0 <= i < elems.len() ==> gen_shape_ok(#[trigger] elems[i], g)
        },
        SExpr::Borrow(x) => emit_safe(*x, g),
        SExpr::Neg(x) => gen_shape_ok(*x, g),
        SExpr::Field(b, _) => gen_shape_ok(*b, g),
        SExpr::Index(_, ix) => gen_shape_ok(*ix, g),
        SExpr::Bin { lhs, rhs, .. } => gen_shape_ok(*lhs, g) && gen_shape_ok(*rhs, g),
        SExpr::Sub { s, start, n } => gen_shape_ok(*s, g) && gen_shape_ok(*start, g) && gen_shape_ok(*n, g),
        SExpr::Sel { cond, a, b } => gen_shape_ok(*cond, g) && gen_shape_ok(*a, g) && gen_shape_ok(*b, g),
        SExpr::Convert { arg, .. } => gen_shape_ok(*arg, g),
        SExpr::Call { args, .. } => forall|i: int| 0 <= i < args.len() ==> gen_shape_ok(#[trigger] args[i], g),
        SExpr::StructLit { fields, .. } => forall|i: int|
            0 <= i < fields.len() ==> gen_shape_ok(#[trigger] fields[i].1, g),
        _ => true,
    }
}

/// 生成环境与检查时的变量表、函数表、结构体与类型表一致（变量只比较类型）
pub open spec fn env_matches(g: GEnv, sv: SV, env: Env) -> bool {
    &&& var_tys(g.sc) == var_tys(sv.0)
    &&& g.funcs == env.funcs
    &&& g.structs == env.structs
    &&& g.tb == env.tb
}

/// 规律：检查器接受的表达式，只要不落在 `gen_shape_ok` 排除的形态里，就都能按 C 生成规则
/// 生成（`emit_safe`）；生成环境须与检查时的类型信息一致
pub proof fn law_checked_expr_emittable(e: SExpr, sv: SV, env: Env, line: usize, g: GEnv)
    requires
        env_matches(g, sv, env),
        gen_shape_ok(e, g),
    ensures
        spec_check_expr(e, sv, env, line) is Ok ==> emit_safe(e, g),
    decreases e, 2int,
{
    match e {
        SExpr::Neg(_) | SExpr::Field(..) | SExpr::Len(_) | SExpr::Keys(_) | SExpr::Values(_) => emit_unary(
            e,
            sv,
            env,
            line,
            g,
        ),
        SExpr::Bin { .. } | SExpr::Index(..) | SExpr::Has { .. } => emit_binary(e, sv, env, line, g),
        SExpr::Sub { .. } | SExpr::Sel { .. } => emit_ternary(e, sv, env, line, g),
        SExpr::Convert { .. } => emit_convert(e, sv, env, line, g),
        SExpr::Call { .. } => emit_call(e, sv, env, line, g),
        SExpr::StructLit { .. } => emit_struct_lit(e, sv, env, line, g),
        SExpr::TupExpr { .. } => emit_tup(e, sv, env, line, g),
        _ => emit_leaf(e, sv, env, line, g),
    }
}

/// 检查前后变量类型不变，环境仍一致
proof fn lemma_env_step(e: SExpr, sv: SV, env: Env, line: usize, g: GEnv)
    requires
        env_matches(g, sv, env),
    ensures
        spec_check_expr(e, sv, env, line) matches Ok((_, sv1)) ==> env_matches(g, sv1, env),
{
    law_check_expr_only_moves(e, sv, env, line);
    if let Ok((_, sv1)) = spec_check_expr(e, sv, env, line) {
        lemma_var_tys_moves(sv, sv1);
    }
}

/// 检查通过的子表达式，生成环境下的类型即其（规范化的）检查类型
proof fn lemma_gty_checked(e: SExpr, sv: SV, env: Env, line: usize, g: GEnv)
    requires
        env_matches(g, sv, env),
    ensures
        spec_check_expr(e, sv, env, line) matches Ok((t, _)) ==> gty(e, g) == (if t == Ty::BorrowStr {
            Ty::Str
        } else {
            t
        }),
{
    reveal(gty);
    law_ty_of_agrees(e, sv, env, line);
    assert(var_tys(g.sc) == var_tys(sv.0));
    if let Ok((t, _)) = spec_check_expr(e, sv, env, line) {
        assert(checked_ty_agrees(e, sv, env, line));
        assert(spec_ty_of(e, var_tys(sv.0), env.funcs, env.structs, env.tb) == Ok::<
            Ty,
            (Seq<char>, Seq<char>, Seq<Seq<char>>),
        >(t));
        assert(spec_ty_of(e, var_tys(g.sc), g.funcs, g.structs, g.tb) == Ok::<
            Ty,
            (Seq<char>, Seq<char>, Seq<Seq<char>>),
        >(t));
    }
}

#[verifier::spinoff_prover]
proof fn emit_leaf(e: SExpr, sv: SV, env: Env, line: usize, g: GEnv)
    requires
        env_matches(g, sv, env),
        gen_shape_ok(e, g),
        !(e is Neg || e is Field || e is Len || e is Keys || e is Values || e is Bin || e is Index || e is Has
            || e is Sub || e is Sel || e is Convert || e is Call || e is StructLit || e is TupExpr),
    ensures
        spec_check_expr(e, sv, env, line) is Ok ==> emit_safe(e, g),
    decreases e, 1int,
{
}

#[verifier::spinoff_prover]
proof fn emit_unary(e: SExpr, sv: SV, env: Env, line: usize, g: GEnv)
    requires
        env_matches(g, sv, env),
        gen_shape_ok(e, g),
        e is Neg || e is Field || e is Len || e is Keys || e is Values,
    ensures
        spec_check_expr(e, sv, env, line) is Ok ==> emit_safe(e, g),
    decreases e, 1int,
{
    match e {
        SExpr::Neg(x) => law_checked_expr_emittable(*x, sv, env, line, g),
        SExpr::Field(x, _) => {
            law_checked_expr_emittable(*x, sv, env, line, g);
            lemma_gty_checked(*x, sv, env, line, g);
        },
        SExpr::Len(x) => {
            lemma_gty_checked(*x, sv, env, line, g);
            if gty(*x, g) == Ty::Str {
                law_checked_expr_emittable(*x, sv, env, line, g);
            }
        },
        SExpr::Keys(x) | SExpr::Values(x) => lemma_gty_checked(*x, sv, env, line, g),
        _ => {},
    }
}

#[verifier::spinoff_prover]
proof fn emit_binary(e: SExpr, sv: SV, env: Env, line: usize, g: GEnv)
    requires
        env_matches(g, sv, env),
        gen_shape_ok(e, g),
        e is Bin || e is Index || e is Has,
    ensures
        spec_check_expr(e, sv, env, line) is Ok ==> emit_safe(e, g),
    decreases e, 1int,
{
    let (a, b) = match e {
        SExpr::Bin { lhs, rhs, .. } => (*lhs, *rhs),
        SExpr::Index(x, ix) => (*x, *ix),
        SExpr::Has { map, key } => (*map, *key),
        _ => (e, e),
    };
    lemma_gty_checked(a, sv, env, line, g);
    lemma_env_step(a, sv, env, line, g);
    if e is Bin {
        law_checked_expr_emittable(a, sv, env, line, g);
    }
    if let Ok((_, sv1)) = spec_check_expr(a, sv, env, line) {
        law_checked_expr_emittable(b, sv1, env, line, g);
    }
}

#[verifier::spinoff_prover]
proof fn emit_ternary(e: SExpr, sv: SV, env: Env, line: usize, g: GEnv)
    requires
        env_matches(g, sv, env),
        gen_shape_ok(e, g),
        e is Sub || e is Sel,
    ensures
        spec_check_expr(e, sv, env, line) is Ok ==> emit_safe(e, g),
    decreases e, 1int,
{
    let (a, b, c) = match e {
        SExpr::Sub { s, start, n } => (*s, *start, *n),
        SExpr::Sel { cond, a, b } => (*cond, *a, *b),
        _ => (e, e, e),
    };
    law_checked_expr_emittable(a, sv, env, line, g);
    lemma_env_step(a, sv, env, line, g);
    if let Ok((_, sv1)) = spec_check_expr(a, sv, env, line) {
        law_checked_expr_emittable(b, sv1, env, line, g);
        lemma_env_step(b, sv1, env, line, g);
        if let Ok((_, sv2)) = spec_check_expr(b, sv1, env, line) {
            law_checked_expr_emittable(c, sv2, env, line, g);
        }
    }
}

#[verifier::spinoff_prover]
proof fn emit_convert(e: SExpr, sv: SV, env: Env, line: usize, g: GEnv)
    requires
        env_matches(g, sv, env),
        gen_shape_ok(e, g),
        e is Convert,
    ensures
        spec_check_expr(e, sv, env, line) is Ok ==> emit_safe(e, g),
    decreases e, 1int,
{
    if let SExpr::Convert { name, arg } = e {
        reveal_strlit("copy");
        reveal_strlit("tof");
        reveal_strlit("toi");
        assert("copy"@.len() == 4 && "tof"@.len() == 3 && "toi"@.len() == 3);
        assert("toi"@[2] == 'i' && "tof"@[2] == 'f');
        assert("toi"@ != "tof"@);
        law_ty_of_agrees(e, sv, env, line);
        assert(gen_shape_ok(*arg, g));
        if name == "copy"@ {
            match *arg {
                SExpr::Borrow(inner) => {
                    assert(gen_shape_ok(*arg, g));
                    assert(emit_safe(*inner, g));
                    assert(emit_safe(*arg, g));
                },
                _ => law_checked_expr_emittable(*arg, sv, env, line, g),
            }
            if spec_check_expr(e, sv, env, line) is Ok {
                assert(spec_copy_arg(*arg, sv, env, line) is Ok);
                assert(emit_safe(*arg, g));
            }
        } else {
            law_checked_expr_emittable(*arg, sv, env, line, g);
            if spec_check_expr(e, sv, env, line) is Ok {
                assert(checked_ty_agrees(e, sv, env, line));
                assert(spec_ty_of(e, var_tys(g.sc), g.funcs, g.structs, g.tb) is Ok);
                assert(spec_ty_of(*arg, var_tys(g.sc), g.funcs, g.structs, g.tb) is Ok);
                assert(emit_safe(*arg, g));
            }
        }
    }
}

#[verifier::spinoff_prover]
proof fn emit_call(e: SExpr, sv: SV, env: Env, line: usize, g: GEnv)
    requires
        env_matches(g, sv, env),
        gen_shape_ok(e, g),
        e is Call,
    ensures
        spec_check_expr(e, sv, env, line) is Ok ==> emit_safe(e, g),
    decreases e, 1int,
{
    if let SExpr::Call { name, args } = e {
        if env.funcs.contains_key(name) && env.funcs[name].params.len() == args.len() {
            lemma_args_emittable(args, env.funcs[name], name, 0, sv, env, line, g);
        }
    }
}

/// 从第 i 个起的调用实参：检查全部接受时都可生成
proof fn lemma_args_emittable(
    args: Seq<SExpr>,
    sig: FSig,
    name: Seq<char>,
    i: int,
    sv: SV,
    env: Env,
    line: usize,
    g: GEnv,
)
    requires
        0 <= i,
        sig.params.len() == args.len(),
        env_matches(g, sv, env),
        forall|j: int| 0 <= j < args.len() ==> gen_shape_ok(#[trigger] args[j], g),
    ensures
        spec_call_args(args, sig, name, i, sv, env, line) is Ok ==> forall|j: int|
            i <= j < args.len() ==> emit_safe(#[trigger] args[j], g),
    decreases args, args.len() - i,
{
    if i < args.len() {
        let bp = i < sig.borrows.len() && sig.borrows[i];
        lemma_arg_emittable(args[i], sig.params[i], bp, name, sv, env, line, g);
        lemma_call_arg_moves(args[i], sig.params[i], bp, name, sv, env, line);
        if let Ok(sv1) = spec_call_arg(args[i], sig.params[i], bp, name, sv, env, line) {
            lemma_var_tys_moves(sv, sv1);
            lemma_args_emittable(args, sig, name, i + 1, sv1, env, line, g);
        }
    }
}

/// 一个调用实参：检查接受时可生成
#[verifier::spinoff_prover]
proof fn lemma_arg_emittable(a: SExpr, pt: Ty, bp: bool, name: Seq<char>, sv: SV, env: Env, line: usize, g: GEnv)
    requires
        env_matches(g, sv, env),
        gen_shape_ok(a, g),
    ensures
        spec_call_arg(a, pt, bp, name, sv, env, line) is Ok ==> emit_safe(a, g),
    decreases a, 3int,
{
    if pt != Ty::BorrowStr && !(pt == Ty::Str && a is Borrow) {
        law_checked_expr_emittable(a, sv, env, line, g);
    }
}

proof fn lemma_struct_pos_bound(ss: Seq<StructDef>, n: Seq<char>, i: int)
    requires
        0 <= i <= ss.len(),
    ensures
        i <= struct_pos(ss, n, i) <= ss.len(),
    decreases ss.len() - i,
{
    if i < ss.len() {
        lemma_struct_pos_bound(ss, n, i + 1);
    }
}

#[verifier::spinoff_prover]
proof fn emit_struct_lit(e: SExpr, sv: SV, env: Env, line: usize, g: GEnv)
    requires
        env_matches(g, sv, env),
        gen_shape_ok(e, g),
        e is StructLit,
    ensures
        spec_check_expr(e, sv, env, line) is Ok ==> emit_safe(e, g),
    decreases e, 1int,
{
    if let SExpr::StructLit { name, fields, .. } = e {
        let k = struct_pos(env.structs, name, 0);
        lemma_struct_pos_bound(env.structs, name, 0);
        if k < env.structs.len() && spec_check_expr(e, sv, env, line) is Ok {
            let sd = env.structs[k];
            let named = lit_named(fields);
            assert(!(lit_named(fields) && lit_positional(fields)));
            assert(fields.len() == sd.fields@.len());
            assert(spec_lit_fields(fields, sd, name, named, 0, sv, env, line) is Ok);
            lemma_fields_emittable(fields, sd, name, named, 0, sv, env, line, g);
            {
                assert forall|i: int| 0 <= i < fields.len() implies match (#[trigger] fields[i]).0 {
                    Some(n) => field_pos(sd.fields@, n, 0) < sd.fields@.len(),
                    None => i < sd.fields@.len(),
                } by {
                    assert(emit_safe(fields[i].1, g));
                    if named {
                        if fields[i].0 is None {
                            assert(lit_positional(fields));
                        }
                    } else if fields[i].0 is Some {
                        assert(lit_named(fields));
                    }
                }
                assert forall|i: int| 0 <= i < fields.len() implies emit_safe(#[trigger] fields[i].1, g) by {}
            }
        }
    }
}

/// 从第 i 个起的结构体字面量字段：检查全部接受时，各字段值可生成，命名字段都存在
proof fn lemma_fields_emittable(
    fs: Seq<(Option<Seq<char>>, SExpr)>,
    sd: StructDef,
    name: Seq<char>,
    named: bool,
    i: int,
    sv: SV,
    env: Env,
    line: usize,
    g: GEnv,
)
    requires
        0 <= i,
        fs.len() == sd.fields@.len(),
        env_matches(g, sv, env),
        forall|j: int| 0 <= j < fs.len() ==> gen_shape_ok(#[trigger] fs[j].1, g),
    ensures
        spec_lit_fields(fs, sd, name, named, i, sv, env, line) is Ok ==> forall|j: int|
            i <= j < fs.len() ==> emit_safe(#[trigger] fs[j].1, g) && (named ==> field_pos(
                sd.fields@,
                fs[j].0->Some_0,
                0,
            ) < sd.fields@.len()),
    decreases fs, fs.len() - i,
{
    if i < fs.len() {
        law_checked_expr_emittable(fs[i].1, sv, env, line, g);
        lemma_env_step(fs[i].1, sv, env, line, g);
        if let Ok((vt, sv1)) = spec_check_expr(fs[i].1, sv, env, line) {
            let ft = if named {
                sd.fields@[field_pos(sd.fields@, fs[i].0->Some_0, 0)].ty
            } else {
                sd.fields@[i].ty
            };
            lemma_mark_moves(fs[i].1, sv1);
            lemma_var_tys_moves(sv1, spec_mark_top_move(fs[i].1, sv1));
            lemma_fields_emittable(fs, sd, name, named, i + 1, sv1, env, line, g);
            lemma_fields_emittable(fs, sd, name, named, i + 1, spec_mark_top_move(fs[i].1, sv1), env, line, g);
        }
    }
}

#[verifier::spinoff_prover]
proof fn emit_tup(e: SExpr, sv: SV, env: Env, line: usize, g: GEnv)
    requires
        env_matches(g, sv, env),
        gen_shape_ok(e, g),
        e is TupExpr,
    ensures
        spec_check_expr(e, sv, env, line) is Ok ==> emit_safe(e, g),
    decreases e, 1int,
{
    if let SExpr::TupExpr { elems, tup } = e {
        lemma_elems_emittable(elems, None, ""@, 0, sv, env, line, g);
    }
}

/// 从第 i 个起的元素：检查全部接受时都可生成
proof fn lemma_elems_emittable(
    es: Seq<SExpr>,
    elem: Option<Ty>,
    pre: Seq<char>,
    i: int,
    sv: SV,
    env: Env,
    line: usize,
    g: GEnv,
)
    requires
        0 <= i,
        env_matches(g, sv, env),
        forall|j: int| 0 <= j < es.len() ==> gen_shape_ok(#[trigger] es[j], g),
    ensures
        spec_check_elems(es, elem, pre, i, sv, env, line) is Ok ==> forall|j: int|
            i <= j < es.len() ==> emit_safe(#[trigger] es[j], g),
    decreases es, es.len() - i,
{
    if i < es.len() {
        law_checked_expr_emittable(es[i], sv, env, line, g);
        lemma_env_step(es[i], sv, env, line, g);
        if let Ok((_, sv1)) = spec_check_expr(es[i], sv, env, line) {
            lemma_elems_emittable(es, elem, pre, i + 1, sv1, env, line, g);
        }
    }
}

/// copy 的实参：检查接受时纯推导给出同一类型
proof fn lemma_copy_arg_agrees(a: SExpr, sv: SV, env: Env, line: usize)
    ensures
        spec_copy_arg(a, sv, env, line) matches Ok((t, _)) ==> spec_ty_of(
            a,
            var_tys(sv.0),
            env.funcs,
            env.structs,
            env.tb,
        ) == Ok::<Ty, (Seq<char>, Seq<char>, Seq<Seq<char>>)>(t),
    decreases a, 3int,
{
    match a {
        SExpr::Borrow(inner) => law_ty_of_agrees(*inner, sv, env, line),
        _ => law_ty_of_agrees(a, sv, env, line),
    }
}

/// 借用 &str 形参的实参：检查接受时，纯推导得出的类型可赋给 &str
proof fn lemma_borrow_arg_agrees(a: SExpr, name: Seq<char>, sv: SV, env: Env, line: usize)
    ensures
        spec_borrow_str_arg(a, name, sv, env, line) is Ok ==> (spec_ty_of(
            a,
            var_tys(sv.0),
            env.funcs,
            env.structs,
            env.tb,
        ) matches Ok(at) && value_assignable_s(Ty::BorrowStr, at, a)),
    decreases a, 3int,
{
    let sc = var_tys(sv.0);
    match a {
        SExpr::Var(n) => {
            if sv.0.contains_key(n) {
                assert(sc.contains_key(n) && sc[n] == sv.0[n].ty);
            }
        },
        SExpr::Borrow(inner) => match *inner {
            SExpr::Field(..) => lemma_borrow_field_agrees(a, name, sv, env, line),
            SExpr::Var(_) => lemma_borrow_var_agrees(a, name, sv, env, line),
            _ => {},
        },
        _ => {},
    }
}

#[verifier::spinoff_prover]
#[verifier::rlimit(60)]
proof fn lemma_borrow_field_agrees(a: SExpr, name: Seq<char>, sv: SV, env: Env, line: usize)
    requires
        a is Borrow && *a->Borrow_0 is Field,
    ensures
        spec_borrow_str_arg(a, name, sv, env, line) is Ok ==> (spec_ty_of(
            a,
            var_tys(sv.0),
            env.funcs,
            env.structs,
            env.tb,
        ) matches Ok(at) && value_assignable_s(Ty::BorrowStr, at, a)),
    decreases a, 2int,
{
    let sc = var_tys(sv.0);
    if let SExpr::Borrow(inner) = a {
        if let SExpr::Field(base, f) = *inner {
            law_ty_of_agrees(*base, sv, env, line);
            if spec_borrow_str_arg(a, name, sv, env, line) is Ok {
                let bt = spec_check_expr(*base, sv, env, line)->Ok_0.0;
                assert(spec_ty_of(*base, sc, env.funcs, env.structs, env.tb) == Ok::<
                    Ty,
                    (Seq<char>, Seq<char>, Seq<Seq<char>>),
                >(bt));
                assert(bt is Struct && snorm(bt) == bt);
                let sd = env.structs[bt->Struct_0 as int];
                let k = field_pos(sd.fields@, f, 0);
                assert(k < sd.fields@.len() && sd.fields@[k].ty == Ty::Str);
                assert(spec_ty_of(*inner, sc, env.funcs, env.structs, env.tb) == Ok::<
                    Ty,
                    (Seq<char>, Seq<char>, Seq<Seq<char>>),
                >(Ty::Str));
            }
        }
    }
}

#[verifier::spinoff_prover]
proof fn lemma_borrow_var_agrees(a: SExpr, name: Seq<char>, sv: SV, env: Env, line: usize)
    requires
        a is Borrow && *a->Borrow_0 is Var,
    ensures
        spec_borrow_str_arg(a, name, sv, env, line) is Ok ==> (spec_ty_of(
            a,
            var_tys(sv.0),
            env.funcs,
            env.structs,
            env.tb,
        ) matches Ok(at) && value_assignable_s(Ty::BorrowStr, at, a)),
    decreases a, 2int,
{
    if let SExpr::Borrow(inner) = a {
        law_ty_of_agrees(*inner, sv, env, line);
    }
}

/// 实参规则通过时，实参类型可赋给形参类型
proof fn lemma_arg_rules_assignable(a: SExpr, pt: Ty, at: Ty, bp: bool, name: Seq<char>, sv1: SV, env: Env, line: usize)
    ensures
        spec_arg_rules(a, pt, at, bp, name, sv1, env, line) is Ok ==> value_assignable_s(pt, at, a),
{
}

/// 一个调用实参：检查接受时，纯推导得出实参类型且它可赋给形参
proof fn lemma_call_arg_agrees(a: SExpr, pt: Ty, bp: bool, name: Seq<char>, sv: SV, env: Env, line: usize)
    ensures
        spec_call_arg(a, pt, bp, name, sv, env, line) is Ok ==> (spec_ty_of(
            a,
            var_tys(sv.0),
            env.funcs,
            env.structs,
            env.tb,
        ) matches Ok(at) && value_assignable_s(pt, at, a)),
    decreases a, 4int,
{
    if pt == Ty::BorrowStr {
        lemma_borrow_arg_agrees(a, name, sv, env, line);
    } else if !(pt == Ty::Str && a is Borrow) {
        law_ty_of_agrees(a, sv, env, line);
        if let Ok((at, sv1)) = spec_check_expr(a, sv, env, line) {
            lemma_arg_rules_assignable(a, pt, at, bp, name, sv1, env, line);
        }
    }
}

/// 从第 i 个起的调用实参：检查全部接受时，纯推导的逐个实参校验也通过
proof fn lemma_call_args_agree(args: Seq<SExpr>, sig: FSig, name: Seq<char>, i: int, sv: SV, env: Env, line: usize)
    requires
        0 <= i,
    ensures
        spec_call_args(args, sig, name, i, sv, env, line) is Ok ==> spec_check_args(
            args,
            sig.params,
            name,
            i,
            var_tys(sv.0),
            env.funcs,
            env.structs,
            env.tb,
        ) is Ok,
    decreases args, args.len() - i,
{
    if i < args.len() && i < sig.params.len() {
        let bp = i < sig.borrows.len() && sig.borrows[i];
        lemma_call_arg_agrees(args[i], sig.params[i], bp, name, sv, env, line);
        lemma_call_arg_moves(args[i], sig.params[i], bp, name, sv, env, line);
        if let Ok(sv1) = spec_call_arg(args[i], sig.params[i], bp, name, sv, env, line) {
            lemma_var_tys_moves(sv, sv1);
            lemma_call_args_agree(args, sig, name, i + 1, sv1, env, line);
        }
    }
}

proof fn lemma_copy_arg_moves(a: SExpr, sv: SV, env: Env, line: usize)
    ensures
        spec_copy_arg(a, sv, env, line) matches Ok((_, sv1)) ==> moves_only(sv, sv1),
    decreases a, 1int,
{
    match a {
        SExpr::Borrow(inner) => law_check_expr_only_moves(*inner, sv, env, line),
        _ => law_check_expr_only_moves(a, sv, env, line),
    }
}

proof fn lemma_elems_moves(es: Seq<SExpr>, elem: Option<Ty>, pre: Seq<char>, i: int, sv: SV, env: Env, line: usize)
    ensures
        spec_check_elems(es, elem, pre, i, sv, env, line) matches Ok(sv1) ==> moves_only(sv, sv1),
    decreases es, es.len() - i,
{
    lemma_moves_refl(sv);
    if 0 <= i < es.len() {
        law_check_expr_only_moves(es[i], sv, env, line);
        if let Ok((_, sv1)) = spec_check_expr(es[i], sv, env, line) {
            lemma_elems_moves(es, elem, pre, i + 1, sv1, env, line);
            if let Ok(sv2) = spec_check_elems(es, elem, pre, i + 1, sv1, env, line) {
                lemma_moves_trans(sv, sv1, sv2);
            }
        }
    }
}

proof fn lemma_entries_moves(es: Seq<(SExpr, SExpr)>, m: MapDef, i: int, sv: SV, env: Env, line: usize)
    ensures
        spec_map_entries(es, m, i, sv, env, line) matches Ok(sv1) ==> moves_only(sv, sv1),
    decreases es, es.len() - i,
{
    lemma_moves_refl(sv);
    if 0 <= i < es.len() {
        law_check_expr_only_moves(es[i].0, sv, env, line);
        if let Ok((_, sv1)) = spec_check_expr(es[i].0, sv, env, line) {
            law_check_expr_only_moves(es[i].1, sv1, env, line);
            if let Ok((_, sv2)) = spec_check_expr(es[i].1, sv1, env, line) {
                lemma_moves_trans(sv, sv1, sv2);
                lemma_entries_moves(es, m, i + 1, sv2, env, line);
                if let Ok(sv3) = spec_map_entries(es, m, i + 1, sv2, env, line) {
                    lemma_moves_trans(sv, sv2, sv3);
                }
            }
        }
    }
}

proof fn lemma_lit_fields_moves(
    fs: Seq<(Option<Seq<char>>, SExpr)>,
    sd: StructDef,
    name: Seq<char>,
    named: bool,
    i: int,
    sv: SV,
    env: Env,
    line: usize,
)
    ensures
        spec_lit_fields(fs, sd, name, named, i, sv, env, line) matches Ok(sv1) ==> moves_only(sv, sv1),
    decreases fs, fs.len() - i,
{
    lemma_moves_refl(sv);
    if 0 <= i < fs.len() && i < sd.fields@.len() {
        law_check_expr_only_moves(fs[i].1, sv, env, line);
        if let Ok((_, sv1)) = spec_check_expr(fs[i].1, sv, env, line) {
            lemma_mark_moves(fs[i].1, sv1);
            let sv2 = spec_mark_top_move(fs[i].1, sv1);
            lemma_moves_trans(sv, sv1, sv2);
            lemma_lit_fields_moves(fs, sd, name, named, i + 1, sv1, env, line);
            lemma_lit_fields_moves(fs, sd, name, named, i + 1, sv2, env, line);
            if let Ok(sv3) = spec_lit_fields(fs, sd, name, named, i + 1, sv1, env, line) {
                lemma_moves_trans(sv, sv1, sv3);
            }
            if let Ok(sv3) = spec_lit_fields(fs, sd, name, named, i + 1, sv2, env, line) {
                lemma_moves_trans(sv, sv2, sv3);
            }
        }
    }
}

proof fn lemma_call_args_moves(args: Seq<SExpr>, sig: FSig, name: Seq<char>, i: int, sv: SV, env: Env, line: usize)
    ensures
        spec_call_args(args, sig, name, i, sv, env, line) matches Ok(sv1) ==> moves_only(sv, sv1),
    decreases args, args.len() - i,
{
    lemma_moves_refl(sv);
    if 0 <= i < args.len() && i < sig.params.len() {
        let bp = i < sig.borrows.len() && sig.borrows[i];
        lemma_call_arg_moves(args[i], sig.params[i], bp, name, sv, env, line);
        if let Ok(sv1) = spec_call_arg(args[i], sig.params[i], bp, name, sv, env, line) {
            lemma_call_args_moves(args, sig, name, i + 1, sv1, env, line);
            if let Ok(sv2) = spec_call_args(args, sig, name, i + 1, sv1, env, line) {
                lemma_moves_trans(sv, sv1, sv2);
            }
        }
    }
}

proof fn lemma_call_arg_moves(a: SExpr, pt: Ty, bp: bool, name: Seq<char>, sv: SV, env: Env, line: usize)
    ensures
        spec_call_arg(a, pt, bp, name, sv, env, line) matches Ok(sv1) ==> moves_only(sv, sv1),
    decreases a, 2int,
{
    lemma_moves_refl(sv);
    if pt == Ty::BorrowStr {
        lemma_borrow_str_arg_moves(a, name, sv, env, line);
    } else {
        law_check_expr_only_moves(a, sv, env, line);
        if let Ok((at, sv1)) = spec_check_expr(a, sv, env, line) {
            lemma_mark_moves(a, sv1);
            lemma_moves_trans(sv, sv1, spec_mark_top_move(a, sv1));
        }
    }
}

proof fn lemma_borrow_str_arg_moves(a: SExpr, name: Seq<char>, sv: SV, env: Env, line: usize)
    ensures
        spec_borrow_str_arg(a, name, sv, env, line) matches Ok(sv1) ==> moves_only(sv, sv1),
    decreases a, 1int,
{
    lemma_moves_refl(sv);
    if let SExpr::Borrow(inner) = a {
        match *inner {
            SExpr::Field(base, _) => law_check_expr_only_moves(*base, sv, env, line),
            SExpr::Var(_) => law_check_expr_only_moves(*inner, sv, env, line),
            _ => {},
        }
    }
}

/// 规律：块结束时，块内声明不外泄（变量集合与名字顺序回到块前），块前已有的变量只在
/// “块前已移动或块内被移动”时为已移动，其余信息不变
pub proof fn law_block_scope(snap: SV, after: SV)
    ensures
        block_scope(snap, Ok(after)) matches Ok(r) && r.0.dom() == snap.0.dom() && r.1 == snap.1
            && forall|k: Seq<char>|
            #[trigger] snap.0.contains_key(k) ==> r.0[k] == (VarInfo {
                moved: snap.0[k].moved || (after.0.contains_key(k) && after.0[k].moved),
                ..snap.0[k]
            }),
{
    let r = (restore_moved(snap.0, after.0), snap.1);
    assert(r.0.dom() =~= snap.0.dom());
}

/// 规律：检查条件语句或循环语句后，变量集合与名字顺序与检查前相同（块内声明不外泄）
pub proof fn law_branch_no_leak(s: SStmt, sv: SV, env: Env, in_fn: bool, fn_ret: Ty, in_loop: bool)
    requires
        s is While || s is If,
    ensures
        spec_check_stmt(s, sv, env, in_fn, fn_ret, in_loop) matches Ok(r) ==> r.0.dom() == sv.0.dom() && r.1
            == sv.1,
{
    match s {
        SStmt::While { cond, body, line } => {
            law_check_expr_only_moves(cond, sv, env, line);
            if let Ok(sv1) = spec_cond(cond, "while"@, line, sv, env) {
                if let Ok(after) = spec_check_block(body, 0, sv1, env, in_fn, fn_ret, true) {
                    law_block_scope(sv1, after);
                }
            }
        },
        SStmt::If { cond, body, else_body, line } => {
            law_check_expr_only_moves(cond, sv, env, line);
            if let Ok(sv1) = spec_cond(cond, "if"@, line, sv, env) {
                if let Ok(after) = spec_check_block(body, 0, sv1, env, in_fn, fn_ret, in_loop) {
                    law_block_scope(sv1, after);
                    let sv2 = (restore_moved(sv1.0, after.0), sv1.1);
                    if let Some(eb) = else_body {
                        if let Ok(after2) = spec_check_block(eb, 0, sv2, env, in_fn, fn_ret, in_loop) {
                            law_block_scope(sv2, after2);
                        }
                    }
                }
            }
        },
        _ => {},
    }
}

// ───────────────────────── 执行代码 ─────────────────────────

/// 带候选名的错误：候选名取自 pool 中与 name 相近者，有候选时提示第一个
fn cand_err(msg: String, line: usize, pre: &str, name: &str, pool: &[String]) -> (r: CheckError)
    ensures
        ce_is(r, ce_cands(msg@, line, pre@, spec_similar_candidates(name@, strings_view(pool@)))),
{
    let cands = similar_candidates(name, pool);
    let mut e = err(line, msg);
    if cands.len() > 0 {
        e.hint = s3(pre, cands[0].as_str(), "'？");
        proof {
            assert(strings_view(cands@)[0] == cands@[0]@);
        }
    }
    e.candidates = cands;
    e
}

/// 语句顶层的移动：值为堆类型变量时，源变量失效
pub fn mark_top_move(expr: &Expr, scope: &mut Scope)
    ensures
        sv_of(*final(scope)) == spec_mark_top_move(expr@, sv_of(*old(scope))),
{
    if let Expr::Var(name) = expr {
        if let Some(v) = scope.get(name.as_str()) {
            if is_owned(v.ty) {
                let nv = VarInfo { moved: true, ..v };
                scope.insert(name.clone(), nv);
            }
        }
    }
}

fn check_var(name: &str, scope: &Scope, line: usize) -> (r: Result<Ty, CheckError>)
    ensures
        expr_ok(r, sv_of(*scope), spec_check_var(name@, sv_of(*scope), line)),
{
    match scope.get(name) {
        None => {
            let names = scope.keys();
            Err(cand_err(s3("变量 '", name, "' 未声明"), line, "是否想用 '", name, names.as_slice()))
        },
        Some(v) => {
            if is_owned(v.ty) && v.moved {
                Err(err(line, s3("变量 '", name, "' 的值已被移动，不能再使用（需要副本请用 copy()）")))
            } else {
                Ok(v.ty)
            }
        },
    }
}

/// 字段名列表
fn field_names_of(sd: &StructDef) -> (r: Vec<String>)
    ensures
        strings_view(r@) == field_names(*sd),
{
    let mut r: Vec<String> = Vec::new();
    let mut i: usize = 0;
    while i < sd.fields.len()
        invariant
            i <= sd.fields@.len(),
            strings_view(r@) == field_names(*sd).take(i as int),
        decreases sd.fields@.len() - i,
    {
        let n = sd.fields[i].name.clone();
        let ghost r0 = r@;
        r.push(n);
        assert(strings_view(r@) =~= strings_view(r0).push(n@));
        assert(field_names(*sd).take(i + 1) =~= field_names(*sd).take(i as int).push(
            field_names(*sd)[i as int],
        ));
        i = i + 1;
    }
    assert(field_names(*sd).take(sd.fields@.len() as int) =~= field_names(*sd));
    r
}

/// 字段查找：第一个同名字段的位置，没有则为字段数
pub(crate) fn field_index(sd: &StructDef, f: &str) -> (r: usize)
    ensures
        r as int == field_pos(sd.fields@, f@, 0),
{
    let mut i: usize = 0;
    while i < sd.fields.len()
        invariant
            i <= sd.fields@.len(),
            forall|j: int| 0 <= j < i ==> sd.fields@[j].name@ != f@,
        decreases sd.fields@.len() - i,
    {
        if str_eq(sd.fields[i].name.as_str(), f) {
            proof {
                lemma_field_pos(sd.fields@, f@, i as int, 0);
            }
            return i;
        }
        i = i + 1;
    }
    proof {
        lemma_field_pos(sd.fields@, f@, sd.fields@.len() as int, 0);
    }
    i
}

fn check_field(
    bt: Ty,
    f: &str,
    scope: &Scope,
    structs: &[StructDef],
    tables: &TypeTables,
    line: usize,
    Ghost(env): Ghost<Env>,
) -> (r: Result<Ty, CheckError>)
    requires
        env.structs == structs@,
        env.tb == tables@,
    ensures
        expr_ok(r, sv_of(*scope), spec_check_field(bt, f@, sv_of(*scope), env, line)),
{
    let sd = match struct_by_id(structs, bt) {
        Some(sd) => sd,
        None => {
            let l = ty_label(bt, structs, tables);
            return Err(err(line, s3("类型 ", l.as_str(), " 没有字段（只有结构体能用 . 取字段）")));
        },
    };
    let k = field_index(sd, f);
    if k < sd.fields.len() {
        Ok(sd.fields[k].ty)
    } else {
        let names = field_names_of(sd);
        Err(
            cand_err(
                s5("结构体 '", sd.name.as_str(), "' 没有字段 '", f, "'"),
                line,
                "是否想用 '",
                f,
                names.as_slice(),
            ),
        )
    }
}

fn check_index_tail(
    bt: Ty,
    it: Ty,
    ix: &Expr,
    scope: &Scope,
    structs: &[StructDef],
    tables: &TypeTables,
    line: usize,
    Ghost(env): Ghost<Env>,
) -> (r: Result<Ty, CheckError>)
    requires
        env.structs == structs@,
        env.tb == tables@,
        forall|i: int| 0 <= i < tables.arrs@.len() ==> (#[trigger] tables.arrs@[i]).len >= 1,
    ensures
        expr_ok(r, sv_of(*scope), spec_check_index(bt, it, ix@, sv_of(*scope), env, line)),
{
    let nt = norm(bt);
    if let Some(m) = map_by_id(tables.maps.as_slice(), nt) {
        if !value_assignable(m.key, it, ix) {
            let l = ty_label(it, structs, tables);
            let mut msg = s3("map 键期望 ", m.key.label(), "，实际 ");
            msg.append(l.as_str());
            return Err(err(line, msg));
        }
        return Ok(m.val);
    }
    if !(it == Ty::I32 || it == Ty::I64) {
        let l = ty_label(it, structs, tables);
        return Err(err(line, s2("数组下标必须是整数，实际 ", l.as_str())));
    }
    if nt == Ty::Str {
        return Ok(Ty::I64);
    }
    if let Some(a) = arr_by_id(tables.arrs.as_slice(), nt) {
        match ix {
            Expr::Int(n) => {
                assert(ix@ == SExpr::Int(*n));
                if *n < 0 || *n as u64 >= a.len {
                    let mut v: Vec<char> = Vec::new();
                    push_str_chars("下标 ", &mut v);
                    push_int(*n, &mut v);
                    push_str_chars(" 越界：数组长度为 ", &mut v);
                    push_decimal(a.len, &mut v);
                    push_str_chars("（合法范围 0..", &mut v);
                    push_decimal(a.len - 1, &mut v);
                    push_str_chars("）", &mut v);
                    return Err(err(line, string_of_all(&v)));
                }
            },
            Expr::Neg(x) => {
                assert(ix@ == SExpr::Neg(Box::new((**x)@)));
                if let Expr::Int(n) = &**x {
                    assert((**x)@ == SExpr::Int(*n));
                    let mut v: Vec<char> = Vec::new();
                    push_str_chars("下标 -", &mut v);
                    push_int(*n, &mut v);
                    push_str_chars(" 越界：数组下标不能为负（合法范围 0..", &mut v);
                    push_decimal(a.len - 1, &mut v);
                    push_str_chars("）", &mut v);
                    return Err(err(line, string_of_all(&v)));
                }
            },
            _ => {},
        }
        return Ok(a.elem);
    }
    if let Some(d) = darr_by_id(tables.darrs.as_slice(), nt) {
        return Ok(d.elem);
    }
    let l = ty_label(nt, structs, tables);
    Err(err(line, s3("类型 ", l.as_str(), " 不能取下标（只有数组能用 [i]）")))
}


/// 数组类型表中每个数组的长度至少为 1（语法分析只产生正长度）
pub open spec fn arrs_ok(tb: TbView) -> bool {
    forall|i: int| 0 <= i < tb.arrs.len() ==> (#[trigger] tb.arrs[i]).len >= 1
}

/// 无值结果与规约一致
pub open spec fn unit_ok(r: Result<(), CheckError>, after: SV, sr: Result<SV, CE>) -> bool {
    match sr {
        Ok(sv) => r is Ok && after == sv,
        Err(c) => r is Err && ce_is(r->Err_0, c),
    }
}

/// 检查时不改动变量表的表达式：只由字面量、变量、借用、取负、二元运算、字段、下标、
/// 长度与键/值快照构成（其中没有调用与字面量构造，因而没有所有权移动）
pub open spec fn frames_scope(e: SExpr) -> bool
    decreases e,
{
    match e {
        SExpr::Int(_) | SExpr::Float(_) | SExpr::Str(_) | SExpr::Bool(_) | SExpr::Var(_) => true,
        SExpr::Borrow(_) | SExpr::Del { .. } | SExpr::Push { .. } | SExpr::Pop { .. } => true,
        SExpr::Neg(x) | SExpr::Len(x) | SExpr::Keys(x) | SExpr::Values(x) => frames_scope(*x),
        SExpr::Field(b, _) => frames_scope(*b),
        SExpr::Bin { lhs, rhs, .. } => frames_scope(*lhs) && frames_scope(*rhs),
        SExpr::Index(b, i) => frames_scope(*b) && frames_scope(*i),
        _ => false,
    }
}

/// 出错时变量表保持原样的语句：重复声明（在任何检查之前报错）、右侧不改动变量表的
/// 声明与打印，以及 break / continue
pub open spec fn stmt_err_keeps_scope(s: SStmt, sv: SV) -> bool {
    match s {
        SStmt::Decl { name, value, .. } => sv.0.contains_key(name) || frames_scope(value),
        SStmt::Print(e, _) => frames_scope(e),
        SStmt::Break(_) | SStmt::Continue(_) => true,
        _ => false,
    }
}

/// 推导结果改用行号 line
fn with_line(r: Result<Ty, CheckError>, line: usize, Ghost(tr): Ghost<TR>, Ghost(sv): Ghost<SV>) -> (out:
    Result<Ty, CheckError>)
    requires
        ty_result(r, tr),
    ensures
        expr_ok(out, sv, at_line(tr, sv, line)),
{
    match r {
        Ok(t) => Ok(t),
        Err(e) => {
            let mut e2 = e;
            e2.line = line;
            Err(e2)
        },
    }
}

/// 任一字段带名字
fn any_named(fs: &Vec<(Option<String>, Expr)>) -> (r: bool)
    ensures
        r == lit_named(field_inits_view(fs@)),
{
    let ghost v = field_inits_view(fs@);
    let mut i: usize = 0;
    while i < fs.len()
        invariant
            i <= fs@.len(),
            v == field_inits_view(fs@),
            forall|j: int| 0 <= j < i ==> (#[trigger] v[j]).0 is None,
        decreases fs@.len() - i,
    {
        assert(v[i as int].0 == crate::ast::opt_str_view(fs@[i as int].0));
        if fs[i].0.is_some() {
            assert(v[i as int].0 is Some);
            return true;
        }
        i = i + 1;
    }
    false
}

/// 任一字段不带名字
fn any_positional(fs: &Vec<(Option<String>, Expr)>) -> (r: bool)
    ensures
        r == lit_positional(field_inits_view(fs@)),
{
    let ghost v = field_inits_view(fs@);
    let mut i: usize = 0;
    while i < fs.len()
        invariant
            i <= fs@.len(),
            v == field_inits_view(fs@),
            forall|j: int| 0 <= j < i ==> (#[trigger] v[j]).0 is Some,
        decreases fs@.len() - i,
    {
        assert(v[i as int].0 == crate::ast::opt_str_view(fs@[i as int].0));
        if fs[i].0.is_none() {
            assert(v[i as int].0 is None);
            return true;
        }
        i = i + 1;
    }
    false
}

/// 表达式检查（带移动追踪）：类型 + 移动后使用一次完成
#[verifier::spinoff_prover]
#[verifier::rlimit(100)]
fn check_expr(
    expr: &Expr,
    scope: &mut Scope,
    funcs: &FuncTable,
    structs: &[StructDef],
    tables: &TypeTables,
    line: usize,
) -> (r: Result<Ty, CheckError>)
    requires
        arrs_ok(tables@),
    ensures
        expr_ok(
            r,
            sv_of(*final(scope)),
            spec_check_expr(expr@, sv_of(*old(scope)), env_of(*funcs, structs@, tables@), line),
        ),
        frames_scope(expr@) ==> sv_of(*final(scope)) == sv_of(*old(scope)),
    decreases expr, 1int,
{
    let ghost env = env_of(*funcs, structs@, tables@);
    match expr {
        Expr::Int(_) => Ok(Ty::I64),
        Expr::Float(_) => Ok(Ty::F64),
        Expr::Str(_) => Ok(Ty::Str),
        Expr::Bool(_) => Ok(Ty::Bool),
        Expr::Var(name) => check_var(name.as_str(), &*scope, line),
        Expr::Neg(x) => {
            let t = check_expr(x, scope, funcs, structs, tables, line)?;
            if t.is_numeric() {
                Ok(t)
            } else {
                Err(err(line, s3("类型 ", t.label(), " 不能取负号")))
            }
        },
        Expr::Bin { op, lhs, rhs } => {
            let l0 = check_expr(lhs, scope, funcs, structs, tables, line)?;
            let r0 = check_expr(rhs, scope, funcs, structs, tables, line)?;
            let ln = norm(l0);
            let rn = norm(r0);
            let b = bin_type_of(*op, ln, rn);
            with_line(b, line, Ghost(spec_bin_ty(*op, ln, rn)), Ghost(sv_of(*scope)))
        },
        Expr::Borrow(inner) => {
            let b = match ty_of(inner, &*scope, funcs, structs, tables) {
                Err(e) => Err(e),
                Ok(t) => borrow_type_of(t),
            };
            with_line(
                b,
                0,
                Ghost(spec_ty_of(expr@, var_tys(scope@), funcs.view(), structs@, tables@)),
                Ghost(sv_of(*scope)),
            )
        },
        Expr::Call { .. } => check_call_expr(expr, scope, funcs, structs, tables, line),
        Expr::Field(b, f) => {
            let b0 = check_expr(b, scope, funcs, structs, tables, line)?;
            check_field(norm(b0), f.as_str(), &*scope, structs, tables, line, Ghost(env))
        },
        Expr::StructLit { .. } => check_struct_lit(expr, scope, funcs, structs, tables, line),
        Expr::ArrLit { .. } => check_arr_lit(expr, scope, funcs, structs, tables, line),
        Expr::Index(..) => check_index_expr(expr, scope, funcs, structs, tables, line),
        Expr::DArrLit { darr, elems } => {
            if (*darr as usize) >= tables.darrs.len() {
                return Err(err(line, String::from_str("内部错误：动态数组类型索引越界")));
            }
            let d = tables.darrs[*darr as usize];
            check_elems(elems, Some(d.elem), "动态数组元素 #", scope, funcs, structs, tables, line)?;
            Ok(Ty::DArr(*darr))
        },
        Expr::MapLit { map, entries } => {
            if (*map as usize) >= tables.maps.len() {
                return Err(err(line, String::from_str("内部错误：关联数组类型索引越界")));
            }
            let m = tables.maps[*map as usize];
            check_map_entries(entries, m, scope, funcs, structs, tables, line)?;
            Ok(Ty::MapOf(*map))
        },
        Expr::Has { .. } => check_has_expr(expr, scope, funcs, structs, tables, line),
        Expr::Keys(m) => {
            let t = check_expr(m, scope, funcs, structs, tables, line)?;
            let nt = norm(t);
            let b = snapshot_type_of(nt, true, structs, tables);
            with_line(b, line, Ghost(spec_snapshot_ty(nt, true, structs@, tables@)), Ghost(sv_of(*scope)))
        },
        Expr::Values(m) => {
            let t = check_expr(m, scope, funcs, structs, tables, line)?;
            let nt = norm(t);
            let b = snapshot_type_of(nt, false, structs, tables);
            with_line(b, line, Ghost(spec_snapshot_ty(nt, false, structs@, tables@)), Ghost(sv_of(*scope)))
        },
        Expr::Del { .. } => Err(err(line, String::from_str("del 只能作为语句使用"))),
        Expr::Push { .. } => Err(err(line, String::from_str("push 只能作为语句使用"))),
        Expr::Pop { .. } => Err(err(line, String::from_str("pop 只能作为语句使用"))),
        Expr::Len(x) => {
            let t = check_expr(x, scope, funcs, structs, tables, line)?;
            let b = len_type_of(t, structs, tables);
            with_line(b, line, Ghost(spec_len_ty(t, structs@, tables@)), Ghost(sv_of(*scope)))
        },
        Expr::Sub { .. } => check_sub_expr(expr, scope, funcs, structs, tables, line),
        Expr::Sel { .. } => check_sel_expr(expr, scope, funcs, structs, tables, line),
        Expr::TupExpr { elems, tup } => {
            if (*tup as usize) >= tables.tuples.len() {
                return Err(err(line, String::from_str("内部错误：元组类型索引越界")));
            }
            assert(exprs_view(elems@).len() == elems@.len());
            if elems.len() != tables.tuples[*tup as usize].elems.len() {
                return Err(err(line, String::from_str("元组元素个数与声明不符（内部错误）")));
            }
            check_elems(elems, None, "", scope, funcs, structs, tables, line)?;
            Ok(Ty::Tuple(*tup))
        },
        Expr::Convert { .. } => check_convert_expr(expr, scope, funcs, structs, tables, line),
    }
}

#[verifier::spinoff_prover]
#[verifier::rlimit(60)]
fn check_call_expr(
    expr: &Expr,
    scope: &mut Scope,
    funcs: &FuncTable,
    structs: &[StructDef],
    tables: &TypeTables,
    line: usize,
) -> (r: Result<Ty, CheckError>)
    requires
        arrs_ok(tables@),
        expr is Call,
    ensures
        expr_ok(
            r,
            sv_of(*final(scope)),
            spec_check_expr(expr@, sv_of(*old(scope)), env_of(*funcs, structs@, tables@), line),
        ),
    decreases expr, 0int,
{
    let ghost env = env_of(*funcs, structs@, tables@);
    match expr {
        Expr::Call { name, args } => {
            let sig = match funcs.get(name.as_str()) {
                Some(sig) => sig,
                None => {
                    let names = funcs.keys();
                    return Err(
                        cand_err(
                            s3("函数 '", name.as_str(), "' 未定义"),
                            line,
                            "是否想调用 '",
                            name.as_str(),
                            names.as_slice(),
                        ),
                    );
                },
            };
            assert(exprs_view(args@).len() == args@.len());
            if sig.params.len() != args.len() {
                let head = s3("函数 '", name.as_str(), "' 期望 ");
                return Err(err(line, cat_nn(head.as_str(), sig.params.len(), " 个参数，实际 ", args.len(), " 个")));
            }
            check_call_args(args, sig, name.as_str(), scope, funcs, structs, tables, line)?;
            Ok(sig.ret)
        },
        _ => Err(err(line, String::new())),
    }
}

#[verifier::spinoff_prover]
#[verifier::rlimit(60)]
fn check_struct_lit(
    expr: &Expr,
    scope: &mut Scope,
    funcs: &FuncTable,
    structs: &[StructDef],
    tables: &TypeTables,
    line: usize,
) -> (r: Result<Ty, CheckError>)
    requires
        arrs_ok(tables@),
        expr is StructLit,
    ensures
        expr_ok(
            r,
            sv_of(*final(scope)),
            spec_check_expr(expr@, sv_of(*old(scope)), env_of(*funcs, structs@, tables@), line),
        ),
    decreases expr, 0int,
{
    let ghost env = env_of(*funcs, structs@, tables@);
    match expr {
        Expr::StructLit { name, fields, .. } => {
            let (sid, sd) = match struct_by_name(structs, name.as_str()) {
                Some(p) => p,
                None => {
                    proof {
                        lemma_struct_pos(structs@, name@, structs@.len() as int, 0);
                    }
                    return Err(err(line, s3("未知结构体 '", name.as_str(), "'")));
                },
            };
            proof {
                let k = choose|k: int|
                    0 <= k < structs@.len() && #[trigger] structs@[k].name@ == name@ && sid == k as u32
                        && sd == &structs@[k] && forall|j: int| 0 <= j < k ==> structs@[j].name@ != name@;
                lemma_struct_pos(structs@, name@, k, 0);
            }
            let named = any_named(fields);
            if named && any_positional(fields) {
                return Err(err(line, s3("结构体 '", name.as_str(), "' 的字面量不能混用位置式与命名式字段")));
            }
            if fields.len() != sd.fields.len() {
                let head = s3("结构体 '", name.as_str(), "' 期望 ");
                return Err(
                    err(line, cat_nn(head.as_str(), sd.fields.len(), " 个字段，实际 ", fields.len(), " 个")),
                );
            }
            check_lit_fields(fields, sd, name.as_str(), named, scope, funcs, structs, tables, line)?;
            Ok(Ty::Struct(sid))
        },
        _ => Err(err(line, String::new())),
    }
}

#[verifier::spinoff_prover]
#[verifier::rlimit(60)]
fn check_arr_lit(
    expr: &Expr,
    scope: &mut Scope,
    funcs: &FuncTable,
    structs: &[StructDef],
    tables: &TypeTables,
    line: usize,
) -> (r: Result<Ty, CheckError>)
    requires
        arrs_ok(tables@),
        expr is ArrLit,
    ensures
        expr_ok(
            r,
            sv_of(*final(scope)),
            spec_check_expr(expr@, sv_of(*old(scope)), env_of(*funcs, structs@, tables@), line),
        ),
    decreases expr, 0int,
{
    let ghost env = env_of(*funcs, structs@, tables@);
    match expr {
        Expr::ArrLit { arr, elems } => {
            if (*arr as usize) >= tables.arrs.len() {
                return Err(err(line, String::from_str("内部错误：数组类型索引越界")));
            }
            let a = tables.arrs[*arr as usize];
            assert(exprs_view(elems@).len() == elems@.len());
            if elems.len() as u64 != a.len {
                let mut v: Vec<char> = Vec::new();
                push_str_chars("数组 ", &mut v);
                push_str_chars(a.elem.label(), &mut v);
                push_str_chars("[", &mut v);
                push_decimal(a.len, &mut v);
                push_str_chars("] 期望 ", &mut v);
                push_decimal(a.len, &mut v);
                push_str_chars(" 个元素，实际 ", &mut v);
                push_decimal(elems.len() as u64, &mut v);
                push_str_chars(" 个", &mut v);
                return Err(err(line, string_of_all(&v)));
            }
            check_elems(elems, Some(a.elem), "数组元素 #", scope, funcs, structs, tables, line)?;
            Ok(Ty::Arr(*arr))
        },
        _ => Err(err(line, String::new())),
    }
}

#[verifier::spinoff_prover]
#[verifier::rlimit(60)]
fn check_index_expr(
    expr: &Expr,
    scope: &mut Scope,
    funcs: &FuncTable,
    structs: &[StructDef],
    tables: &TypeTables,
    line: usize,
) -> (r: Result<Ty, CheckError>)
    requires
        arrs_ok(tables@),
        expr is Index,
    ensures
        expr_ok(
            r,
            sv_of(*final(scope)),
            spec_check_expr(expr@, sv_of(*old(scope)), env_of(*funcs, structs@, tables@), line),
        ),
        frames_scope(expr@) ==> sv_of(*final(scope)) == sv_of(*old(scope)),
    decreases expr, 0int,
{
    let ghost env = env_of(*funcs, structs@, tables@);
    match expr {
        Expr::Index(b, ix) => {
            if !matches!(**b, Expr::Var(_)) {
                return Err(err(line, String::from_str("数组下标的左侧只能是数组变量（如 a[i]）")));
            }
            let bt = check_expr(b, scope, funcs, structs, tables, line)?;
            let it = check_expr(ix, scope, funcs, structs, tables, line)?;
            check_index_tail(bt, it, ix, &*scope, structs, tables, line, Ghost(env))
        },
        _ => Err(err(line, String::new())),
    }
}

#[verifier::spinoff_prover]
#[verifier::rlimit(60)]
fn check_has_expr(
    expr: &Expr,
    scope: &mut Scope,
    funcs: &FuncTable,
    structs: &[StructDef],
    tables: &TypeTables,
    line: usize,
) -> (r: Result<Ty, CheckError>)
    requires
        arrs_ok(tables@),
        expr is Has,
    ensures
        expr_ok(
            r,
            sv_of(*final(scope)),
            spec_check_expr(expr@, sv_of(*old(scope)), env_of(*funcs, structs@, tables@), line),
        ),
    decreases expr, 0int,
{
    let ghost env = env_of(*funcs, structs@, tables@);
    match expr {
        Expr::Has { map, key } => {
            let m0 = check_expr(map, scope, funcs, structs, tables, line)?;
            let mt = norm(m0);
            let m = match map_by_id(tables.maps.as_slice(), mt) {
                Some(m) => *m,
                None => {
                    let l = ty_label(mt, structs, tables);
                    return Err(err(line, s2("has() 第一个实参必须是 map，实际 ", l.as_str())));
                },
            };
            let k0 = check_expr(key, scope, funcs, structs, tables, line)?;
            let kt = norm(k0);
            if !value_assignable(m.key, kt, key) {
                let l = ty_label(kt, structs, tables);
                let mut msg = s3("has() 键期望 ", m.key.label(), "，实际 ");
                msg.append(l.as_str());
                return Err(err(line, msg));
            }
            Ok(Ty::Bool)
        },
        _ => Err(err(line, String::new())),
    }
}

#[verifier::spinoff_prover]
#[verifier::rlimit(60)]
fn check_sub_expr(
    expr: &Expr,
    scope: &mut Scope,
    funcs: &FuncTable,
    structs: &[StructDef],
    tables: &TypeTables,
    line: usize,
) -> (r: Result<Ty, CheckError>)
    requires
        arrs_ok(tables@),
        expr is Sub,
    ensures
        expr_ok(
            r,
            sv_of(*final(scope)),
            spec_check_expr(expr@, sv_of(*old(scope)), env_of(*funcs, structs@, tables@), line),
        ),
    decreases expr, 0int,
{
    let ghost env = env_of(*funcs, structs@, tables@);
    match expr {
        Expr::Sub { s, start, n } => {
            let s0 = check_expr(s, scope, funcs, structs, tables, line)?;
            let st = norm(s0);
            if st != Ty::Str {
                let l = ty_label(st, structs, tables);
                return Err(err(line, s2("sub 实参必须是 str，实际 ", l.as_str())));
            }
            let t1 = check_expr(start, scope, funcs, structs, tables, line)?;
            if !(t1 == Ty::I32 || t1 == Ty::I64) {
                let l = ty_label(t1, structs, tables);
                return Err(err(line, s2("sub 的 start 必须是整数，实际 ", l.as_str())));
            }
            let t2 = check_expr(n, scope, funcs, structs, tables, line)?;
            if !(t2 == Ty::I32 || t2 == Ty::I64) {
                let l = ty_label(t2, structs, tables);
                return Err(err(line, s2("sub 的 n 必须是整数，实际 ", l.as_str())));
            }
            Ok(Ty::Str)
        },
        _ => Err(err(line, String::new())),
    }
}

#[verifier::spinoff_prover]
#[verifier::rlimit(60)]
fn check_sel_expr(
    expr: &Expr,
    scope: &mut Scope,
    funcs: &FuncTable,
    structs: &[StructDef],
    tables: &TypeTables,
    line: usize,
) -> (r: Result<Ty, CheckError>)
    requires
        arrs_ok(tables@),
        expr is Sel,
    ensures
        expr_ok(
            r,
            sv_of(*final(scope)),
            spec_check_expr(expr@, sv_of(*old(scope)), env_of(*funcs, structs@, tables@), line),
        ),
    decreases expr, 0int,
{
    let ghost env = env_of(*funcs, structs@, tables@);
    match expr {
        Expr::Sel { cond, a, b } => {
            let ct = check_expr(cond, scope, funcs, structs, tables, line)?;
            if ct != Ty::Bool {
                let l = ty_label(ct, structs, tables);
                return Err(err(line, s2("sel 条件必须是 bool，实际 ", l.as_str())));
            }
            let at = check_expr(a, scope, funcs, structs, tables, line)?;
            let bt = check_expr(b, scope, funcs, structs, tables, line)?;
            let r = sel_unify(at, bt, structs, tables, line);
            proof {
                if r is Err {
                    assert(strings_view(r->Err_0.candidates@) =~= Seq::<Seq<char>>::empty());
                    assert(r->Err_0.hint@ =~= Seq::<char>::empty());
                }
            }
            r
        },
        _ => Err(err(line, String::new())),
    }
}

#[verifier::spinoff_prover]
#[verifier::rlimit(60)]
fn check_convert_expr(
    expr: &Expr,
    scope: &mut Scope,
    funcs: &FuncTable,
    structs: &[StructDef],
    tables: &TypeTables,
    line: usize,
) -> (r: Result<Ty, CheckError>)
    requires
        arrs_ok(tables@),
        expr is Convert,
    ensures
        expr_ok(
            r,
            sv_of(*final(scope)),
            spec_check_expr(expr@, sv_of(*old(scope)), env_of(*funcs, structs@, tables@), line),
        ),
    decreases expr, 0int,
{
    let ghost env = env_of(*funcs, structs@, tables@);
    match expr {
        Expr::Convert { name, arg } => {
            if str_eq(name.as_str(), "copy") {
                let t = copy_arg(arg, scope, funcs, structs, tables, line)?;
                if t != Ty::Str && t != Ty::BorrowStr {
                    return Err(err(line, s2("copy() 只能用于 str，实际 ", t.label())));
                }
                return Ok(Ty::Str);
            }
            let t = check_expr(arg, scope, funcs, structs, tables, line)?;
            if str_eq(name.as_str(), "tof") {
                let nt = norm(t);
                if nt != Ty::Str {
                    let l = ty_label(nt, structs, tables);
                    return Err(err(line, s2("tof 实参必须是 str，实际 ", l.as_str())));
                }
                return Ok(Ty::F64);
            }
            let b = convert_type_of(name.as_str(), t, arg, structs, tables);
            with_line(
                b,
                line,
                Ghost(spec_convert_ty(name@, t, (**arg)@, structs@, tables@)),
                Ghost(sv_of(*scope)),
            )
        },
        _ => Err(err(line, String::new())),
    }
}

/// copy(x) 的实参
fn copy_arg(
    a: &Expr,
    scope: &mut Scope,
    funcs: &FuncTable,
    structs: &[StructDef],
    tables: &TypeTables,
    line: usize,
) -> (r: Result<Ty, CheckError>)
    requires
        arrs_ok(tables@),
    ensures
        expr_ok(
            r,
            sv_of(*final(scope)),
            spec_copy_arg(a@, sv_of(*old(scope)), env_of(*funcs, structs@, tables@), line),
        ),
    decreases a, 2int,
{
    match a {
        Expr::Borrow(inner) => {
            assert(a@ == SExpr::Borrow(Box::new((**inner)@)));
            if !matches!(**inner, Expr::Var(_)) {
                return Err(err(line, String::from_str("借用 & 只能作用于 str 变量")));
            }
            let it = check_expr(inner, scope, funcs, structs, tables, line)?;
            if it != Ty::Str {
                return Err(err(line, s2("只能借用 str，实际 ", it.label())));
            }
            Ok(Ty::BorrowStr)
        },
        _ => check_expr(a, scope, funcs, structs, tables, line),
    }
}

/// 逐个检查元素；elem 为 Some(t) 时要求可赋给 t
fn check_elems(
    es: &Vec<Expr>,
    elem: Option<Ty>,
    pre: &str,
    scope: &mut Scope,
    funcs: &FuncTable,
    structs: &[StructDef],
    tables: &TypeTables,
    line: usize,
) -> (r: Result<(), CheckError>)
    requires
        arrs_ok(tables@),
    ensures
        unit_ok(
            r,
            sv_of(*final(scope)),
            spec_check_elems(exprs_view(es@), elem, pre@, 0, sv_of(*old(scope)), env_of(*funcs, structs@, tables@), line),
        ),
    decreases es, 0int,
{
    let ghost env = env_of(*funcs, structs@, tables@);
    let ghost v = exprs_view(es@);
    let ghost goal = spec_check_elems(v, elem, pre@, 0, sv_of(*scope), env, line);
    let mut i: usize = 0;
    while i < es.len()
        invariant
            i <= es@.len(),
            v == exprs_view(es@),
            env == env_of(*funcs, structs@, tables@),
            arrs_ok(tables@),
            goal == spec_check_elems(v, elem, pre@, 0, sv_of(*old(scope)), env, line),
            goal == spec_check_elems(v, elem, pre@, i as int, sv_of(*scope), env, line),
        decreases es@.len() - i,
    {
        proof {
            assert(v[i as int] == es@[i as int]@);
        }
        let vt = check_expr(&es[i], scope, funcs, structs, tables, line)?;
        if let Some(t) = elem {
            if !value_assignable(t, vt, &es[i]) {
                let l = ty_label(vt, structs, tables);
                let mut m: Vec<char> = Vec::new();
                push_str_chars(pre, &mut m);
                push_decimal(i as u64, &mut m);
                push_str_chars(" 期望 ", &mut m);
                push_str_chars(t.label(), &mut m);
                push_str_chars("，实际 ", &mut m);
                push_str_chars(l.as_str(), &mut m);
                return Err(err(line, string_of_all(&m)));
            }
        }
        i = i + 1;
    }
    Ok(())
}

/// 逐条检查 map 字面量条目的键与值
fn check_map_entries(
    es: &Vec<(Expr, Expr)>,
    m: MapDef,
    scope: &mut Scope,
    funcs: &FuncTable,
    structs: &[StructDef],
    tables: &TypeTables,
    line: usize,
) -> (r: Result<(), CheckError>)
    requires
        arrs_ok(tables@),
    ensures
        unit_ok(
            r,
            sv_of(*final(scope)),
            spec_map_entries(entries_view(es@), m, 0, sv_of(*old(scope)), env_of(*funcs, structs@, tables@), line),
        ),
    decreases es, 0int,
{
    let ghost env = env_of(*funcs, structs@, tables@);
    let ghost v = entries_view(es@);
    let ghost goal = spec_map_entries(v, m, 0, sv_of(*scope), env, line);
    let mut i: usize = 0;
    while i < es.len()
        invariant
            i <= es@.len(),
            v == entries_view(es@),
            env == env_of(*funcs, structs@, tables@),
            arrs_ok(tables@),
            goal == spec_map_entries(v, m, 0, sv_of(*old(scope)), env, line),
            goal == spec_map_entries(v, m, i as int, sv_of(*scope), env, line),
        decreases es@.len() - i,
    {
        proof {
            assert(v[i as int] == (es@[i as int].0@, es@[i as int].1@));
        }
        let k0 = check_expr(&es[i].0, scope, funcs, structs, tables, line)?;
        let kt = norm(k0);
        if !value_assignable(m.key, kt, &es[i].0) {
            let l = ty_label(kt, structs, tables);
            let mut msg: Vec<char> = Vec::new();
            push_str_chars("map 条目 #", &mut msg);
            push_decimal(i as u64, &mut msg);
            push_str_chars(" 键期望 ", &mut msg);
            push_str_chars(m.key.label(), &mut msg);
            push_str_chars("，实际 ", &mut msg);
            push_str_chars(l.as_str(), &mut msg);
            return Err(err(line, string_of_all(&msg)));
        }
        let v0 = check_expr(&es[i].1, scope, funcs, structs, tables, line)?;
        let vt = norm(v0);
        if !value_assignable(m.val, vt, &es[i].1) {
            let l = ty_label(vt, structs, tables);
            let mut msg: Vec<char> = Vec::new();
            push_str_chars("map 条目 #", &mut msg);
            push_decimal(i as u64, &mut msg);
            push_str_chars(" 值期望 ", &mut msg);
            push_str_chars(m.val.label(), &mut msg);
            push_str_chars("，实际 ", &mut msg);
            push_str_chars(l.as_str(), &mut msg);
            return Err(err(line, string_of_all(&msg)));
        }
        i = i + 1;
    }
    Ok(())
}

/// 逐个检查结构体字面量的字段值
fn check_lit_fields(
    fs: &Vec<(Option<String>, Expr)>,
    sd: &StructDef,
    name: &str,
    named: bool,
    scope: &mut Scope,
    funcs: &FuncTable,
    structs: &[StructDef],
    tables: &TypeTables,
    line: usize,
) -> (r: Result<(), CheckError>)
    requires
        arrs_ok(tables@),
        named ==> !lit_positional(field_inits_view(fs@)),
    ensures
        unit_ok(
            r,
            sv_of(*final(scope)),
            spec_lit_fields(
                field_inits_view(fs@),
                *sd,
                name@,
                named,
                0,
                sv_of(*old(scope)),
                env_of(*funcs, structs@, tables@),
                line,
            ),
        ),
    decreases fs, 0int,
{
    let ghost env = env_of(*funcs, structs@, tables@);
    let ghost v = field_inits_view(fs@);
    let ghost goal = spec_lit_fields(v, *sd, name@, named, 0, sv_of(*scope), env, line);
    let mut i: usize = 0;
    while i < fs.len() && i < sd.fields.len()
        invariant
            i <= fs@.len(),
            v == field_inits_view(fs@),
            env == env_of(*funcs, structs@, tables@),
            arrs_ok(tables@),
            named ==> !lit_positional(v),
            goal == spec_lit_fields(v, *sd, name@, named, 0, sv_of(*old(scope)), env, line),
            goal == spec_lit_fields(v, *sd, name@, named, i as int, sv_of(*scope), env, line),
        decreases fs@.len() - i,
    {
        proof {
            assert(v[i as int] == (crate::ast::opt_str_view(fs@[i as int].0), fs@[i as int].1@));
        }
        let fname: &str = if named {
            match &fs[i].0 {
                Some(n) => n.as_str(),
                None => {
                    proof {
                        assert(v[i as int].0 is None);
                    }
                    return Ok(());
                },
            }
        } else {
            sd.fields[i].name.as_str()
        };
        let k = if named {
            field_index(sd, fname)
        } else {
            i
        };
        if k >= sd.fields.len() {
            let names = field_names_of(sd);
            return Err(
                cand_err(
                    s5("结构体 '", name, "' 没有字段 '", fname, "'"),
                    line,
                    "是否想用 '",
                    fname,
                    names.as_slice(),
                ),
            );
        }
        let ft = sd.fields[k].ty;
        let vt = check_expr(&fs[i].1, scope, funcs, structs, tables, line)?;
        if !value_assignable(ft, vt, &fs[i].1) {
            let lf = ty_label(ft, structs, tables);
            let lv = ty_label(vt, structs, tables);
            let mut msg: Vec<char> = Vec::new();
            push_str_chars("结构体 '", &mut msg);
            push_str_chars(name, &mut msg);
            push_str_chars("' 的字段 '", &mut msg);
            push_str_chars(fname, &mut msg);
            push_str_chars("' 期望 ", &mut msg);
            push_str_chars(lf.as_str(), &mut msg);
            push_str_chars("，实际 ", &mut msg);
            push_str_chars(lv.as_str(), &mut msg);
            return Err(err(line, string_of_all(&msg)));
        }
        if ft == Ty::Str {
            mark_top_move(&fs[i].1, scope);
        }
        i = i + 1;
    }
    Ok(())
}

/// 逐个检查调用实参
fn check_call_args(
    args: &Vec<Expr>,
    sig: &FuncSig,
    name: &str,
    scope: &mut Scope,
    funcs: &FuncTable,
    structs: &[StructDef],
    tables: &TypeTables,
    line: usize,
) -> (r: Result<(), CheckError>)
    requires
        arrs_ok(tables@),
    ensures
        unit_ok(
            r,
            sv_of(*final(scope)),
            spec_call_args(
                exprs_view(args@),
                fsig_view(*sig),
                name@,
                0,
                sv_of(*old(scope)),
                env_of(*funcs, structs@, tables@),
                line,
            ),
        ),
    decreases args, 0int,
{
    let ghost env = env_of(*funcs, structs@, tables@);
    let ghost v = exprs_view(args@);
    let ghost goal = spec_call_args(v, fsig_view(*sig), name@, 0, sv_of(*scope), env, line);
    let mut i: usize = 0;
    while i < args.len() && i < sig.params.len()
        invariant
            i <= args@.len(),
            v == exprs_view(args@),
            env == env_of(*funcs, structs@, tables@),
            arrs_ok(tables@),
            goal == spec_call_args(v, fsig_view(*sig), name@, 0, sv_of(*old(scope)), env, line),
            goal == spec_call_args(v, fsig_view(*sig), name@, i as int, sv_of(*scope), env, line),
        decreases args@.len() - i,
    {
        proof {
            assert(v[i as int] == args@[i as int]@);
        }
        let bp = i < sig.borrows.len() && sig.borrows[i];
        check_call_arg(&args[i], sig.params[i], bp, name, scope, funcs, structs, tables, line)?;
        i = i + 1;
    }
    Ok(())
}

/// 一个调用实参
fn check_call_arg(
    a: &Expr,
    pt: Ty,
    is_borrow_param: bool,
    name: &str,
    scope: &mut Scope,
    funcs: &FuncTable,
    structs: &[StructDef],
    tables: &TypeTables,
    line: usize,
) -> (r: Result<(), CheckError>)
    requires
        arrs_ok(tables@),
    ensures
        unit_ok(
            r,
            sv_of(*final(scope)),
            spec_call_arg(a@, pt, is_borrow_param, name@, sv_of(*old(scope)), env_of(*funcs, structs@, tables@), line),
        ),
    decreases a, 2int,
{
    if pt == Ty::BorrowStr {
        return borrow_str_arg(a, name, scope, funcs, structs, tables, line);
    }
    if pt == Ty::Str && matches!(a, Expr::Borrow(_)) {
        return Err(
            err(
                line,
                s3("函数 '", name, "' 的形参 str 接管所有权，实参不能是借用；去掉 & 传值，或将形参改为 &str"),
            ),
        );
    }
    let at = check_expr(a, scope, funcs, structs, tables, line)?;
    arg_rules(a, pt, at, is_borrow_param, name, scope, structs, tables, line, Ghost(env_of(*funcs, structs@, tables@)))
}

/// 借用 &str 形参的实参
#[verifier::spinoff_prover]
#[verifier::rlimit(80)]
fn borrow_str_arg(
    a: &Expr,
    name: &str,
    scope: &mut Scope,
    funcs: &FuncTable,
    structs: &[StructDef],
    tables: &TypeTables,
    line: usize,
) -> (r: Result<(), CheckError>)
    requires
        arrs_ok(tables@),
    ensures
        unit_ok(
            r,
            sv_of(*final(scope)),
            spec_borrow_str_arg(a@, name@, sv_of(*old(scope)), env_of(*funcs, structs@, tables@), line),
        ),
    decreases a, 1int,
{
    match a {
        Expr::Str(_) => Ok(()),
        Expr::Var(n) => {
            match scope.get(n.as_str()) {
                Some(v) => {
                    if v.ty == Ty::BorrowStr {
                        return Ok(());
                    }
                },
                None => {},
            }
            Err(err(line, s3("函数 '", name, "' 的形参是借用 &str，实参需加 & 前缀（借用不移动源变量）")))
        },
        Expr::Borrow(inner) => match &**inner {
            Expr::Field(base, f) => {
                assert(a@ == SExpr::Borrow(Box::new((**inner)@)));
                assert((**inner)@ == SExpr::Field(Box::new((**base)@), f@));
                let bt = check_expr(base, scope, funcs, structs, tables, line)?;
                match bt {
                    Ty::Struct(idx) => {
                        if (idx as usize) >= structs.len() {
                            return Err(err(line, String::from_str("内部错误：结构体索引越界")));
                        }
                        let sd = &structs[idx as usize];
                        let k = field_index(sd, f.as_str());
                        if k >= sd.fields.len() {
                            return Err(err(line, s5("结构体 '", sd.name.as_str(), "' 没有字段 '", f.as_str(), "'")));
                        }
                        if sd.fields[k].ty != Ty::Str {
                            return Err(err(line, s3("字段 '", f.as_str(), "' 不是 str 类型，只能借用 str 字段")));
                        }
                        Ok(())
                    },
                    other => Err(err(line, s2("只能借用 str 变量或结构体的 str 字段，实际 ", other.label()))),
                }
            },
            Expr::Var(_) => {
                assert(a@ == SExpr::Borrow(Box::new((**inner)@)));
                let t = check_expr(inner, scope, funcs, structs, tables, line)?;
                if t != Ty::Str {
                    return Err(err(line, s2("只能借用 str，实际 ", t.label())));
                }
                Ok(())
            },
            _ => Err(err(line, String::from_str("借用 & 只能作用于 str 变量或 str 字段（&变量 或 &变量.字段）"))),
        },
        _ => Err(err(line, s3("函数 '", name, "' 的形参是借用 &str，实参需加 & 前缀（借用不移动源变量）"))),
    }
}

/// 实参所指的变量名：`h` 或 `&h`
fn arg_var_name(a: &Expr) -> (r: Option<&String>)
    ensures
        match r {
            Some(n) => arg_var(a@) == Some(n@),
            None => arg_var(a@) is None,
        },
{
    match a {
        Expr::Var(n) => {
            assert(a@ == SExpr::Var(n@));
            Some(n)
        },
        Expr::Borrow(inner) => {
            assert(a@ == SExpr::Borrow(Box::new((**inner)@)));
            match &**inner {
                Expr::Var(n) => {
                    assert((**inner)@ == SExpr::Var(n@));
                    Some(n)
                },
                _ => None,
            }
        },
        _ => None,
    }
}

/// 实参类型已检查后的规则
fn arg_rules(
    a: &Expr,
    pt: Ty,
    at: Ty,
    is_borrow_param: bool,
    name: &str,
    scope: &mut Scope,
    structs: &[StructDef],
    tables: &TypeTables,
    line: usize,
    Ghost(env): Ghost<Env>,
) -> (r: Result<(), CheckError>)
    requires
        env.structs == structs@,
        env.tb == tables@,
    ensures
        unit_ok(r, sv_of(*final(scope)), spec_arg_rules(a@, pt, at, is_borrow_param, name@, sv_of(*old(scope)), env, line)),
{
    if pt.is_arr() {
        if !matches!(a, Expr::Var(_)) {
            return Err(err(line, s3("函数 '", name, "' 的数组形参只接受数组变量实参（只读视图传递）")));
        }
        if at != pt {
            let lp = ty_label(pt, structs, tables);
            let la = ty_label(at, structs, tables);
            let mut m = s5("函数 '", name, "' 的数组形参期望 ", lp.as_str(), "，实际 ");
            m.append(la.as_str());
            return Err(err(line, m));
        }
        return Ok(());
    }
    if !value_assignable(pt, at, a) {
        let mut m = s5("函数 '", name, "' 的参数期望 ", pt.label(), "，实际 ");
        m.append(at.label());
        return Err(err(line, m));
    }
    if is_borrow_param {
        match arg_var_name(a) {
            Some(n) => {
                match scope.get(n.as_str()) {
                    None => {
                        return Err(err(line, s3("变量 '", n.as_str(), "' 未声明")));
                    },
                    Some(v) => {
                        if v.is_borrow {
                            return Ok(());
                        }
                        if darr_by_id(tables.darrs.as_slice(), v.ty).is_none() && map_by_id(
                            tables.maps.as_slice(),
                            v.ty,
                        ).is_none() {
                            return Err(err(line, s3("函数 '", name, "' 的 &[]T/&map 形参期望动态数组或 map 变量")));
                        }
                        return Ok(());
                    },
                }
            },
            None => {
                if matches!(a, Expr::Call { .. }) {
                    return Ok(());
                }
                return Err(err(line, s3("函数 '", name, "' 的 &[]T 形参只接受数组变量实参")));
            },
        }
    }
    if at.is_tuple() || pt.is_tuple() {
        return Err(err(line, s3("函数 '", name, "' 的元组不可作为实参（元组仅用于返回边界）")));
    }
    if pt.is_darr() && !matches!(a, Expr::Var(_) | Expr::Call { .. }) {
        if let Some(n) = arg_var_name(a) {
            return Err(
                err(line, s3("不能把借用 '&", n.as_str(), "' 传给接管所有权的形参（去掉 & 传值，或把形参改为 &[]T）")),
            );
        }
        return Err(err(line, s3("函数 '", name, "' 的动态数组实参只能是数组变量或函数调用")));
    }
    if is_owned(pt) {
        if matches!(a, Expr::Field(..)) {
            return Err(
                err(line, s3("不能把结构体字段移出传给 '", name, "'（字段只能借用：调用 copy(p.x) 取副本）")),
            );
        }
        mark_top_move(a, scope);
    }
    Ok(())
}


// ───────────────────────── 语句检查（执行代码） ─────────────────────────

/// 堆类型值的所有权接收：禁止从动态数组 str 元素或结构体字段移出，否则移动顶层变量
fn take_owned(
    value: &Expr,
    target: Ty,
    field_msg: String,
    scope: &mut Scope,
    funcs: &FuncTable,
    structs: &[StructDef],
    tables: &TypeTables,
    line: usize,
) -> (r: Result<(), CheckError>)
    ensures
        unit_ok(
            r,
            sv_of(*final(scope)),
            spec_take_owned(value@, target, field_msg@, sv_of(*old(scope)), env_of(*funcs, structs@, tables@), line),
        ),
        r is Err ==> sv_of(*final(scope)) == sv_of(*old(scope)),
{
    if !is_owned(target) {
        return Ok(());
    }
    if let Expr::Index(base, _) = value {
        assert(value@ matches SExpr::Index(b, _) && *b == (**base)@);
        if let Ok(bt) = ty_of(base, &*scope, funcs, structs, tables) {
            if bt.is_darr() {
                if let Ok(et) = ty_of(value, &*scope, funcs, structs, tables) {
                    if et == Ty::Str {
                        return Err(
                            err(
                                line,
                                String::from_str(
                                    "不能把动态数组的 str 元素移出为所有者（容器负责释放；需要副本用 copy(a[i])）",
                                ),
                            ),
                        );
                    }
                }
            }
        }
    }
    if matches!(value, Expr::Field(..)) {
        return Err(err(line, field_msg));
    }
    mark_top_move(value, scope);
    Ok(())
}

/// 声明语句
#[verifier::spinoff_prover]
#[verifier::rlimit(60)]
fn check_decl(
    mutable: bool,
    name: &String,
    ty: Option<Ty>,
    value: &Expr,
    line: usize,
    scope: &mut Scope,
    funcs: &FuncTable,
    structs: &[StructDef],
    tables: &TypeTables,
) -> (r: Result<(), CheckError>)
    requires
        arrs_ok(tables@),
    ensures
        unit_ok(
            r,
            sv_of(*final(scope)),
            spec_decl(mutable, name@, ty, value@, line, sv_of(*old(scope)), env_of(*funcs, structs@, tables@)),
        ),
        r is Err && (sv_of(*old(scope)).0.contains_key(name@) || frames_scope(value@)) ==> sv_of(*final(scope))
            == sv_of(*old(scope)),
{
    if scope.contains(name.as_str()) {
        return Err(err(line, s3("变量 '", name.as_str(), "' 重复声明")));
    }
    let vt = check_expr(value, scope, funcs, structs, tables, line)?;
    let target = match ty {
        Some(t) => t,
        None => vt,
    };
    if target == Ty::BorrowStr {
        if ty.is_some() {
            return Err(err(line, String::from_str("局部变量不能声明为借用 &str（借用只存在于调用期间）")));
        }
        return Err(
            err(line, String::from_str("借用不能取得所有权（&str 形参不可绑定给 str 变量；需要副本请用 copy()）")),
        );
    }
    if let Some(ann) = ty {
        if !value_assignable(ann, vt, value) {
            let mut m = s5("类型标注 ", ann.label(), " 与实际类型 ", vt.label(), " 不符");
            return Err(err(line, m));
        }
    }
    let lt = ty_label(target, structs, tables);
    let fm = s3("不能把结构体字段移出为 ", lt.as_str(), " 所有者（请用 copy(p.x) 取副本）");
    take_owned(value, target, fm, scope, funcs, structs, tables, line)?;
    scope.insert(name.clone(), VarInfo::new(target, mutable));
    Ok(())
}

/// 解构声明
#[verifier::spinoff_prover]
fn check_multi_decl(
    mutable: bool,
    names: &Vec<String>,
    value: &Expr,
    line: usize,
    scope: &mut Scope,
    funcs: &FuncTable,
    structs: &[StructDef],
    tables: &TypeTables,
) -> (r: Result<(), CheckError>)
    requires
        arrs_ok(tables@),
    ensures
        unit_ok(
            r,
            sv_of(*final(scope)),
            spec_multi_decl(mutable, strs_view(names@), value@, line, sv_of(*old(scope)), env_of(*funcs, structs@, tables@)),
        ),
{
    let vt = check_expr(value, scope, funcs, structs, tables, line)?;
    let td = match crate::type_check::tuple_by_id(tables.tuples.as_slice(), vt) {
        Some(td) => td,
        None => {
            return Err(
                err(
                    line,
                    String::from_str("解构赋值的右侧必须是返回元组的函数调用（元组仅存在于返回边界，不可作为值出现）"),
                ),
            );
        },
    };
    let ghost nv = strs_view(names@);
    assert(nv.len() == names@.len());
    if names.len() != td.elems.len() {
        return Err(err(line, cat_nn("解构数量不符：左侧 ", names.len(), " 个，元组 ", td.elems.len(), " 个元素")));
    }
    let ghost sv1 = sv_of(*scope);
    let ghost env = env_of(*funcs, structs@, tables@);
    let ghost goal = spec_multi_decl(mutable, nv, value@, line, sv_of(*old(scope)), env);
    assert(goal == (match spec_names_fresh(nv, 0, sv1, line) {
        Err(c) => Err(c),
        Ok(_) => spec_bind_elems(nv, td.elems@, mutable, 0, sv1, line),
    }));
    let mut i: usize = 0;
    while i < names.len()
        invariant
            i <= names@.len(),
            nv == strs_view(names@),
            sv1 == sv_of(*scope),
            spec_names_fresh(nv, 0, sv1, line) == spec_names_fresh(nv, i as int, sv1, line),
            env == env_of(*funcs, structs@, tables@),
            goal == spec_multi_decl(mutable, nv, value@, line, sv_of(*old(scope)), env),
            goal == (match spec_names_fresh(nv, 0, sv1, line) {
                Err(c) => Err(c),
                Ok(_) => spec_bind_elems(nv, td.elems@, mutable, 0, sv1, line),
            }),
        decreases names@.len() - i,
    {
        assert(nv[i as int] == names@[i as int]@);
        if scope.contains(names[i].as_str()) {
            return Err(err(line, s3("变量 '", names[i].as_str(), "' 重复声明")));
        }
        i = i + 1;
    }
    let mut j: usize = 0;
    while j < names.len()
        invariant
            j <= names@.len(),
            names@.len() == td.elems@.len(),
            nv == strs_view(names@),
            spec_names_fresh(nv, 0, sv1, line) is Ok,
            env == env_of(*funcs, structs@, tables@),
            goal == spec_multi_decl(mutable, nv, value@, line, sv_of(*old(scope)), env),
            goal == (match spec_names_fresh(nv, 0, sv1, line) {
                Err(c) => Err(c),
                Ok(_) => spec_bind_elems(nv, td.elems@, mutable, 0, sv1, line),
            }),
            spec_bind_elems(nv, td.elems@, mutable, 0, sv1, line) == spec_bind_elems(
                nv,
                td.elems@,
                mutable,
                j as int,
                sv_of(*scope),
                line,
            ),
        decreases names@.len() - j,
    {
        assert(nv[j as int] == names@[j as int]@);
        let et = td.elems[j];
        if et == Ty::BorrowStr {
            let mut v: Vec<char> = Vec::new();
            push_str_chars("解构的第 ", &mut v);
            push_decimal((j + 1) as u64, &mut v);
            push_str_chars(" 个元素是借用 &str，不能取得所有权", &mut v);
            return Err(err(line, string_of_all(&v)));
        }
        scope.insert(names[j].clone(), VarInfo::new(et, mutable));
        j = j + 1;
    }
    Ok(())
}

/// 赋值左侧为 a[i]：下标已检查后的规则；返回 (是否重绑变量本身, 左侧类型)
fn index_target(
    bn: &String,
    info: VarInfo,
    it: Ty,
    idx: &Expr,
    structs: &[StructDef],
    tables: &TypeTables,
    line: usize,
    Ghost(env): Ghost<Env>,
) -> (r: Result<(bool, Ty), CheckError>)
    requires
        env.structs == structs@,
        env.tb == tables@,
        arrs_ok(tables@),
    ensures
        match spec_index_target(bn@, info, it, idx@, env, line) {
            Ok((vn, t)) => r is Ok && r->Ok_0.1 == t && vn == (if r->Ok_0.0 {
                Some(bn@)
            } else {
                None::<Seq<char>>
            }),
            Err(c) => r is Err && ce_is(r->Err_0, c),
        },
{
    let map_param = info.is_param && info.ty.is_map();
    if let Some(m) = map_by_id(tables.maps.as_slice(), info.ty) {
        if info.is_borrow {
            return Err(err(line, s3("变量 '", bn.as_str(), "' 是借用 &map[..]（只读视图），不能写元素")));
        }
        if !info.mutable && !map_param {
            return Err(
                err(line, s3("变量 '", bn.as_str(), "' 是只读的（/ 声明），map 元素写入需重绑变量，请用 // 声明")),
            );
        }
        if !value_assignable(m.key, it, idx) {
            let l = ty_label(it, structs, tables);
            let mut msg = s3("map 键期望 ", m.key.label(), "，实际 ");
            msg.append(l.as_str());
            return Err(err(line, msg));
        }
        return Ok((true, m.val));
    }
    if !(it == Ty::I32 || it == Ty::I64) {
        let l = ty_label(it, structs, tables);
        return Err(err(line, s2("数组下标必须是整数，实际 ", l.as_str())));
    }
    if norm(info.ty) == Ty::Str {
        return Err(err(line, String::from_str("str 不可按下标赋值（str 不可变；用拼接构造新串）")));
    }
    if info.is_borrow {
        return Err(err(line, s3("变量 '", bn.as_str(), "' 是借用 &[]T（只读视图），不能修改其元素")));
    }
    if let Some(d) = darr_by_id(tables.darrs.as_slice(), info.ty) {
        if let Expr::Neg(x) = idx {
            assert(idx@ == SExpr::Neg(Box::new((**x)@)));
            if let Expr::Int(_) = &**x {
                return Err(err(line, String::from_str("数组下标不能为负")));
            }
        }
        return Ok((false, d.elem));
    }
    let a = match arr_by_id(tables.arrs.as_slice(), info.ty) {
        Some(a) => a,
        None => {
            let l = ty_label(info.ty, structs, tables);
            return Err(err(line, s3("类型 ", l.as_str(), " 不能按下标赋值（左侧必须是数组或 map）")));
        },
    };
    match idx {
        Expr::Int(n) => {
            assert(idx@ == SExpr::Int(*n));
            if *n < 0 || *n as u64 >= a.len {
                let mut v: Vec<char> = Vec::new();
                push_str_chars("下标 ", &mut v);
                push_int(*n, &mut v);
                push_str_chars(" 越界：数组长度为 ", &mut v);
                push_decimal(a.len, &mut v);
                push_str_chars("（合法范围 0..", &mut v);
                push_decimal(a.len - 1, &mut v);
                push_str_chars("）", &mut v);
                return Err(err(line, string_of_all(&v)));
            }
        },
        Expr::Neg(x) => {
            assert(idx@ == SExpr::Neg(Box::new((**x)@)));
            if let Expr::Int(n) = &**x {
                assert((**x)@ == SExpr::Int(*n));
                let mut v: Vec<char> = Vec::new();
                push_str_chars("下标 -", &mut v);
                push_int(*n, &mut v);
                push_str_chars(" 越界：数组下标不能为负（合法范围 0..", &mut v);
                push_decimal(a.len - 1, &mut v);
                push_str_chars("）", &mut v);
                return Err(err(line, string_of_all(&v)));
            }
        },
        _ => {},
    }
    Ok((false, a.elem))
}

pub open spec fn target_ok(r: Result<(Option<String>, Ty), CheckError>, after: SV, sr: Result<(Option<Seq<char>>, Ty, SV), CE>) -> bool {
    match sr {
        Ok((vn, t, sv1)) => r is Ok && crate::ast::opt_str_view(r->Ok_0.0) == vn && r->Ok_0.1 == t && after == sv1,
        Err(c) => r is Err && ce_is(r->Err_0, c),
    }
}

/// 赋值左侧：返回 (被赋值的变量名, 左侧类型)
#[verifier::spinoff_prover]
#[verifier::rlimit(60)]
fn assign_target(
    target: &Expr,
    scope: &mut Scope,
    funcs: &FuncTable,
    structs: &[StructDef],
    tables: &TypeTables,
    line: usize,
) -> (r: Result<(Option<String>, Ty), CheckError>)
    requires
        arrs_ok(tables@),
    ensures
        target_ok(r, sv_of(*final(scope)), spec_assign_target(target@, sv_of(*old(scope)), env_of(*funcs, structs@, tables@), line)),
{
    let ghost env = env_of(*funcs, structs@, tables@);
    match target {
        Expr::Var(name) => {
            match scope.get(name.as_str()) {
                None => Err(err(line, s3("变量 '", name.as_str(), "' 未声明（声明用 / 或 // 前缀）"))),
                Some(info) => {
                    if !info.mutable {
                        return Err(err(line, s3("变量 '", name.as_str(), "' 是只读的（/ 声明），不能赋值")));
                    }
                    Ok((Some(name.clone()), info.ty))
                },
            }
        },
        Expr::Field(base, f) => {
            assert(target@ == SExpr::Field(Box::new((**base)@), f@));
            let b0 = check_expr(base, scope, funcs, structs, tables, line)?;
            let bt = norm(b0);
            let sd = match struct_by_id(structs, bt) {
                Some(sd) => sd,
                None => {
                    let l = ty_label(bt, structs, tables);
                    return Err(err(line, s3("类型 ", l.as_str(), " 没有字段（只有结构体能用 . 取字段）")));
                },
            };
            let k = field_index(sd, f.as_str());
            if k >= sd.fields.len() {
                return Err(err(line, s5("结构体 '", sd.name.as_str(), "' 没有字段 '", f.as_str(), "'")));
            }
            match &**base {
                Expr::Var(bn) => {
                    match scope.get(bn.as_str()) {
                        None => {
                            return Err(err(line, s3("变量 '", bn.as_str(), "' 未声明")));
                        },
                        Some(v) => {
                            if !v.mutable {
                                return Err(err(line, s3("变量 '", bn.as_str(), "' 是只读的（/ 声明），不能修改其字段")));
                            }
                            if v.moved {
                                return Err(err(line, s3("变量 '", bn.as_str(), "' 的值已被移动，不能修改其字段")));
                            }
                        },
                    }
                },
                _ => {
                    return Err(err(line, String::from_str("只能给'变量.字段'赋值（如 p.x = 1）")));
                },
            }
            Ok((None, sd.fields[k].ty))
        },
        Expr::Index(base, idx) => {
            assert(target@ == SExpr::Index(Box::new((**base)@), Box::new((**idx)@)));
            let bn = match &**base {
                Expr::Var(bn) => bn,
                _ => {
                    return Err(err(line, String::from_str("数组下标赋值的左侧只能是数组变量（如 a[i]=1）")));
                },
            };
            let info = match scope.get(bn.as_str()) {
                Some(v) => v,
                None => {
                    return Err(err(line, s3("变量 '", bn.as_str(), "' 未声明")));
                },
            };
            let darr_param = info.is_param && info.ty.is_darr();
            let map_param = info.is_param && info.ty.is_map();
            if !info.mutable && !darr_param && !map_param {
                return Err(err(line, s3("变量 '", bn.as_str(), "' 是只读的（/ 声明），不能修改其元素")));
            }
            let it = check_expr(idx, scope, funcs, structs, tables, line)?;
            let (rebind, t) = index_target(bn, info, it, idx, structs, tables, line, Ghost(env))?;
            if rebind {
                Ok((Some(bn.clone()), t))
            } else {
                Ok((None, t))
            }
        },
        _ => Err(err(line, String::from_str("赋值的左侧只能是变量、变量.字段 或 数组元素 a[i]"))),
    }
}

/// 赋值语句
#[verifier::spinoff_prover]
#[verifier::rlimit(60)]
fn check_assign(
    target: &Expr,
    value: &Expr,
    line: usize,
    scope: &mut Scope,
    funcs: &FuncTable,
    structs: &[StructDef],
    tables: &TypeTables,
) -> (r: Result<(), CheckError>)
    requires
        arrs_ok(tables@),
    ensures
        unit_ok(
            r,
            sv_of(*final(scope)),
            spec_assign(target@, value@, line, sv_of(*old(scope)), env_of(*funcs, structs@, tables@)),
        ),
{
    let (vn, tt) = assign_target(target, scope, funcs, structs, tables, line)?;
    let vt = check_expr(value, scope, funcs, structs, tables, line)?;
    if !value_assignable(tt, vt, value) {
        let lv = ty_label(vt, structs, tables);
        let lt = ty_label(tt, structs, tables);
        return Err(err(line, s5("不能把 ", lv.as_str(), " 赋给 ", lt.as_str(), " 类型的左侧")));
    }
    take_owned(
        value,
        tt,
        String::from_str("不能把结构体字段移出（字段只能借用：请用 copy(p.x) 取副本）"),
        scope,
        funcs,
        structs,
        tables,
        line,
    )?;
    if let Some(name) = vn {
        if let Some(v) = scope.get(name.as_str()) {
            let nv = VarInfo { moved: false, ..v };
            scope.insert(name, nv);
        }
    }
    Ok(())
}

/// 打印语句
fn check_print(
    e: &Expr,
    line: usize,
    scope: &mut Scope,
    funcs: &FuncTable,
    structs: &[StructDef],
    tables: &TypeTables,
) -> (r: Result<(), CheckError>)
    requires
        arrs_ok(tables@),
    ensures
        unit_ok(r, sv_of(*final(scope)), spec_print(e@, line, sv_of(*old(scope)), env_of(*funcs, structs@, tables@))),
        r is Err && frames_scope(e@) ==> sv_of(*final(scope)) == sv_of(*old(scope)),
{
    let t = check_expr(e, scope, funcs, structs, tables, line)?;
    if t.is_struct() {
        let l = ty_label(t, structs, tables);
        return Err(err(line, s3("不能直接打印结构体 '", l.as_str(), "'（请打印具体字段，如 p.x）")));
    }
    if t.is_arr() || t.is_darr() {
        let l = ty_label(t, structs, tables);
        return Err(err(line, s3("不能直接打印数组 '", l.as_str(), "'（请打印元素如 `a[0]，或长度 `len(a)）")));
    }
    if t.is_tuple() {
        let l = ty_label(t, structs, tables);
        return Err(
            err(line, s3("不能直接打印元组 '", l.as_str(), "'（请用 destructuring `//a, b = f()` 后分别打印 a、b）")),
        );
    }
    if t.is_map() {
        let l = ty_label(t, structs, tables);
        return Err(
            err(
                line,
                s3("不能直接打印 map '", l.as_str(), "'（请打印具体键值，如 `has(m, \"x\")、`len(m) 或逐一 `m[k]）"),
            ),
        );
    }
    Ok(())
}

/// 返回语句
#[verifier::spinoff_prover]
fn check_return(
    e: &Option<Expr>,
    line: usize,
    scope: &mut Scope,
    funcs: &FuncTable,
    structs: &[StructDef],
    tables: &TypeTables,
    in_fn: bool,
    fn_ret: Ty,
) -> (r: Result<(), CheckError>)
    requires
        arrs_ok(tables@),
    ensures
        unit_ok(
            r,
            sv_of(*final(scope)),
            spec_return(
                match e {
                    Some(x) => Some(x@),
                    None => None,
                },
                line,
                sv_of(*old(scope)),
                env_of(*funcs, structs@, tables@),
                in_fn,
                fn_ret,
            ),
        ),
{
    if !in_fn {
        return Err(err(line, String::from_str("r/ 返回只能出现在函数体内")));
    }
    let expr = match e {
        Some(x) => x,
        None => {
            return Ok(());
        },
    };
    let t = check_expr(expr, scope, funcs, structs, tables, line)?;
    if t == Ty::BorrowStr {
        return Err(
            err(line, String::from_str("借用不能逃逸函数（&str 形参不可返回；需要所有权请用 copy() 产生新所有者）")),
        );
    }
    let container = fn_ret.is_darr() || fn_ret.is_map();
    if container {
        if let Expr::Var(n) = expr {
            assert(expr@ == SExpr::Var(n@));
            if let Some(v) = scope.get(n.as_str()) {
                if v.is_borrow {
                    return Err(
                        err(
                            line,
                            String::from_str("借用 &[]T/&map 不可逃逸函数（借用形参不可返回；需要所有权请让调用方持有）"),
                        ),
                    );
                }
            }
        }
    }
    if container && !matches!(expr, Expr::Var(_) | Expr::Call { .. }) {
        return Err(err(line, String::from_str("动态数组/map 返回值只能是变量或函数调用（字面量请先赋给变量）")));
    }
    if !value_assignable(fn_ret, t, expr) {
        let lt = ty_label(t, structs, tables);
        let lr = ty_label(fn_ret, structs, tables);
        return Err(err(line, s5("r/ 返回值类型 ", lt.as_str(), " 与声明的返回类型 ", lr.as_str(), " 不符")));
    }
    if is_owned(fn_ret) {
        if matches!(expr, Expr::Field(..)) {
            return Err(err(line, String::from_str("不能把结构体字段移出作为返回值（请用 copy(p.x) 返回副本）")));
        }
        mark_top_move(expr, scope);
    }
    Ok(())
}

/// push / pop / del 的目标变量
fn target_var<'a>(e: &'a Expr) -> (r: Option<&'a String>)
    ensures
        match r {
            Some(n) => e@ == SExpr::Var(n@),
            None => !(e@ is Var),
        },
{
    match e {
        Expr::Var(n) => Some(n),
        _ => None,
    }
}

/// 语句级表达式
#[verifier::spinoff_prover]
#[verifier::rlimit(80)]
fn check_stmt_expr(
    e: &Expr,
    line: usize,
    scope: &mut Scope,
    funcs: &FuncTable,
    structs: &[StructDef],
    tables: &TypeTables,
) -> (r: Result<(), CheckError>)
    requires
        arrs_ok(tables@),
    ensures
        unit_ok(r, sv_of(*final(scope)), spec_stmt_expr(e@, line, sv_of(*old(scope)), env_of(*funcs, structs@, tables@))),
{
    match e {
        Expr::Call { .. } => {
            check_expr(e, scope, funcs, structs, tables, line)?;
            Ok(())
        },
        Expr::Push { arr, value } => {
            assert(e@ == SExpr::Push { arr: Box::new((**arr)@), value: Box::new((**value)@) });
            let bn = match target_var(arr) {
                Some(n) => n,
                None => {
                    return Err(err(line, String::from_str("push 的实参必须是动态数组变量")));
                },
            };
            let info = match scope.get(bn.as_str()) {
                Some(v) => v,
                None => {
                    return Err(err(line, s3("变量 '", bn.as_str(), "' 未声明")));
                },
            };
            if info.is_borrow {
                return Err(err(line, s3("变量 '", bn.as_str(), "' 是借用 &[]T（只读视图），不能 push")));
            }
            if !info.mutable && !info.is_param {
                return Err(err(line, s3("变量 '", bn.as_str(), "' 是只读的（/ 声明），不能 push")));
            }
            let d = match darr_by_id(tables.darrs.as_slice(), info.ty) {
                Some(d) => *d,
                None => {
                    let l = ty_label(info.ty, structs, tables);
                    return Err(err(line, s3("类型 ", l.as_str(), " 不能 push（只有动态数组可以）")));
                },
            };
            let vt = check_expr(value, scope, funcs, structs, tables, line)?;
            if !value_assignable(d.elem, vt, value) {
                let l = ty_label(vt, structs, tables);
                let mut msg = s3("push 元素期望 ", d.elem.label(), "，实际 ");
                msg.append(l.as_str());
                return Err(err(line, msg));
            }
            if d.elem == Ty::Str {
                mark_top_move(value, scope);
            }
            Ok(())
        },
        Expr::Pop { arr } => {
            assert(e@ == SExpr::Pop { arr: Box::new((**arr)@) });
            let bn = match target_var(arr) {
                Some(n) => n,
                None => {
                    return Err(err(line, String::from_str("pop 的实参必须是动态数组变量")));
                },
            };
            let info = match scope.get(bn.as_str()) {
                Some(v) => v,
                None => {
                    return Err(err(line, s3("变量 '", bn.as_str(), "' 未声明")));
                },
            };
            if info.is_borrow {
                return Err(err(line, s3("变量 '", bn.as_str(), "' 是借用 &[]T（只读视图），不能 pop")));
            }
            if !info.mutable && !info.is_param {
                return Err(err(line, s3("变量 '", bn.as_str(), "' 是只读的（/ 声明），不能 pop")));
            }
            if darr_by_id(tables.darrs.as_slice(), info.ty).is_none() {
                let l = ty_label(info.ty, structs, tables);
                return Err(err(line, s3("类型 ", l.as_str(), " 不能 pop（只有动态数组可以）")));
            }
            Ok(())
        },
        Expr::Del { map, key } => {
            assert(e@ == SExpr::Del { map: Box::new((**map)@), key: Box::new((**key)@) });
            let bn = match target_var(map) {
                Some(n) => n,
                None => {
                    return Err(err(line, String::from_str("del 的第一个实参必须是 map 变量")));
                },
            };
            let info = match scope.get(bn.as_str()) {
                Some(v) => v,
                None => {
                    return Err(err(line, s3("变量 '", bn.as_str(), "' 未声明")));
                },
            };
            if info.is_borrow {
                return Err(err(line, s3("变量 '", bn.as_str(), "' 是借用 &map[..]（只读视图），不能 del")));
            }
            let m = match map_by_id(tables.maps.as_slice(), info.ty) {
                Some(m) => *m,
                None => {
                    let l = ty_label(info.ty, structs, tables);
                    return Err(err(line, s3("类型 ", l.as_str(), " 不能 del（只有 map 可以）")));
                },
            };
            let kt = check_expr(key, scope, funcs, structs, tables, line)?;
            if !value_assignable(m.key, kt, key) {
                let l = ty_label(kt, structs, tables);
                let mut msg = s3("del 键期望 ", m.key.label(), "，实际 ");
                msg.append(l.as_str());
                return Err(err(line, msg));
            }
            Ok(())
        },
        _ => Err(err(line, String::from_str("语句级表达式只能是函数调用、push、pop 或 del"))),
    }
}

/// 条件表达式必须是 bool
fn check_cond(
    cond: &Expr,
    what: &str,
    line: usize,
    scope: &mut Scope,
    funcs: &FuncTable,
    structs: &[StructDef],
    tables: &TypeTables,
) -> (r: Result<(), CheckError>)
    requires
        arrs_ok(tables@),
    ensures
        unit_ok(r, sv_of(*final(scope)), spec_cond(cond@, what@, line, sv_of(*old(scope)), env_of(*funcs, structs@, tables@))),
{
    let ct = check_expr(cond, scope, funcs, structs, tables, line)?;
    if ct != Ty::Bool {
        let l = ty_label(ct, structs, tables);
        return Err(err(line, s3(what, " 条件必须是 bool，实际 ", l.as_str())));
    }
    Ok(())
}

/// 消息表达式必须是 str
fn check_msg(
    msg: &Expr,
    what: &str,
    line: usize,
    scope: &mut Scope,
    funcs: &FuncTable,
    structs: &[StructDef],
    tables: &TypeTables,
) -> (r: Result<(), CheckError>)
    requires
        arrs_ok(tables@),
    ensures
        unit_ok(r, sv_of(*final(scope)), spec_msg(msg@, what@, line, sv_of(*old(scope)), env_of(*funcs, structs@, tables@))),
{
    let t = check_expr(msg, scope, funcs, structs, tables, line)?;
    if t != Ty::Str {
        let l = ty_label(t, structs, tables);
        return Err(err(line, s3(what, " 消息必须是 str，实际 ", l.as_str())));
    }
    Ok(())
}

/// 块作用域：检查语句块，结束后恢复块前的作用域（块内被移动的外层变量保持已移动）
fn check_scoped_block(
    stmts: &Vec<Stmt>,
    scope: &mut Scope,
    funcs: &FuncTable,
    structs: &[StructDef],
    tables: &TypeTables,
    in_fn: bool,
    fn_ret: Ty,
    in_loop: bool,
) -> (r: Result<(), CheckError>)
    requires
        arrs_ok(tables@),
    ensures
        unit_ok(
            r,
            sv_of(*final(scope)),
            block_scope(
                sv_of(*old(scope)),
                spec_check_block(stmts_view(stmts@), 0, sv_of(*old(scope)), env_of(*funcs, structs@, tables@), in_fn, fn_ret, in_loop),
            ),
        ),
    decreases stmts, 1int,
{
    let snap = scope.duplicate();
    check_block(stmts, scope, funcs, structs, tables, in_fn, fn_ret, in_loop)?;
    let restored = snap.restore_from(&*scope);
    *scope = restored;
    Ok(())
}

/// 语句检查（带移动追踪）
#[verifier::spinoff_prover]
#[verifier::rlimit(60)]
fn check_stmt(
    s: &Stmt,
    scope: &mut Scope,
    funcs: &FuncTable,
    structs: &[StructDef],
    tables: &TypeTables,
    in_fn: bool,
    fn_ret: Ty,
    in_loop: bool,
) -> (r: Result<(), CheckError>)
    requires
        arrs_ok(tables@),
    ensures
        unit_ok(
            r,
            sv_of(*final(scope)),
            spec_check_stmt(s@, sv_of(*old(scope)), env_of(*funcs, structs@, tables@), in_fn, fn_ret, in_loop),
        ),
        r is Err && stmt_err_keeps_scope(s@, sv_of(*old(scope))) ==> sv_of(*final(scope)) == sv_of(*old(scope)),
    decreases s, 2int,
{
    match s {
        Stmt::Decl { mutable, name, ty, value, line } => check_decl(
            *mutable,
            name,
            *ty,
            value,
            *line,
            scope,
            funcs,
            structs,
            tables,
        ),
        Stmt::MultiDecl { mutable, names, value, line } => check_multi_decl(
            *mutable,
            names,
            value,
            *line,
            scope,
            funcs,
            structs,
            tables,
        ),
        Stmt::Assign { target, value, line } => check_assign(target, value, *line, scope, funcs, structs, tables),
        Stmt::Print(e, line) => check_print(e, *line, scope, funcs, structs, tables),
        Stmt::While { cond, body, line } => {
            check_cond(cond, "while", *line, scope, funcs, structs, tables)?;
            check_scoped_block(body, scope, funcs, structs, tables, in_fn, fn_ret, true)
        },
        Stmt::If { cond, body, else_body, line } => {
            check_cond(cond, "if", *line, scope, funcs, structs, tables)?;
            check_scoped_block(body, scope, funcs, structs, tables, in_fn, fn_ret, in_loop)?;
            match else_body {
                Some(eb) => check_scoped_block(eb, scope, funcs, structs, tables, in_fn, fn_ret, in_loop),
                None => Ok(()),
            }
        },
        Stmt::Return(e, line) => check_return(e, *line, scope, funcs, structs, tables, in_fn, fn_ret),
        Stmt::Panic(m, line) => check_msg(m, "panic", *line, scope, funcs, structs, tables),
        Stmt::Check(c, m, line) => {
            check_cond(c, "check", *line, scope, funcs, structs, tables)?;
            check_msg(m, "check", *line, scope, funcs, structs, tables)
        },
        Stmt::Break(line) => {
            if !in_loop {
                return Err(err(*line, String::from_str("break 只能出现在 w/ 循环体内")));
            }
            Ok(())
        },
        Stmt::Continue(line) => {
            if !in_loop {
                return Err(err(*line, String::from_str("continue 只能出现在 w/ 循环体内")));
            }
            Ok(())
        },
        Stmt::Expr(e, line) => check_stmt_expr(e, *line, scope, funcs, structs, tables),
    }
}

/// 依次检查语句
fn check_block(
    stmts: &Vec<Stmt>,
    scope: &mut Scope,
    funcs: &FuncTable,
    structs: &[StructDef],
    tables: &TypeTables,
    in_fn: bool,
    fn_ret: Ty,
    in_loop: bool,
) -> (r: Result<(), CheckError>)
    requires
        arrs_ok(tables@),
    ensures
        unit_ok(
            r,
            sv_of(*final(scope)),
            spec_check_block(stmts_view(stmts@), 0, sv_of(*old(scope)), env_of(*funcs, structs@, tables@), in_fn, fn_ret, in_loop),
        ),
    decreases stmts, 0int,
{
    let ghost env = env_of(*funcs, structs@, tables@);
    let ghost v = stmts_view(stmts@);
    let ghost goal = spec_check_block(v, 0, sv_of(*scope), env, in_fn, fn_ret, in_loop);
    let mut i: usize = 0;
    while i < stmts.len()
        invariant
            i <= stmts@.len(),
            v == stmts_view(stmts@),
            env == env_of(*funcs, structs@, tables@),
            arrs_ok(tables@),
            goal == spec_check_block(v, 0, sv_of(*old(scope)), env, in_fn, fn_ret, in_loop),
            goal == spec_check_block(v, i as int, sv_of(*scope), env, in_fn, fn_ret, in_loop),
        decreases stmts@.len() - i,
    {
        proof {
            assert(v[i as int] == stmts@[i as int]@);
        }
        check_stmt(&stmts[i], scope, funcs, structs, tables, in_fn, fn_ret, in_loop)?;
        i = i + 1;
    }
    Ok(())
}


// ───────────────────────── 程序检查（执行代码） ─────────────────────────

/// 由形参构成的初始作用域
fn param_scope_of(ps: &Vec<Param>) -> (r: Scope)
    ensures
        sv_of(r) == param_scope(params_view(ps@)),
{
    let ghost pv = params_view(ps@);
    let mut sc = Scope::new();
    assert(pv.take(0) =~= Seq::<(Seq<char>, Option<Ty>, bool)>::empty());
    let mut i: usize = 0;
    while i < ps.len()
        invariant
            i <= ps@.len(),
            pv == params_view(ps@),
            sv_of(sc) == param_scope(pv.take(i as int)),
        decreases ps@.len() - i,
    {
        let t = match ps[i].ty {
            Some(t) => t,
            None => Ty::I64,
        };
        let v = VarInfo::new_param(t, ps[i].borrow);
        assert(v == param_var(pv[i as int]));
        sc.insert(ps[i].name.clone(), v);
        assert(pv.take(i + 1).drop_last() =~= pv.take(i as int));
        i = i + 1;
    }
    assert(pv.take(ps@.len() as int) =~= pv);
    sc
}

/// 一个语义锚点
#[verifier::spinoff_prover]
#[verifier::rlimit(60)]
fn check_contract(
    c: &Contract,
    fname: &str,
    base: &Scope,
    funcs: &FuncTable,
    structs: &[StructDef],
    tables: &TypeTables,
    ret: Ty,
) -> (r: Result<(), CheckError>)
    requires
        arrs_ok(tables@),
    ensures
        match spec_contract(c@, fname@, sv_of(*base), env_of(*funcs, structs@, tables@), ret) {
            Ok(_) => r is Ok,
            Err(x) => r is Err && ce_is(r->Err_0, x),
        },
{
    match c {
        Contract::Pre(e, line) => {
            let mut cs = base.duplicate();
            let t = check_expr(e, &mut cs, funcs, structs, tables, *line)?;
            if t != Ty::Bool {
                let l = ty_label(t, structs, tables);
                return Err(err(*line, s2("@pre 必须是 bool 表达式，实际 ", l.as_str())));
            }
            Ok(())
        },
        Contract::Post(e, line) => {
            if ret.is_tuple() {
                return Err(err(*line, String::from_str("@post 不支持元组返回值（元组不可比较/不可访问单个元素）")));
            }
            let mut cs = base.duplicate();
            cs.insert(String::from_str("ret"), VarInfo::new(ret, false));
            let t = check_expr(e, &mut cs, funcs, structs, tables, *line)?;
            if t != Ty::Bool {
                let l = ty_label(t, structs, tables);
                return Err(err(*line, s2("@post 必须是 bool 表达式，实际 ", l.as_str())));
            }
            if ret.is_struct() {
                if let Expr::Bin { op, lhs, rhs } = e {
                    assert(e@ == SExpr::Bin { op: *op, lhs: Box::new((**lhs)@), rhs: Box::new((**rhs)@) });
                    if let Expr::Var(n) = &**lhs {
                        assert((**lhs)@ == SExpr::Var(n@));
                        if str_eq(n.as_str(), "ret") {
                            return Err(err(*line, String::from_str("结构体不能用 ==/!= 比较（请比较字段，如 ret.x == 1）")));
                        }
                    }
                }
            }
            Ok(())
        },
        Contract::Example { call, expected, line } => {
            let own = match call {
                Expr::Call { name, .. } => str_eq(name.as_str(), fname),
                _ => false,
            };
            if !own {
                return Err(err(*line, String::from_str("@example 必须调用本函数自身（自测样例）")));
            }
            let mut cs = base.duplicate();
            let ct = check_expr(call, &mut cs, funcs, structs, tables, *line)?;
            let et = check_expr(expected, &mut cs, funcs, structs, tables, *line)?;
            if ct != ret {
                let lc = ty_label(ct, structs, tables);
                let lr = ty_label(ret, structs, tables);
                return Err(err(*line, s5("@example 调用返回类型 ", lc.as_str(), " 与函数返回类型 ", lr.as_str(), " 不符")));
            }
            if et != ret {
                let le = ty_label(et, structs, tables);
                let lr = ty_label(ret, structs, tables);
                return Err(err(*line, s5("@example 期望值类型 ", le.as_str(), " 与返回类型 ", lr.as_str(), " 不符")));
            }
            if ret.is_struct() {
                return Err(err(*line, String::from_str("结构体返回值不能用 @example 直接比对（请为返回字段的函数写样例）")));
            }
            Ok(())
        },
    }
}

/// 语义锚点：@pre/@post 必须是 bool 表达式（@post 中 ret 指返回值）；@example 必须调用本函数自身，
/// 且调用与期望值的类型与返回类型一致。锚点表达式只能引用函数形参。
fn check_contracts(
    f: &FnDef,
    funcs: &FuncTable,
    structs: &[StructDef],
    tables: &TypeTables,
    ret: Ty,
) -> (r: Result<(), CheckError>)
    requires
        arrs_ok(tables@),
    ensures
        match spec_contracts(
            contracts_view(f.contracts@),
            0,
            f.name@,
            param_scope(params_view(f.params@)),
            env_of(*funcs, structs@, tables@),
            ret,
        ) {
            Ok(_) => r is Ok,
            Err(x) => r is Err && ce_is(r->Err_0, x),
        },
{
    let base = param_scope_of(&f.params);
    let ghost cv = contracts_view(f.contracts@);
    let mut k: usize = 0;
    while k < f.contracts.len()
        invariant
            k <= f.contracts@.len(),
            cv == contracts_view(f.contracts@),
            sv_of(base) == param_scope(params_view(f.params@)),
            arrs_ok(tables@),
            spec_contracts(cv, 0, f.name@, sv_of(base), env_of(*funcs, structs@, tables@), ret)
                == spec_contracts(cv, k as int, f.name@, sv_of(base), env_of(*funcs, structs@, tables@), ret),
        decreases f.contracts@.len() - k,
    {
        check_contract(&f.contracts[k], f.name.as_str(), &base, funcs, structs, tables, ret)?;
        k = k + 1;
    }
    Ok(())
}

/// 函数签名
fn build_sig(f: &FnDef) -> (r: FuncSig)
    ensures
        fsig_view(r) == spec_fn_sig(f@),
{
    let ghost pv = params_view(f.params@);
    let mut params: Vec<Ty> = Vec::new();
    let mut borrows: Vec<bool> = Vec::new();
    let mut i: usize = 0;
    while i < f.params.len()
        invariant
            i <= f.params@.len(),
            pv == params_view(f.params@),
            params@ == pv.map_values(|p: (Seq<char>, Option<Ty>, bool)| ty_or_i64(p.1)).take(i as int),
            borrows@ == pv.map_values(
                |p: (Seq<char>, Option<Ty>, bool)| p.2 && (p.1 matches Some(t) && (t is DArr || t is MapOf)),
            ).take(i as int),
        decreases f.params@.len() - i,
    {
        let p = &f.params[i];
        let t = match p.ty {
            Some(t) => t,
            None => Ty::I64,
        };
        let b = p.borrow && match p.ty {
            Some(t) => t.is_darr() || t.is_map(),
            None => false,
        };
        params.push(t);
        borrows.push(b);
        proof {
            let pm = pv.map_values(|p: (Seq<char>, Option<Ty>, bool)| ty_or_i64(p.1));
            let bm = pv.map_values(
                |p: (Seq<char>, Option<Ty>, bool)| p.2 && (p.1 matches Some(t) && (t is DArr || t is MapOf)),
            );
            assert(pv[i as int] == f.params@[i as int]@);
            assert(pm.take(i + 1) =~= pm.take(i as int).push(pm[i as int]));
            assert(bm.take(i + 1) =~= bm.take(i as int).push(bm[i as int]));
        }
        i = i + 1;
    }
    let ret = match f.ret {
        Some(t) => t,
        None => Ty::I64,
    };
    let r = FuncSig { params, borrows, ret };
    proof {
        assert(pv.map_values(|p: (Seq<char>, Option<Ty>, bool)| ty_or_i64(p.1)).take(pv.len() as int)
            =~= pv.map_values(|p: (Seq<char>, Option<Ty>, bool)| ty_or_i64(p.1)));
        assert(pv.map_values(
            |p: (Seq<char>, Option<Ty>, bool)| p.2 && (p.1 matches Some(t) && (t is DArr || t is MapOf)),
        ).take(pv.len() as int) =~= pv.map_values(
            |p: (Seq<char>, Option<Ty>, bool)| p.2 && (p.1 matches Some(t) && (t is DArr || t is MapOf)),
        ));
    }
    r
}

/// 第一个与前面同名的形参
fn first_dup(ps: &Vec<Param>) -> (r: Option<&String>)
    ensures
        match r {
            Some(n) => first_dup_param(params_view(ps@), 0) == Some(n@),
            None => first_dup_param(params_view(ps@), 0) is None,
        },
{
    let ghost pv = params_view(ps@);
    let mut j: usize = 0;
    while j < ps.len()
        invariant
            j <= ps@.len(),
            pv == params_view(ps@),
            first_dup_param(pv, 0) == first_dup_param(pv, j as int),
        decreases ps@.len() - j,
    {
        let mut k: usize = 0;
        while k < j
            invariant
                k <= j < ps@.len(),
                pv == params_view(ps@),
                first_dup_param(pv, 0) == first_dup_param(pv, j as int),
                forall|q: int| 0 <= q < k ==> pv[q].0 != pv[j as int].0,
            decreases j - k,
        {
            assert(pv[k as int] == ps@[k as int]@);
            assert(pv[j as int] == ps@[j as int]@);
            if str_eq(ps[k].name.as_str(), ps[j].name.as_str()) {
                assert(pv[k as int].0 == pv[j as int].0);
                assert(exists|q: int| 0 <= q < j && pv[q].0 == pv[j as int].0);
                assert(first_dup_param(pv, j as int) == Some(pv[j as int].0));
                return Some(&ps[j].name);
            }
            k = k + 1;
        }
        j = j + 1;
    }
    None
}

/// 登记函数表
fn build_funcs(fs: &Vec<FnDef>) -> (r: Result<FuncTable, CheckError>)
    ensures
        match spec_build_funcs(fns_view(fs@), 0, Map::empty(), seq![]) {
            Ok((m, names)) => r is Ok && r->Ok_0.view() == m && r->Ok_0.names() == names,
            Err(x) => r is Err && ce_is(r->Err_0, x),
        },
{
    let ghost fv = fns_view(fs@);
    let mut table = FuncTable::new();
    let mut i: usize = 0;
    while i < fs.len()
        invariant
            i <= fs@.len(),
            fv == fns_view(fs@),
            spec_build_funcs(fv, 0, Map::empty(), seq![]) == spec_build_funcs(fv, i as int, table.view(), table.names()),
        decreases fs@.len() - i,
    {
        let f = &fs[i];
        assert(fv[i as int] == f@);
        if table.get(f.name.as_str()).is_some() {
            return Err(err(0, s3("函数 '", f.name.as_str(), "' 重复定义")));
        }
        if f.ret == Some(Ty::BorrowStr) {
            return Err(err(0, s3("函数 '", f.name.as_str(), "' 的返回类型不能是借用 &str")));
        }
        if let Some(t) = f.ret {
            if t.is_arr() {
                return Err(err(0, s3("函数 '", f.name.as_str(), "' 的返回类型不能是数组")));
            }
        }
        if let Some(pn) = first_dup(&f.params) {
            return Err(err(0, s5("函数 '", f.name.as_str(), "' 参数 '", pn.as_str(), "' 重复")));
        }
        let sig = build_sig(f);
        table.insert(f.name.clone(), sig);
        i = i + 1;
    }
    Ok(table)
}

/// 结构体声明：至少一个字段，字段不能是借用、数组或 map
fn check_struct_decls(ss: &Vec<StructDef>) -> (r: Result<(), CheckError>)
    ensures
        match spec_struct_decls(ss@, 0) {
            Ok(_) => r is Ok,
            Err(x) => r is Err && ce_is(r->Err_0, x),
        },
{
    let mut i: usize = 0;
    while i < ss.len()
        invariant
            i <= ss@.len(),
            spec_struct_decls(ss@, 0) == spec_struct_decls(ss@, i as int),
        decreases ss@.len() - i,
    {
        let sd = &ss[i];
        if sd.fields.len() == 0 {
            return Err(err(sd.line, s3("结构体 '", sd.name.as_str(), "' 至少需要一个字段")));
        }
        let mut j: usize = 0;
        while j < sd.fields.len()
            invariant
                i < ss@.len(),
                j <= sd.fields@.len(),
                sd == &ss@[i as int],
                sd.fields@.len() > 0,
                spec_struct_decls(ss@, 0) == spec_struct_decls(ss@, i as int),
                spec_struct_fields(*sd, 0) == spec_struct_fields(*sd, j as int),
            decreases sd.fields@.len() - j,
        {
            let f = &sd.fields[j];
            if f.ty == Ty::BorrowStr {
                return Err(
                    err(
                        f.line,
                        s5("结构体 '", sd.name.as_str(), "' 的字段 '", f.name.as_str(), "' 不能是借用 &str（借用不可存储在结构体中）"),
                    ),
                );
            }
            if f.ty.is_arr() || f.ty.is_darr() {
                return Err(
                    err(f.line, s5("结构体 '", sd.name.as_str(), "' 的字段 '", f.name.as_str(), "' 不能是数组类型（v3.3 暂不支持）")),
                );
            }
            if f.ty.is_map() {
                return Err(
                    err(
                        f.line,
                        s5("结构体 '", sd.name.as_str(), "' 的字段 '", f.name.as_str(), "' 不能是 map 类型（v4.7 暂不支持嵌套容器）"),
                    ),
                );
            }
            j = j + 1;
        }
        i = i + 1;
    }
    Ok(())
}


/// 各函数体：作用域仅含自身形参（函数不可访问顶层变量），随后检查语义锚点
fn check_fn_bodies(
    fs: &Vec<FnDef>,
    funcs: &FuncTable,
    structs: &[StructDef],
    tables: &TypeTables,
) -> (r: Result<(), CheckError>)
    requires
        arrs_ok(tables@),
    ensures
        match spec_fn_bodies(fns_view(fs@), 0, env_of(*funcs, structs@, tables@)) {
            Ok(_) => r is Ok,
            Err(x) => r is Err && ce_is(r->Err_0, x),
        },
{
    let ghost fv = fns_view(fs@);
    let ghost env = env_of(*funcs, structs@, tables@);
    let mut i: usize = 0;
    while i < fs.len()
        invariant
            i <= fs@.len(),
            fv == fns_view(fs@),
            env == env_of(*funcs, structs@, tables@),
            arrs_ok(tables@),
            spec_fn_bodies(fv, 0, env) == spec_fn_bodies(fv, i as int, env),
        decreases fs@.len() - i,
    {
        let f = &fs[i];
        assert(fv[i as int] == f@);
        let ret = match f.ret {
            Some(t) => t,
            None => Ty::I64,
        };
        let mut scope = param_scope_of(&f.params);
        check_block(&f.body, &mut scope, funcs, structs, tables, true, ret, false)?;
        check_contracts(f, funcs, structs, tables, ret)?;
        i = i + 1;
    }
    Ok(())
}

/// 校验整个程序：函数表（重复定义、返回类型、形参重名）、结构体声明、
/// 顶层语句（全局作用域，不允许 r/）、各函数体与语义锚点；返回第一个错误
pub fn check(prog: &Program) -> (r: Result<(), CheckError>)
    requires
        forall|i: int| 0 <= i < prog.arrs@.len() ==> (#[trigger] prog.arrs@[i]).len >= 1,
    ensures
        match spec_check(*prog) {
            Ok(_) => r is Ok,
            Err(x) => r is Err && ce_is(r->Err_0, x),
        },
{
    let mut tables = TypeTables::new();
    tables.set_arrs(prog.arrs.as_slice());
    tables.set_darrs(prog.darrs.as_slice());
    tables.set_tuples(prog.tuples.as_slice());
    tables.set_maps(prog.maps.as_slice());
    assert(tables@ == prog_tb(*prog));
    let funcs = build_funcs(&prog.funcs)?;
    check_struct_decls(&prog.structs)?;
    let mut top = Scope::new();
    assert(sv_of(top) == (Map::<Seq<char>, VarInfo>::empty(), Seq::<Seq<char>>::empty()));
    check_block(&prog.top, &mut top, &funcs, prog.structs.as_slice(), &tables, false, Ty::I64, false)?;
    check_fn_bodies(&prog.funcs, &funcs, prog.structs.as_slice(), &tables)?;
    Ok(())
}

} // verus!
