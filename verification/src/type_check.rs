//! 类型检查的共用规则：诊断候选名、变量信息、类型表、类型标签、
//! 兼容性与 sel 分支统一规则。

use vstd::prelude::*;
use crate::ast::{
    Ty, StructDef, StructView, FieldDef, ArrDef, DArrDef, TupleDef, MapDef, Expr, spec_label,
};
use crate::text::{str_eq, chars_of, string_of_all, push_decimal, push_str_chars, radix_text, is_digit};
use crate::ast::{SExpr, BinOp, spec_binop_str};
use crate::lexer::decimal_value;
use crate::parser::{index_from, msg_nn, cat_nn};
use crate::ast::{exprs_view, Stmt, SStmt, stmts_view, strs_view};
use vstd::string::StringExecFns;

verus! {

#[derive(Debug)]
pub struct CheckError {
    pub msg: String,
    pub line: usize,
    /// 差分诊断：修复提示（“怎么改”）
    pub hint: String,
    /// 差分诊断：候选名（“可能你想写的是”）
    pub candidates: Vec<String>,
}

/// 候选名以 " / " 连接
pub open spec fn join_names(c: Seq<Seq<char>>) -> Seq<char>
    decreases c.len(),
{
    if c.len() == 0 {
        seq![]
    } else if c.len() == 1 {
        c[0]
    } else {
        join_names(c.drop_last()) + " / "@ + c.last()
    }
}

/// 检查错误的显示文本：行号与消息，有提示时附提示，有候选名时附候选名
pub open spec fn spec_check_error_display(line: usize, msg: Seq<char>, hint: Seq<char>, c: Seq<Seq<char>>) -> Seq<
    char,
> {
    "编译错误（第 "@ + radix_text(line as nat, 10) + " 行）："@ + msg + (if hint.len() > 0 {
        "；提示："@ + hint
    } else {
        seq![]
    }) + (if c.len() > 0 {
        "；候选："@ + join_names(c)
    } else {
        seq![]
    })
}

impl CheckError {
    pub fn display(&self) -> (r: String)
        ensures
            r@ == spec_check_error_display(self.line, self.msg@, self.hint@, strings_view(self.candidates@)),
    {
        let ghost c = strings_view(self.candidates@);
        let mut v: Vec<char> = Vec::new();
        push_str_chars("编译错误（第 ", &mut v);
        push_decimal(self.line as u64, &mut v);
        push_str_chars(" 行）：", &mut v);
        push_str_chars(self.msg.as_str(), &mut v);
        if self.hint.as_str().unicode_len() > 0 {
            push_str_chars("；提示：", &mut v);
            push_str_chars(self.hint.as_str(), &mut v);
        }
        let ghost head = v@;
        if self.candidates.len() > 0 {
            push_str_chars("；候选：", &mut v);
            let ghost mid = v@;
            let mut i: usize = 0;
            while i < self.candidates.len()
                invariant
                    i <= self.candidates@.len(),
                    self.candidates@.len() > 0,
                    c == strings_view(self.candidates@),
                    v@ == mid + join_names(c.take(i as int)),
                decreases self.candidates@.len() - i,
            {
                if i > 0 {
                    push_str_chars(" / ", &mut v);
                }
                push_str_chars(self.candidates[i].as_str(), &mut v);
                proof {
                    assert(c.take(i + 1).drop_last() =~= c.take(i as int));
                    assert(c[i as int] == self.candidates@[i as int]@);
                }
                i = i + 1;
            }
            assert(c.take(self.candidates@.len() as int) =~= c);
        }
        string_of_all(&v)
    }
}

/// 无提示、无候选的错误
pub fn err(line: usize, msg: String) -> (r: CheckError)
    ensures
        r.msg@ == msg@,
        r.line == line,
        r.hint@ == Seq::<char>::empty(),
        r.candidates@.len() == 0,
        strings_view(r.candidates@) == Seq::<Seq<char>>::empty(),
{
    let r = CheckError { msg, line, hint: String::new(), candidates: Vec::new() };
    assert(strings_view(r.candidates@) =~= Seq::<Seq<char>>::empty());
    r
}


// ───────────────────────── 编辑距离与候选名 ─────────────────────────

pub open spec fn min_nat(x: nat, y: nat) -> nat {
    if x <= y {
        x
    } else {
        y
    }
}

/// 编辑距离（插入、删除、替换各计 1）
pub open spec fn edit_distance(a: Seq<char>, b: Seq<char>) -> nat
    decreases a.len() + b.len(),
{
    if a.len() == 0 {
        b.len()
    } else if b.len() == 0 {
        a.len()
    } else {
        min_nat(
            min_nat(
                edit_distance(a.drop_last(), b) + 1,
                edit_distance(a, b.drop_last()) + 1,
            ),
            edit_distance(a.drop_last(), b.drop_last()) + if a.last() == b.last() {
                0nat
            } else {
                1nat
            },
        )
    }
}

proof fn lemma_edit_distance_bound(a: Seq<char>, b: Seq<char>)
    ensures
        edit_distance(a, b) <= if a.len() >= b.len() {
            a.len()
        } else {
            b.len()
        },
    decreases a.len() + b.len(),
{
    if a.len() > 0 && b.len() > 0 {
        lemma_edit_distance_bound(a.drop_last(), b.drop_last());
    }
}

/// 编辑距离（逐行动态规划）
fn levenshtein(a: &str, b: &str) -> (r: usize)
    ensures
        r == edit_distance(a@, b@),
{
    let a = chars_of(a);
    let b = chars_of(b);
    let n = a.len();
    let m = b.len();
    let mut prev: Vec<usize> = Vec::new();
    let mut cur: Vec<usize> = Vec::new();
    let mut j: usize = 0;
    while j < m
        invariant
            j <= m,
            m == b@.len(),
            prev@.len() == j,
            cur@.len() == j,
            forall|k: int| 0 <= k < j ==> prev@[k] == k,
        decreases m - j,
    {
        prev.push(j);
        cur.push(0);
        j = j + 1;
    }
    prev.push(m);
    cur.push(0);
    assert forall|k: int| 0 <= k <= m implies prev@[k] == edit_distance(a@.take(0), b@.take(k)) by {
        assert(a@.take(0).len() == 0);
        assert(b@.take(k).len() == k);
    }
    let mut i: usize = 1;
    while i <= n
        invariant
            1 <= i <= n + 1,
            n == a@.len(),
            m == b@.len(),
            n <= isize::MAX,
            m <= isize::MAX,
            prev@.len() == m + 1,
            cur@.len() == m + 1,
            forall|k: int| 0 <= k <= m ==> prev@[k] == edit_distance(a@.take(i - 1), b@.take(k)),
        decreases n + 1 - i,
    {
        proof {
            assert(b@.take(0).len() == 0);
            lemma_edit_distance_bound(a@.take(i as int), b@.take(0));
        }
        cur.set(0, i);
        let mut j: usize = 1;
        while j <= m
            invariant
                1 <= i <= n,
                1 <= j <= m + 1,
                n == a@.len(),
                m == b@.len(),
                n <= isize::MAX,
                m <= isize::MAX,
                prev@.len() == m + 1,
                cur@.len() == m + 1,
                forall|k: int| 0 <= k <= m ==> prev@[k] == edit_distance(a@.take(i - 1), b@.take(k)),
                forall|k: int| 0 <= k < j ==> cur@[k] == edit_distance(a@.take(i as int), b@.take(k)),
            decreases m + 1 - j,
        {
            let cost: usize = if a[i - 1] == b[j - 1] {
                0
            } else {
                1
            };
            proof {
                let ai = a@.take(i as int);
                let bj = b@.take(j as int);
                assert(ai.drop_last() =~= a@.take(i - 1));
                assert(bj.drop_last() =~= b@.take(j - 1));
                assert(ai.last() == a@[i - 1]);
                assert(bj.last() == b@[j - 1]);
                lemma_edit_distance_bound(a@.take(i - 1), bj);
                lemma_edit_distance_bound(ai, b@.take(j - 1));
                lemma_edit_distance_bound(a@.take(i - 1), b@.take(j - 1));
            }
            let x = prev[j] + 1;
            let y = cur[j - 1] + 1;
            let z = prev[j - 1] + cost;
            let xy = if x <= y {
                x
            } else {
                y
            };
            let v = if xy <= z {
                xy
            } else {
                z
            };
            cur.set(j, v);
            j = j + 1;
        }
        std::mem::swap(&mut prev, &mut cur);
        i = i + 1;
    }
    assert(a@.take(n as int) =~= a@);
    assert(b@.take(m as int) =~= b@);
    prev[m]
}

/// p 是否为 s 的前缀
pub open spec fn is_prefix(p: Seq<char>, s: Seq<char>) -> bool {
    p.len() <= s.len() && s.take(p.len() as int) == p
}

/// s 是否包含子串 t
pub open spec fn contains_sub(s: Seq<char>, t: Seq<char>) -> bool {
    exists|i: int| 0 <= i && i + t.len() <= s.len() && #[trigger] s.subrange(i, i + t.len()) == t
}

fn prefix_of(p: &Vec<char>, s: &Vec<char>) -> (r: bool)
    ensures
        r == is_prefix(p@, s@),
{
    if p.len() > s.len() {
        return false;
    }
    let mut i: usize = 0;
    while i < p.len()
        invariant
            p@.len() <= s@.len(),
            i <= p@.len(),
            forall|k: int| 0 <= k < i ==> s@[k] == p@[k],
        decreases p@.len() - i,
    {
        if p[i] != s[i] {
            proof {
                if is_prefix(p@, s@) {
                    assert(s@.take(p@.len() as int)[i as int] == s@[i as int]);
                }
            }
            return false;
        }
        i = i + 1;
    }
    assert(s@.take(p@.len() as int) =~= p@);
    true
}

fn contains_chars(s: &Vec<char>, t: &Vec<char>) -> (r: bool)
    requires
        s@.len() <= isize::MAX,
    ensures
        r == contains_sub(s@, t@),
{
    if t.len() > s.len() {
        return false;
    }
    let last = s.len() - t.len();
    let mut i: usize = 0;
    while i <= last
        invariant
            last == s@.len() - t@.len(),
            t@.len() <= s@.len(),
            s@.len() <= isize::MAX,
            i <= last + 1,
            forall|k: int| 0 <= k < i ==> #[trigger] s@.subrange(k, k + t@.len()) != t@,
        decreases last + 1 - i,
    {
        let mut j: usize = 0;
        let mut same = true;
        while j < t.len()
            invariant
                i <= last,
                s@.len() <= isize::MAX,
                last == s@.len() - t@.len(),
                t@.len() <= s@.len(),
                j <= t@.len(),
                same == (forall|k: int| 0 <= k < j ==> s@[i + k] == t@[k]),
            decreases t@.len() - j,
        {
            assert(i + j < s@.len());
            if s[i + j] != t[j] {
                same = false;
            }
            j = j + 1;
        }
        if same {
            assert(s@.subrange(i as int, i + t@.len()) =~= t@);
            return true;
        }
        proof {
            if s@.subrange(i as int, i + t@.len()) == t@ {
                let k = choose|k: int| 0 <= k < t@.len() && s@[i + k] != t@[k];
                assert(s@.subrange(i as int, i + t@.len())[k] == s@[i + k]);
            }
        }
        i = i + 1;
    }
    proof {
        if contains_sub(s@, t@) {
            let k = choose|k: int|
                0 <= k && k + t@.len() <= s@.len() && #[trigger] s@.subrange(k, k + t@.len()) == t@;
            assert(s@.subrange(k, k + t@.len()) != t@);
        }
    }
    false
}

/// 候选条件：不等于原名，且编辑距离不超过 2、互为前缀或包含原名
pub open spec fn is_candidate(name: Seq<char>, k: Seq<char>) -> bool {
    &&& k != name
    &&& edit_distance(name, k) <= 2 || is_prefix(name, k) || is_prefix(k, name) || contains_sub(
        k,
        name,
    )
}

/// 合格候选及其编辑距离，保持池中原顺序
pub open spec fn scored(name: Seq<char>, pool: Seq<Seq<char>>) -> Seq<(nat, Seq<char>)>
    decreases pool.len(),
{
    if pool.len() == 0 {
        seq![]
    } else {
        let rest = scored(name, pool.drop_last());
        let k = pool.last();
        if is_candidate(name, k) {
            rest.push((edit_distance(name, k), k))
        } else {
            rest
        }
    }
}

/// 稳定插入：x 放在所有键不大于它的元素之后
pub open spec fn insert_stable(s: Seq<(nat, Seq<char>)>, x: (nat, Seq<char>)) -> Seq<
    (nat, Seq<char>),
>
    decreases s.len(),
{
    if s.len() == 0 {
        seq![x]
    } else if s.last().0 <= x.0 {
        s.push(x)
    } else {
        insert_stable(s.drop_last(), x).push(s.last())
    }
}

/// 按键稳定排序（键相同者保持原顺序）
pub open spec fn sort_stable(s: Seq<(nat, Seq<char>)>) -> Seq<(nat, Seq<char>)>
    decreases s.len(),
{
    if s.len() == 0 {
        seq![]
    } else {
        insert_stable(sort_stable(s.drop_last()), s.last())
    }
}

/// `similar_candidates` 的结果：合格候选按编辑距离稳定排序后的前 3 个
pub open spec fn spec_similar_candidates(name: Seq<char>, pool: Seq<Seq<char>>) -> Seq<Seq<char>> {
    let sorted = sort_stable(scored(name, pool));
    let n = if sorted.len() < 3 {
        sorted.len()
    } else {
        3
    };
    sorted.take(n as int).map_values(|p: (nat, Seq<char>)| p.1)
}

pub open spec fn strings_view(v: Seq<String>) -> Seq<Seq<char>> {
    v.map_values(|s: String| s@)
}

/// 插入位置：从末尾起跳过键大于 x 的元素
proof fn lemma_insert_stable(s: Seq<(nat, Seq<char>)>, x: (nat, Seq<char>), p: int)
    requires
        0 <= p <= s.len(),
        forall|k: int| p <= k < s.len() ==> #[trigger] s[k].0 > x.0,
        p > 0 ==> s[p - 1].0 <= x.0,
    ensures
        insert_stable(s, x) == s.take(p) + seq![x] + s.skip(p),
    decreases s.len(),
{
    if s.len() == 0 {
        assert(s.take(p) + seq![x] + s.skip(p) =~= seq![x]);
    } else if s.last().0 <= x.0 {
        assert(p == s.len());
        assert(s.take(p) + seq![x] + s.skip(p) =~= s.push(x));
    } else {
        lemma_insert_stable(s.drop_last(), x, p);
        assert(s.drop_last().take(p) + seq![x] + s.drop_last().skip(p) + seq![s.last()]
            =~= s.take(p) + seq![x] + s.skip(p));
    }
}

/// 按编辑距离与前后缀相似度给出候选名（最多 3 个）
pub fn similar_candidates(name: &str, pool: &[String]) -> (r: Vec<String>)
    ensures
        strings_view(r@) == spec_similar_candidates(name@, strings_view(pool@)),
{
    let ghost pv = strings_view(pool@);
    let name_chars = chars_of(name);
    // 合格候选：(距离, 池下标)，保持原顺序
    let mut scored_v: Vec<(usize, usize)> = Vec::new();
    let mut i: usize = 0;
    while i < pool.len()
        invariant
            i <= pool@.len(),
            pv == strings_view(pool@),
            name_chars@ == name@,
            scored_v@.len() == scored(name@, pv.take(i as int)).len(),
            forall|k: int| #![trigger scored_v@[k]]
                 0 <= k < scored_v@.len() ==> scored_v@[k].1 < pool@.len() && (
                scored_v@[k].0 as nat, pool@[scored_v@[k].1 as int]@) == scored(
                    name@,
                    pv.take(i as int),
                )[k],
        decreases pool@.len() - i,
    {
        let k = pool[i].as_str();
        let kc = chars_of(k);
        proof {
            assert(pv.take(i + 1).drop_last() =~= pv.take(i as int));
            assert(pv.take(i + 1).last() == pool@[i as int]@);
        }
        let ok = !str_eq(k, name) && (levenshtein(name, k) <= 2 || prefix_of(&name_chars, &kc)
            || prefix_of(&kc, &name_chars) || contains_chars(&kc, &name_chars));
        if ok {
            let d = levenshtein(name, k);
            scored_v.push((d, i));
        }
        i = i + 1;
    }
    assert(pv.take(pool@.len() as int) =~= pv);
    let ghost sc = scored(name@, pv);
    // 稳定插入排序
    let mut sorted: Vec<(usize, usize)> = Vec::new();
    let mut t: usize = 0;
    while t < scored_v.len()
        invariant
            t <= scored_v@.len(),
            sc.len() == scored_v@.len(),
            forall|k: int| #![trigger scored_v@[k]]
                 0 <= k < scored_v@.len() ==> scored_v@[k].1 < pool@.len() && (
                scored_v@[k].0 as nat, pool@[scored_v@[k].1 as int]@) == sc[k],
            sorted@.len() == sort_stable(sc.take(t as int)).len(),
            forall|k: int| #![trigger sorted@[k]]
                 0 <= k < sorted@.len() ==> sorted@[k].1 < pool@.len() && (
                sorted@[k].0 as nat, pool@[sorted@[k].1 as int]@) == sort_stable(
                    sc.take(t as int),
                )[k],
        decreases scored_v@.len() - t,
    {
        let x = scored_v[t];
        let ghost ss = sort_stable(sc.take(t as int));
        let mut p = sorted.len();
        while p > 0 && sorted[p - 1].0 > x.0
            invariant
                p <= sorted@.len(),
                sorted@.len() == ss.len(),
                forall|k: int| #![trigger sorted@[k]]
                     0 <= k < sorted@.len() ==> sorted@[k].1 < pool@.len() && (
                    sorted@[k].0 as nat, pool@[sorted@[k].1 as int]@) == ss[k],
                forall|k: int| p <= k < ss.len() ==> #[trigger] ss[k].0 > x.0,
            decreases p,
        {
            p = p - 1;
        }
        proof {
            assert(sc.take(t + 1).drop_last() =~= sc.take(t as int));
            assert(sc.take(t + 1).last() == sc[t as int]);
            if p > 0 {
                assert(ss[p - 1].0 == sorted@[p - 1].0);
            }
            lemma_insert_stable(ss, sc[t as int], p as int);
        }
        let ghost old_sorted = sorted@;
        sorted.insert(p, x);
        proof {
            let ns = ss.take(p as int) + seq![sc[t as int]] + ss.skip(p as int);
            assert forall|k: int| #![trigger sorted@[k]] 0 <= k < sorted@.len() implies sorted@[k].1
                < pool@.len() && (sorted@[k].0 as nat, pool@[sorted@[k].1 as int]@) == ns[k] by {
                if k < p {
                    assert(sorted@[k] == old_sorted[k]);
                } else if k > p {
                    assert(sorted@[k] == old_sorted[k - 1]);
                }
            }
        }
        t = t + 1;
    }
    assert(sc.take(scored_v@.len() as int) =~= sc);
    let ghost st = sort_stable(sc);
    let n = if sorted.len() < 3 {
        sorted.len()
    } else {
        3
    };
    let mut out: Vec<String> = Vec::new();
    let mut q: usize = 0;
    while q < n
        invariant
            q <= n,
            n <= sorted@.len(),
            sorted@.len() == st.len(),
            forall|k: int| #![trigger sorted@[k]]
                 0 <= k < sorted@.len() ==> sorted@[k].1 < pool@.len() && (
                sorted@[k].0 as nat, pool@[sorted@[k].1 as int]@) == st[k],
            out@.len() == q,
            forall|k: int| 0 <= k < q ==> #[trigger] out@[k]@ == st[k].1,
        decreases n - q,
    {
        let s = pool[sorted[q].1].clone();
        out.push(s);
        q = q + 1;
    }
    assert(strings_view(out@) =~= spec_similar_candidates(name@, pv));
    out
}

// ───────────────────────── 变量信息与函数签名 ─────────────────────────

#[derive(Debug, Clone, Copy)]
pub struct VarInfo {
    pub ty: Ty,
    pub mutable: bool,
    /// 所有权是否已被移走（仅堆类型有意义）
    pub moved: bool,
    /// 是否为函数形参（动态数组 push/pop 允许在形参上原地修改后交还）
    pub is_param: bool,
    /// 是否为动态数组借用形参 &[]T（只读视图）
    pub is_borrow: bool,
}

impl VarInfo {
    pub fn new(ty: Ty, mutable: bool) -> (r: VarInfo)
        ensures
            r == (VarInfo { ty, mutable, moved: false, is_param: false, is_borrow: false }),
    {
        VarInfo { ty, mutable, moved: false, is_param: false, is_borrow: false }
    }

    /// 形参绑定（只读，但动态数组允许 push/pop 原地修改后交还）
    pub fn new_param(ty: Ty, is_borrow: bool) -> (r: VarInfo)
        ensures
            r == (VarInfo { ty, mutable: false, moved: false, is_param: true, is_borrow }),
    {
        VarInfo { ty, mutable: false, moved: false, is_param: true, is_borrow }
    }
}

/// 函数签名（省略的类型标注默认 i64）
#[derive(Debug, Clone)]
pub struct FuncSig {
    pub params: Vec<Ty>,
    /// 与 params 对齐：动态数组 / map 借用形参标记（不移动、不置空源）
    pub borrows: Vec<bool>,
    pub ret: Ty,
}

// ───────────────────────── 类型规则 ─────────────────────────

/// 借用值在“只读位”（比较、拼接、打印）视同 str
pub fn norm(t: Ty) -> (r: Ty)
    ensures
        r == (if t == Ty::BorrowStr {
            Ty::Str
        } else {
            t
        }),
{
    if t == Ty::BorrowStr {
        Ty::Str
    } else {
        t
    }
}

/// 受所有权约束的堆类型：str、结构体、动态数组、map
pub open spec fn spec_is_owned(t: Ty) -> bool {
    t == Ty::Str || t is Struct || t is DArr || t is MapOf
}

pub fn is_owned(t: Ty) -> (r: bool)
    ensures
        r == spec_is_owned(t),
{
    t == Ty::Str || t.is_struct() || t.is_darr() || t.is_map()
}

/// 传参 / 返回值兼容规则：同型；i32→i64 提升；整数→f64 提升
pub open spec fn spec_ty_assignable(expected: Ty, actual: Ty) -> bool {
    expected == actual || (expected == Ty::I64 && actual == Ty::I32) || (expected == Ty::F64 && (
    actual == Ty::I32 || actual == Ty::I64))
}

pub fn ty_assignable(expected: Ty, actual: Ty) -> (r: bool)
    ensures
        r == spec_ty_assignable(expected, actual),
{
    if expected == actual {
        return true;
    }
    match (expected, actual) {
        (Ty::I64, Ty::I32) => true,
        (Ty::F64, Ty::I32) | (Ty::F64, Ty::I64) => true,
        (Ty::I32, Ty::I64) => false,
        _ => false,
    }
}

/// 带字面量特判的兼容判定：i32 目标接受范围内的整数字面量；&str 目标接受字符串字面量
pub open spec fn spec_value_assignable(expected: Ty, actual: Ty, value: Expr) -> bool {
    ||| spec_ty_assignable(expected, actual)
    ||| expected == Ty::I32 && actual == Ty::I64 && (value matches Expr::Int(v) && i32::MIN <= v
        <= i32::MAX)
    ||| expected == Ty::BorrowStr && actual == Ty::Str && value is Str
}

pub fn value_assignable(expected: Ty, actual: Ty, value: &Expr) -> (r: bool)
    ensures
        r == spec_value_assignable(expected, actual, *value),
        r == value_assignable_s(expected, actual, value@),
{
    if ty_assignable(expected, actual) {
        return true;
    }
    if expected == Ty::I32 && actual == Ty::I64 {
        if let Expr::Int(v) = value {
            return *v >= i32::MIN as i64 && *v <= i32::MAX as i64;
        }
    }
    if expected == Ty::BorrowStr && actual == Ty::Str {
        if let Expr::Str(_) = value {
            return true;
        }
    }
    false
}

pub fn assign_compatible(var_ty: Ty, val_ty: Ty, value: &Expr) -> (r: bool)
    ensures
        r == spec_value_assignable(var_ty, val_ty, *value),
        r == value_assignable_s(var_ty, val_ty, value@),
{
    value_assignable(var_ty, val_ty, value)
}


// ───────────────────────── 类型表 ─────────────────────────

pub open spec fn structs_view(v: Seq<StructDef>) -> Seq<StructView> {
    v.map_values(|s: StructDef| s@)
}

pub open spec fn tuples_view(v: Seq<TupleDef>) -> Seq<Seq<Ty>> {
    v.map_values(|t: TupleDef| t@)
}

/// 类型表的视图：数组、动态数组、元组（元素类型序列）、map 的定义
pub struct TbView {
    pub arrs: Seq<ArrDef>,
    pub darrs: Seq<DArrDef>,
    pub tuples: Seq<Seq<Ty>>,
    pub maps: Seq<MapDef>,
}

impl View for TypeTables {
    type V = TbView;

    open spec fn view(&self) -> TbView {
        TbView { arrs: self.arrs@, darrs: self.darrs@, tuples: tuples_view(self.tuples@), maps: self.maps@ }
    }
}

/// 程序的类型表（结构体、数组、动态数组、元组、map），由检查器与后端共享：
/// 入口处整体设置一次，之后按 Ty 中的序号查询。
#[derive(Debug)]
pub struct TypeTables {
    pub structs: Vec<StructDef>,
    pub arrs: Vec<ArrDef>,
    pub darrs: Vec<DArrDef>,
    pub tuples: Vec<TupleDef>,
    pub maps: Vec<MapDef>,
}

fn copy_vec<T: Copy>(v: &[T]) -> (r: Vec<T>)
    ensures
        r@ == v@,
{
    let mut r: Vec<T> = Vec::new();
    let mut i: usize = 0;
    while i < v.len()
        invariant
            i <= v@.len(),
            r@ == v@.take(i as int),
        decreases v@.len() - i,
    {
        r.push(v[i]);
        assert(v@.take(i + 1) =~= v@.take(i as int).push(v@[i as int]));
        i = i + 1;
    }
    assert(v@.take(v@.len() as int) =~= v@);
    r
}

fn clone_structs(v: &[StructDef]) -> (r: Vec<StructDef>)
    ensures
        structs_view(r@) == structs_view(v@),
{
    let mut r: Vec<StructDef> = Vec::new();
    let mut i: usize = 0;
    while i < v.len()
        invariant
            i <= v@.len(),
            r@.len() == i,
            forall|k: int| 0 <= k < i ==> #[trigger] r@[k]@ == v@[k]@,
        decreases v@.len() - i,
    {
        r.push(v[i].clone());
        i = i + 1;
    }
    assert(structs_view(r@) =~= structs_view(v@));
    r
}

fn clone_tuples(v: &[TupleDef]) -> (r: Vec<TupleDef>)
    ensures
        tuples_view(r@) == tuples_view(v@),
{
    let mut r: Vec<TupleDef> = Vec::new();
    let mut i: usize = 0;
    while i < v.len()
        invariant
            i <= v@.len(),
            r@.len() == i,
            forall|k: int| 0 <= k < i ==> #[trigger] r@[k]@ == v@[k]@,
        decreases v@.len() - i,
    {
        r.push(v[i].clone());
        i = i + 1;
    }
    assert(tuples_view(r@) =~= tuples_view(v@));
    r
}

impl TypeTables {
    pub fn new() -> (r: TypeTables)
        ensures
            r.structs@.len() == 0,
            r.arrs@.len() == 0,
            r.darrs@.len() == 0,
            r.tuples@.len() == 0,
            r.maps@.len() == 0,
    {
        TypeTables {
            structs: Vec::new(),
            arrs: Vec::new(),
            darrs: Vec::new(),
            tuples: Vec::new(),
            maps: Vec::new(),
        }
    }

    /// 设置结构体表（后端入口调用）
    pub fn set_structs(&mut self, structs: &[StructDef])
        ensures
            structs_view(final(self).structs@) == structs_view(structs@),
            final(self).arrs == old(self).arrs,
            final(self).darrs == old(self).darrs,
            final(self).tuples == old(self).tuples,
            final(self).maps == old(self).maps,
    {
        self.structs = clone_structs(structs);
    }

    /// 结构体表的快照
    pub fn structs(&self) -> (r: Vec<StructDef>)
        ensures
            structs_view(r@) == structs_view(self.structs@),
    {
        clone_structs(self.structs.as_slice())
    }

    /// 设置数组类型表
    pub fn set_arrs(&mut self, arrs: &[ArrDef])
        ensures
            final(self).arrs@ == arrs@,
            final(self).structs == old(self).structs,
            final(self).darrs == old(self).darrs,
            final(self).tuples == old(self).tuples,
            final(self).maps == old(self).maps,
    {
        self.arrs = copy_vec(arrs);
    }

    /// 数组类型表的快照
    pub fn arrs(&self) -> (r: Vec<ArrDef>)
        ensures
            r@ == self.arrs@,
    {
        copy_vec(self.arrs.as_slice())
    }

    /// 设置动态数组类型表
    pub fn set_darrs(&mut self, darrs: &[DArrDef])
        ensures
            final(self).darrs@ == darrs@,
            final(self).structs == old(self).structs,
            final(self).arrs == old(self).arrs,
            final(self).tuples == old(self).tuples,
            final(self).maps == old(self).maps,
    {
        self.darrs = copy_vec(darrs);
    }

    /// 动态数组类型表的快照
    pub fn darrs(&self) -> (r: Vec<DArrDef>)
        ensures
            r@ == self.darrs@,
    {
        copy_vec(self.darrs.as_slice())
    }

    /// 设置元组类型表
    pub fn set_tuples(&mut self, tuples: &[TupleDef])
        ensures
            tuples_view(final(self).tuples@) == tuples_view(tuples@),
            final(self).structs == old(self).structs,
            final(self).arrs == old(self).arrs,
            final(self).darrs == old(self).darrs,
            final(self).maps == old(self).maps,
    {
        self.tuples = clone_tuples(tuples);
    }

    /// 元组类型表的快照
    pub fn tuples(&self) -> (r: Vec<TupleDef>)
        ensures
            tuples_view(r@) == tuples_view(self.tuples@),
    {
        clone_tuples(self.tuples.as_slice())
    }

    /// 设置关联数组类型表
    pub fn set_maps(&mut self, maps: &[MapDef])
        ensures
            final(self).maps@ == maps@,
            final(self).structs == old(self).structs,
            final(self).arrs == old(self).arrs,
            final(self).darrs == old(self).darrs,
            final(self).tuples == old(self).tuples,
    {
        self.maps = copy_vec(maps);
    }

    /// 关联数组类型表的快照
    pub fn maps(&self) -> (r: Vec<MapDef>)
        ensures
            r@ == self.maps@,
    {
        copy_vec(self.maps.as_slice())
    }
}

/// 按 Ty::Struct 序号取结构体定义
pub fn struct_by_id<'a>(structs: &'a [StructDef], t: Ty) -> (r: Option<&'a StructDef>)
    ensures
        match t {
            Ty::Struct(i) => if (i as int) < structs@.len() {
                r == Some(&structs@[i as int])
            } else {
                r is None
            },
            _ => r is None,
        },
{
    match t {
        Ty::Struct(i) => {
            if (i as usize) < structs.len() {
                Some(&structs[i as usize])
            } else {
                None
            }
        },
        _ => None,
    }
}

/// 按名查结构体：第一个同名者的 (序号, 定义)
pub fn struct_by_name<'a>(structs: &'a [StructDef], name: &str) -> (r: Option<(u32, &'a StructDef)>)
    ensures
        match r {
            Some((i, sd)) => exists|k: int|
                0 <= k < structs@.len() && #[trigger] structs@[k].name@ == name@ && i == k as u32
                    && sd == &structs@[k] && forall|j: int|
                    0 <= j < k ==> structs@[j].name@ != name@,
            None => forall|j: int| 0 <= j < structs@.len() ==> structs@[j].name@ != name@,
        },
{
    let mut i: usize = 0;
    while i < structs.len()
        invariant
            i <= structs@.len(),
            forall|j: int| 0 <= j < i ==> structs@[j].name@ != name@,
        decreases structs@.len() - i,
    {
        if str_eq(structs[i].name.as_str(), name) {
            return Some((i as u32, &structs[i]));
        }
        i = i + 1;
    }
    None
}

/// 字段类型查询（找不到字段返回 None）
pub fn field_ty(sd: &StructDef, fname: &str) -> (r: Option<Ty>)
    ensures
        match r {
            Some(t) => exists|k: int|
                0 <= k < sd.fields@.len() && #[trigger] sd.fields@[k].name@ == fname@
                    && t == sd.fields@[k].ty && forall|j: int|
                    0 <= j < k ==> sd.fields@[j].name@ != fname@,
            None => forall|j: int| 0 <= j < sd.fields@.len() ==> sd.fields@[j].name@ != fname@,
        },
{
    let mut i: usize = 0;
    while i < sd.fields.len()
        invariant
            i <= sd.fields@.len(),
            forall|j: int| 0 <= j < i ==> sd.fields@[j].name@ != fname@,
        decreases sd.fields@.len() - i,
    {
        if str_eq(sd.fields[i].name.as_str(), fname) {
            return Some(sd.fields[i].ty);
        }
        i = i + 1;
    }
    None
}

/// 按 Ty::Arr 序号取数组定义
pub fn arr_by_id<'a>(arrs: &'a [ArrDef], t: Ty) -> (r: Option<&'a ArrDef>)
    ensures
        match t {
            Ty::Arr(i) => if (i as int) < arrs@.len() {
                r == Some(&arrs@[i as int])
            } else {
                r is None
            },
            _ => r is None,
        },
{
    match t {
        Ty::Arr(i) => {
            if (i as usize) < arrs.len() {
                Some(&arrs[i as usize])
            } else {
                None
            }
        },
        _ => None,
    }
}

/// 按 Ty::DArr 序号取动态数组定义
pub fn darr_by_id<'a>(darrs: &'a [DArrDef], t: Ty) -> (r: Option<&'a DArrDef>)
    ensures
        match t {
            Ty::DArr(i) => if (i as int) < darrs@.len() {
                r == Some(&darrs@[i as int])
            } else {
                r is None
            },
            _ => r is None,
        },
{
    match t {
        Ty::DArr(i) => {
            if (i as usize) < darrs.len() {
                Some(&darrs[i as usize])
            } else {
                None
            }
        },
        _ => None,
    }
}

/// 按 Ty::Tuple 序号取元组定义
pub fn tuple_by_id<'a>(tuples: &'a [TupleDef], t: Ty) -> (r: Option<&'a TupleDef>)
    ensures
        match t {
            Ty::Tuple(i) => if (i as int) < tuples@.len() {
                r == Some(&tuples@[i as int])
            } else {
                r is None
            },
            _ => r is None,
        },
{
    match t {
        Ty::Tuple(i) => {
            if (i as usize) < tuples.len() {
                Some(&tuples[i as usize])
            } else {
                None
            }
        },
        _ => None,
    }
}

/// 按 Ty::MapOf 序号取关联数组定义
pub fn map_by_id<'a>(maps: &'a [MapDef], t: Ty) -> (r: Option<&'a MapDef>)
    ensures
        match t {
            Ty::MapOf(i) => if (i as int) < maps@.len() {
                r == Some(&maps@[i as int])
            } else {
                r is None
            },
            _ => r is None,
        },
{
    match t {
        Ty::MapOf(i) => {
            if (i as usize) < maps.len() {
                Some(&maps[i as usize])
            } else {
                None
            }
        },
        _ => None,
    }
}

/// 含结构体名与容器元素类型的类型标签（报错信息用）
pub open spec fn spec_ty_label(
    t: Ty,
    structs: Seq<StructView>,
    arrs: Seq<ArrDef>,
    darrs: Seq<DArrDef>,
    maps: Seq<MapDef>,
) -> Seq<char> {
    match t {
        Ty::Struct(i) => if (i as int) < structs.len() {
            structs[i as int].name
        } else {
            "struct"@
        },
        Ty::Arr(i) => if (i as int) < arrs.len() {
            spec_label(arrs[i as int].elem) + "["@ + radix_text(arrs[i as int].len as nat, 10)
                + "]"@
        } else {
            "array"@
        },
        Ty::DArr(i) => if (i as int) < darrs.len() {
            "[]"@ + spec_label(darrs[i as int].elem)
        } else {
            "darr"@
        },
        Ty::MapOf(i) => if (i as int) < maps.len() {
            "map["@ + spec_label(maps[i as int].key) + "]"@ + spec_label(maps[i as int].val)
        } else {
            "map"@
        },
        _ => spec_label(t),
    }
}

/// `ty_label` 依据的表：结构体取参数 structs，其余取类型表
pub open spec fn label_of(t: Ty, structs: Seq<StructDef>, tables: TbView) -> Seq<char> {
    spec_ty_label(t, structs_view(structs), tables.arrs, tables.darrs, tables.maps)
}

pub fn ty_label(t: Ty, structs: &[StructDef], tables: &TypeTables) -> (r: String)
    ensures
        r@ == label_of(t, structs@, tables@),
{
    match t {
        Ty::Struct(i) => {
            if (i as usize) < structs.len() {
                structs[i as usize].name.clone()
            } else {
                String::from_str("struct")
            }
        },
        Ty::Arr(i) => {
            if (i as usize) < tables.arrs.len() {
                let a = tables.arrs[i as usize];
                let mut out: Vec<char> = Vec::new();
                push_str_chars(a.elem.label(), &mut out);
                push_str_chars("[", &mut out);
                push_decimal(a.len, &mut out);
                push_str_chars("]", &mut out);
                string_of_all(&out)
            } else {
                String::from_str("array")
            }
        },
        Ty::DArr(i) => {
            if (i as usize) < tables.darrs.len() {
                let d = tables.darrs[i as usize];
                let mut out: Vec<char> = Vec::new();
                push_str_chars("[]", &mut out);
                push_str_chars(d.elem.label(), &mut out);
                string_of_all(&out)
            } else {
                String::from_str("darr")
            }
        },
        Ty::MapOf(i) => {
            if (i as usize) < tables.maps.len() {
                let m = tables.maps[i as usize];
                let mut out: Vec<char> = Vec::new();
                push_str_chars("map[", &mut out);
                push_str_chars(m.key.label(), &mut out);
                push_str_chars("]", &mut out);
                push_str_chars(m.val.label(), &mut out);
                string_of_all(&out)
            } else {
                String::from_str("map")
            }
        },
        other => String::from_str(other.label()),
    }
}

/// sel 分支允许的类型：数值与 bool
pub open spec fn sel_branch_ok(t: Ty) -> bool {
    t == Ty::I32 || t == Ty::I64 || t == Ty::F64 || t == Ty::Bool
}

/// sel 分支类型统一：Ok(统一后的类型) 或 Err(报错消息)
pub open spec fn spec_sel_unify(at: Ty, bt: Ty, la: Seq<char>, lb: Seq<char>) -> Result<
    Ty,
    Seq<char>,
> {
    if !sel_branch_ok(at) || !sel_branch_ok(bt) {
        Err("sel 分支只能是数值或 bool（实际 "@ + la + " 与 "@ + lb + "）；str/结构体/数组不支持"@)
    } else if at == bt {
        Ok(at)
    } else if (at == Ty::I64 && bt == Ty::I32) || (at == Ty::I32 && bt == Ty::I64) {
        Ok(Ty::I64)
    } else if at == Ty::F64 || bt == Ty::F64 {
        if at != Ty::Bool && bt != Ty::Bool {
            Ok(Ty::F64)
        } else {
            Err("sel 两分支类型不符："@ + la + " 与 "@ + lb)
        }
    } else {
        Err("sel 两分支类型不符："@ + la + " 与 "@ + lb)
    }
}

/// sel 分支类型统一：同型或按提升规则统一到更大类型（仅数值与 bool）
pub fn sel_unify(at: Ty, bt: Ty, structs: &[StructDef], tables: &TypeTables, line: usize) -> (r:
    Result<Ty, CheckError>)
    ensures
        match spec_sel_unify(
            at,
            bt,
            label_of(at, structs@, tables@),
            label_of(bt, structs@, tables@),
        ) {
            Ok(t) => r == Ok::<Ty, CheckError>(t),
            Err(m) => r is Err && r->Err_0.msg@ == m && r->Err_0.line == line && r->Err_0.hint@.len()
                == 0 && r->Err_0.candidates@.len() == 0,
        },
{
    let ok_a = at == Ty::I32 || at == Ty::I64 || at == Ty::F64 || at == Ty::Bool;
    let ok_b = bt == Ty::I32 || bt == Ty::I64 || bt == Ty::F64 || bt == Ty::Bool;
    if !ok_a || !ok_b {
        let la = ty_label(at, structs, tables);
        let lb = ty_label(bt, structs, tables);
        let mut m = String::from_str("sel 分支只能是数值或 bool（实际 ");
        m.append(la.as_str());
        m.append(" 与 ");
        m.append(lb.as_str());
        m.append("）；str/结构体/数组不支持");
        return Err(err(line, m));
    }
    if at == bt {
        return Ok(at);
    }
    match (at, bt) {
        (Ty::I64, Ty::I32) | (Ty::I32, Ty::I64) => Ok(Ty::I64),
        (Ty::F64, Ty::I32) | (Ty::I32, Ty::F64) | (Ty::F64, Ty::I64) | (Ty::I64, Ty::F64) => Ok(
            Ty::F64,
        ),
        _ => {
            let la = ty_label(at, structs, tables);
            let lb = ty_label(bt, structs, tables);
            let mut m = String::from_str("sel 两分支类型不符：");
            m.append(la.as_str());
            m.append(" 与 ");
            m.append(lb.as_str());
            Err(err(line, m))
        },
    }
}


// ───────────────────────── 名字表：作用域与函数表 ─────────────────────────

/// 条目序列（名字各不相同）所表示的映射
pub open spec fn entries_map<V>(es: Seq<(String, V)>) -> Map<Seq<char>, V>
    decreases es.len(),
{
    if es.len() == 0 {
        Map::empty()
    } else {
        entries_map(es.drop_last()).insert(es.last().0@, es.last().1)
    }
}

pub open spec fn names_unique<V>(es: Seq<(String, V)>) -> bool {
    forall|i: int, j: int| 0 <= i < j < es.len() ==> es[i].0@ != es[j].0@
}

proof fn lemma_entries_map<V>(es: Seq<(String, V)>)
    requires
        names_unique(es),
    ensures
        forall|i: int|
            0 <= i < es.len() ==> entries_map(es).contains_key(#[trigger] es[i].0@) && entries_map(es)[es[i].0@]
                == es[i].1,
        forall|k: Seq<char>|
            entries_map(es).contains_key(k) ==> exists|i: int| 0 <= i < es.len() && #[trigger] es[i].0@ == k,
    decreases es.len(),
{
    if es.len() > 0 {
        let d = es.drop_last();
        assert(names_unique(d));
        lemma_entries_map(d);
        assert forall|i: int| 0 <= i < es.len() implies entries_map(es).contains_key(
            #[trigger] es[i].0@,
        ) && entries_map(es)[es[i].0@] == es[i].1 by {
            if i < es.len() - 1 {
                assert(d[i] == es[i]);
            }
        }
        assert forall|k: Seq<char>| entries_map(es).contains_key(k) implies exists|i: int|
            0 <= i < es.len() && #[trigger] es[i].0@ == k by {
            if k != es.last().0@ {
                assert(entries_map(d).contains_key(k));
                let i = choose|i: int| 0 <= i < d.len() && #[trigger] d[i].0@ == k;
                assert(es[i] == d[i]);
            } else {
                assert(es[es.len() - 1].0@ == k);
            }
        }
    }
}

/// 以名字为键的表（作用域、类型表）：同名插入覆盖旧值
pub struct NameMap<V> {
    entries: Vec<(String, V)>,
}

impl<V> NameMap<V> {
    #[verifier::type_invariant]
    spec fn unique(&self) -> bool {
        names_unique(self.entries@)
    }

    pub closed spec fn view(&self) -> Map<Seq<char>, V> {
        entries_map(self.entries@)
    }

    /// 按插入顺序排列的名字
    pub closed spec fn names(&self) -> Seq<Seq<char>> {
        self.entries@.map_values(|e: (String, V)| e.0@)
    }
}

impl<V: Copy> NameMap<V> {
    pub fn new() -> (r: NameMap<V>)
        ensures
            r.view() == Map::<Seq<char>, V>::empty(),
            r.names() == Seq::<Seq<char>>::empty(),
    {
        let r = NameMap { entries: Vec::new() };
        assert(r.names() =~= Seq::<Seq<char>>::empty());
        r
    }

    /// 条目位置（没有则为条目数）
    fn position(&self, name: &str) -> (r: usize)
        ensures
            r <= self.entries@.len(),
            r < self.entries@.len() ==> self.entries@[r as int].0@ == name@,
            r == self.entries@.len() ==> !self.view().contains_key(name@),
    {
        proof {
            use_type_invariant(self);
            lemma_entries_map(self.entries@);
        }
        let mut i: usize = 0;
        while i < self.entries.len()
            invariant
                i <= self.entries@.len(),
                forall|j: int| 0 <= j < i ==> self.entries@[j].0@ != name@,
            decreases self.entries@.len() - i,
        {
            if str_eq(self.entries[i].0.as_str(), name) {
                return i;
            }
            i = i + 1;
        }
        i
    }

    /// 查找
    pub fn get(&self, name: &str) -> (r: Option<V>)
        ensures
            r == (if self.view().contains_key(name@) {
                Some(self.view()[name@])
            } else {
                None
            }),
    {
        proof {
            use_type_invariant(self);
            lemma_entries_map(self.entries@);
        }
        let i = self.position(name);
        if i < self.entries.len() {
            Some(self.entries[i].1)
        } else {
            None
        }
    }

    /// 是否含名字
    pub fn contains(&self, name: &str) -> (r: bool)
        ensures
            r == self.view().contains_key(name@),
    {
        let i = self.position(name);
        proof {
            use_type_invariant(self);
            lemma_entries_map(self.entries@);
        }
        i < self.entries.len()
    }

    /// 插入（同名覆盖）；返回是否原已有该名字
    pub fn insert(&mut self, name: String, v: V) -> (r: bool)
        ensures
            r == old(self).view().contains_key(name@),
            final(self).view() == old(self).view().insert(name@, v),
            !r ==> final(self).names() == old(self).names().push(name@),
            r ==> final(self).names() == old(self).names(),
    {
        proof {
            use_type_invariant(&*self);
            lemma_entries_map(self.entries@);
        }
        let i = self.position(name.as_str());
        let mut es: Vec<(String, V)> = Vec::new();
        std::mem::swap(&mut es, &mut self.entries);
        let ghost es0 = es@;
        if i < es.len() {
            es.set(i, (name, v));
            proof {
                let es1 = es@;
                assert(names_unique(es1));
                lemma_entries_map(es1);
                assert(es1[i as int].0@ == es0[i as int].0@);
                assert(entries_map(es1).contains_key(es1[i as int].0@));
                assert(entries_map(es1)[es1[i as int].0@] == v);
                assert forall|k: Seq<char>| #[trigger] entries_map(es1).contains_key(k)
                    == entries_map(es0).insert(es0[i as int].0@, v).contains_key(k) by {
                    if entries_map(es1).contains_key(k) && k != es0[i as int].0@ {
                        let j = choose|j: int| 0 <= j < es1.len() && #[trigger] es1[j].0@ == k;
                        assert(j != i);
                        assert(es0[j] == es1[j]);
                        assert(entries_map(es0).contains_key(es0[j].0@));
                    }
                    if entries_map(es0).contains_key(k) && k != es0[i as int].0@ {
                        let j = choose|j: int| 0 <= j < es0.len() && #[trigger] es0[j].0@ == k;
                        assert(j != i);
                        assert(es0[j] == es1[j]);
                        assert(entries_map(es1).contains_key(es1[j].0@));
                    }
                }
                assert forall|k: Seq<char>| #[trigger] entries_map(es1).contains_key(k) && k != es0[i as int].0@
                    implies entries_map(es1)[k] == entries_map(es0)[k] by {
                    let j = choose|j: int| 0 <= j < es1.len() && #[trigger] es1[j].0@ == k;
                    assert(j != i);
                    assert(es0[j] == es1[j]);
                    assert(entries_map(es0).contains_key(es0[j].0@));
                }
                assert(entries_map(es1) =~= entries_map(es0).insert(es0[i as int].0@, v));
                assert(es1.map_values(|e: (String, V)| e.0@) =~= es0.map_values(|e: (String, V)| e.0@));
            }
            self.entries = es;
            true
        } else {
            es.push((name, v));
            proof {
                assert(es@.drop_last() =~= es0);
                assert(es@.map_values(|e: (String, V)| e.0@) =~= es0.map_values(|e: (String, V)| e.0@).push(name@));
            }
            self.entries = es;
            false
        }
    }

    /// 按插入顺序的名字
    pub fn keys(&self) -> (r: Vec<String>)
        ensures
            strings_view(r@) == self.names(),
    {
        let mut r: Vec<String> = Vec::new();
        let mut i: usize = 0;
        while i < self.entries.len()
            invariant
                i <= self.entries@.len(),
                strings_view(r@) == self.names().take(i as int),
            decreases self.entries@.len() - i,
        {
            let c = self.entries[i].0.clone();
            let ghost r0 = r@;
            r.push(c);
            proof {
                assert(c@ == self.entries@[i as int].0@);
                assert(self.names()[i as int] == self.entries@[i as int].0@);
                assert(strings_view(r@) =~= strings_view(r0).push(c@));
                assert(self.names().take(i + 1) =~= self.names().take(i as int).push(self.names()[i as int]));
            }
            i = i + 1;
        }
        assert(self.names().take(self.entries@.len() as int) =~= self.names());
        r
    }
}

impl<V: Copy> NameMap<V> {
    /// 副本：同样的映射与名字顺序
    pub fn duplicate(&self) -> (r: NameMap<V>)
        ensures
            r.view() == self.view(),
            r.names() == self.names(),
    {
        proof {
            use_type_invariant(self);
        }
        let mut es: Vec<(String, V)> = Vec::new();
        let mut i: usize = 0;
        while i < self.entries.len()
            invariant
                i <= self.entries@.len(),
                es@.len() == i,
                forall|j: int| 0 <= j < i ==> #[trigger] es@[j].0@ == self.entries@[j].0@ && es@[j].1 == self.entries@[j].1,
            decreases self.entries@.len() - i,
        {
            let k = self.entries[i].0.clone();
            es.push((k, self.entries[i].1));
            i = i + 1;
        }
        proof {
            lemma_same_names_map(es@, self.entries@);
        }
        NameMap { entries: es }
    }
}

/// 名字与值逐项相同的条目序列给出相同的映射与名字
proof fn lemma_same_names_map<V>(a: Seq<(String, V)>, b: Seq<(String, V)>)
    requires
        a.len() == b.len(),
        forall|j: int| 0 <= j < a.len() ==> #[trigger] a[j].0@ == b[j].0@ && a[j].1 == b[j].1,
    ensures
        entries_map(a) == entries_map(b),
        a.map_values(|e: (String, V)| e.0@) == b.map_values(|e: (String, V)| e.0@),
        names_unique(b) ==> names_unique(a),
    decreases a.len(),
{
    assert(a.map_values(|e: (String, V)| e.0@) =~= b.map_values(|e: (String, V)| e.0@));
    if a.len() > 0 {
        lemma_same_names_map(a.drop_last(), b.drop_last());
    }
}

/// 块结束时的作用域：恢复进入块前的快照 snap，但块内被移动的外层变量保持已移动
pub open spec fn restore_moved(snap: Map<Seq<char>, VarInfo>, after: Map<Seq<char>, VarInfo>) -> Map<
    Seq<char>,
    VarInfo,
> {
    Map::new(
        |k: Seq<char>| snap.contains_key(k),
        |k: Seq<char>|
            if after.contains_key(k) && after[k].moved {
                VarInfo { moved: true, ..snap[k] }
            } else {
                snap[k]
            },
    )
}

pub open spec fn restore_one(v: VarInfo, k: Seq<char>, after: Map<Seq<char>, VarInfo>) -> VarInfo {
    if after.contains_key(k) && after[k].moved {
        VarInfo { moved: true, ..v }
    } else {
        v
    }
}

impl NameMap<VarInfo> {
    /// 以 self 为快照、after 为块结束时的作用域，给出恢复后的作用域
    pub fn restore_from(&self, after: &NameMap<VarInfo>) -> (r: NameMap<VarInfo>)
        ensures
            r.view() == restore_moved(self.view(), after.view()),
            r.names() == self.names(),
    {
        proof {
            use_type_invariant(self);
            lemma_entries_map(self.entries@);
        }
        let mut es: Vec<(String, VarInfo)> = Vec::new();
        let mut i: usize = 0;
        while i < self.entries.len()
            invariant
                i <= self.entries@.len(),
                es@.len() == i,
                forall|j: int| 0 <= j < i ==> (#[trigger] es@[j]).0@ == self.entries@[j].0@,
                forall|j: int|
                    0 <= j < i ==> (#[trigger] es@[j]).1 == restore_one(
                        self.entries@[j].1,
                        self.entries@[j].0@,
                        after.view(),
                    ),
            decreases self.entries@.len() - i,
        {
            let k = self.entries[i].0.clone();
            let v = self.entries[i].1;
            let nv = match after.get(k.as_str()) {
                Some(a) => {
                    if a.moved {
                        VarInfo { moved: true, ..v }
                    } else {
                        v
                    }
                },
                None => v,
            };
            assert(k@ == self.entries@[i as int].0@);
            assert(nv == restore_one(v, k@, after.view()));
            let ghost es_before = es@;
            es.push((k, nv));
            assert forall|j: int| 0 <= j < i + 1 implies (#[trigger] es@[j]).0@ == self.entries@[j].0@
                && es@[j].1 == restore_one(self.entries@[j].1, self.entries@[j].0@, after.view()) by {
                if j < i {
                    assert(es@[j] == es_before[j]);
                }
            }
            i = i + 1;
        }
        let ghost es0 = self.entries@;
        proof {
            assert(names_unique(es@)) by {
                assert forall|a: int, b: int| 0 <= a < b < es@.len() implies es@[a].0@ != es@[b].0@ by {
                    assert(es@[a].0@ == es0[a].0@);
                    assert(es@[b].0@ == es0[b].0@);
                }
            }
            lemma_entries_map(es@);
            let m = restore_moved(self.view(), after.view());
            assert forall|k: Seq<char>| #[trigger] entries_map(es@).contains_key(k) == m.contains_key(k) by {
                if entries_map(es@).contains_key(k) {
                    let j = choose|j: int| 0 <= j < es@.len() && #[trigger] es@[j].0@ == k;
                    assert(es0[j].0@ == k);
                }
                if m.contains_key(k) {
                    let j = choose|j: int| 0 <= j < es0.len() && #[trigger] es0[j].0@ == k;
                    assert(es@[j].0@ == k);
                }
            }
            assert forall|k: Seq<char>| #[trigger] entries_map(es@).contains_key(k) implies entries_map(es@)[k]
                == m[k] by {
                let j = choose|j: int| 0 <= j < es@.len() && #[trigger] es@[j].0@ == k;
                assert(es0[j].0@ == k);
            }
            assert(entries_map(es@) =~= m);
            assert(es@.map_values(|e: (String, VarInfo)| e.0@) =~= es0.map_values(|e: (String, VarInfo)| e.0@));
        }
        NameMap { entries: es }
    }
}

/// 作用域：变量名 → 变量信息
pub type Scope = NameMap<VarInfo>;

/// 变量名 → 类型
pub type TyScope = NameMap<Ty>;

/// 变量类型查询抽象：让 ty_of 同时服务于检查器（VarInfo 表）
/// 与所有权代码生成的声明收集（纯 Ty 表）
pub trait TyLookup {
    /// 变量名到类型的映射
    spec fn ty_map(&self) -> Map<Seq<char>, Ty>;

    fn lookup_ty(&self, name: &str) -> (r: Option<Ty>)
        ensures
            r == (if self.ty_map().contains_key(name@) {
                Some(self.ty_map()[name@])
            } else {
                None
            });
}

impl TyLookup for NameMap<Ty> {
    open spec fn ty_map(&self) -> Map<Seq<char>, Ty> {
        self.view()
    }

    fn lookup_ty(&self, name: &str) -> (r: Option<Ty>) {
        self.get(name)
    }
}

/// 变量信息表中的类型部分
pub open spec fn var_tys(m: Map<Seq<char>, VarInfo>) -> Map<Seq<char>, Ty> {
    m.map_values(|v: VarInfo| v.ty)
}

impl TyLookup for NameMap<VarInfo> {
    open spec fn ty_map(&self) -> Map<Seq<char>, Ty> {
        var_tys(self.view())
    }

    fn lookup_ty(&self, name: &str) -> (r: Option<Ty>) {
        match self.get(name) {
            Some(v) => Some(v.ty),
            None => None,
        }
    }
}

/// 函数签名的视图：形参类型、借用标记、返回类型
pub struct FSig {
    pub params: Seq<Ty>,
    pub borrows: Seq<bool>,
    pub ret: Ty,
}

pub open spec fn fsig_view(f: FuncSig) -> FSig {
    FSig { params: f.params@, borrows: f.borrows@, ret: f.ret }
}

/// 函数表：函数名 → 签名（同名插入覆盖）
pub struct FuncTable {
    sigs: NameMap<usize>,
    table: Vec<FuncSig>,
}

impl FuncTable {
    #[verifier::type_invariant]
    spec fn indices_ok(&self) -> bool {
        forall|k: Seq<char>| #[trigger] self.sigs.view().contains_key(k) ==> self.sigs.view()[k] < self.table@.len()
    }

    pub closed spec fn view(&self) -> Map<Seq<char>, FSig> {
        Map::new(
            |k: Seq<char>| self.sigs.view().contains_key(k),
            |k: Seq<char>| fsig_view(self.table@[self.sigs.view()[k] as int]),
        )
    }

    pub fn new() -> (r: FuncTable)
        ensures
            r.view() == Map::<Seq<char>, FSig>::empty(),
            r.names() == Seq::<Seq<char>>::empty(),
    {
        let r = FuncTable { sigs: NameMap::new(), table: Vec::new() };
        assert(r.view() =~= Map::<Seq<char>, FSig>::empty());
        r
    }

    /// 插入（同名覆盖）；返回是否原已有该函数名
    pub fn insert(&mut self, name: String, sig: FuncSig) -> (r: bool)
        ensures
            r == old(self).view().contains_key(name@),
            final(self).view() == old(self).view().insert(name@, fsig_view(sig)),
            !r ==> final(self).names() == old(self).names().push(name@),
            r ==> final(self).names() == old(self).names(),
    {
        proof {
            use_type_invariant(&*self);
        }
        let ghost n = name@;
        let ghost sv = fsig_view(sig);
        let mut sigs: NameMap<usize> = NameMap::new();
        std::mem::swap(&mut sigs, &mut self.sigs);
        let mut table: Vec<FuncSig> = Vec::new();
        std::mem::swap(&mut table, &mut self.table);
        let idx = table.len();
        table.push(sig);
        let r = sigs.insert(name, idx);
        self.table = table;
        self.sigs = sigs;
        assert(self.view() =~= old(self).view().insert(n, sv));
        r
    }

    /// 函数名，按首次登记的顺序
    pub closed spec fn names(&self) -> Seq<Seq<char>> {
        self.sigs.names()
    }

    /// 全部函数名（按首次登记的顺序）
    pub fn keys(&self) -> (r: Vec<String>)
        ensures
            strings_view(r@) == self.names(),
    {
        self.sigs.keys()
    }

    /// 查找签名
    pub fn get(&self, name: &str) -> (r: Option<&FuncSig>)
        ensures
            match r {
                Some(f) => self.view().contains_key(name@) && fsig_view(*f) == self.view()[name@],
                None => !self.view().contains_key(name@),
            },
    {
        proof {
            use_type_invariant(self);
        }
        match self.sigs.get(name) {
            Some(i) => Some(&self.table[i]),
            None => None,
        }
    }
}


// ───────────────────────── 表达式类型推导 ─────────────────────────

/// 推导结果：类型，或 (消息, 提示, 候选名)；错误的行号恒为 0（由调用方补）
pub type TR = Result<Ty, (Seq<char>, Seq<char>, Seq<Seq<char>>)>;

pub open spec fn terr(m: Seq<char>) -> TR {
    Err((m, seq![], seq![]))
}

/// 借用在只读位视同 str
pub open spec fn snorm(t: Ty) -> Ty {
    if t == Ty::BorrowStr {
        Ty::Str
    } else {
        t
    }
}

/// 运行结果与推导规约一致
pub open spec fn ty_result(r: Result<Ty, CheckError>, sr: TR) -> bool {
    match sr {
        Ok(t) => r == Ok::<Ty, CheckError>(t),
        Err((m, h, c)) => r is Err && r->Err_0.msg@ == m && r->Err_0.line == 0 && r->Err_0.hint@ == h
            && strings_view(r->Err_0.candidates@) == c,
    }
}

/// 字段表中从 i 起第一个名为 n 的字段位置（没有则为字段数）
pub open spec fn field_pos(fs: Seq<FieldDef>, n: Seq<char>, i: int) -> int
    decreases fs.len() - i,
{
    if i < 0 || i >= fs.len() {
        fs.len() as int
    } else if fs[i].name@ == n {
        i
    } else {
        field_pos(fs, n, i + 1)
    }
}

/// 结构体表中从 i 起第一个名为 n 的结构体位置（没有则为表长）
pub open spec fn struct_pos(ss: Seq<StructDef>, n: Seq<char>, i: int) -> int
    decreases ss.len() - i,
{
    if i < 0 || i >= ss.len() {
        ss.len() as int
    } else if ss[i].name@ == n {
        i
    } else {
        struct_pos(ss, n, i + 1)
    }
}

pub(crate) proof fn lemma_field_pos(fs: Seq<FieldDef>, n: Seq<char>, k: int, i: int)
    requires
        0 <= i <= k <= fs.len(),
        k < fs.len() ==> fs[k].name@ == n,
        forall|j: int| 0 <= j < k ==> fs[j].name@ != n,
    ensures
        field_pos(fs, n, i) == k,
    decreases k - i,
{
    if i < k {
        lemma_field_pos(fs, n, k, i + 1);
    }
}

pub(crate) proof fn lemma_struct_pos(ss: Seq<StructDef>, n: Seq<char>, k: int, i: int)
    requires
        0 <= i <= k <= ss.len(),
        k < ss.len() ==> ss[k].name@ == n,
        forall|j: int| 0 <= j < k ==> ss[j].name@ != n,
    ensures
        struct_pos(ss, n, i) == k,
    decreases k - i,
{
    if i < k {
        lemma_struct_pos(ss, n, k, i + 1);
    }
}

/// 结构体的字段名（按声明顺序）
pub open spec fn field_names(sd: StructDef) -> Seq<Seq<char>> {
    sd.fields@.map_values(|f: FieldDef| f.name@)
}

/// 带字面量特判的兼容判定（表达式视图版）
pub open spec fn value_assignable_s(expected: Ty, actual: Ty, value: SExpr) -> bool {
    ||| spec_ty_assignable(expected, actual)
    ||| expected == Ty::I32 && actual == Ty::I64 && (value matches SExpr::Int(v) && i32::MIN <= v
        <= i32::MAX)
    ||| expected == Ty::BorrowStr && actual == Ty::Str && value is Str
}

/// 去掉开头的一个正负号
pub open spec fn sign_stripped(s: Seq<char>) -> Seq<char> {
    if s.len() > 0 && (s[0] == '+' || s[0] == '-') {
        s.drop_first()
    } else {
        s
    }
}

/// 全部为十进制数字
pub open spec fn all_digits(d: Seq<char>) -> bool {
    forall|i: int| 0 <= i < d.len() ==> is_digit(#[trigger] d[i])
}

/// 是否为 `str::parse::<i64>` 接受的文本：可选正负号后接至少一位十进制数字，值在 i64 范围内
pub open spec fn parses_i64(s: Seq<char>) -> bool {
    let d = sign_stripped(s);
    &&& d.len() > 0
    &&& all_digits(d)
    &&& decimal_value(d) <= (if s.len() > 0 && s[0] == '-' {
        9223372036854775808int
    } else {
        9223372036854775807int
    })
}

/// 取字段 p.f 的类型（bt 为已规范化的基类型）
pub open spec fn spec_field_ty(bt: Ty, f: Seq<char>, structs: Seq<StructDef>, tb: TbView) -> TR {
    if bt is Struct && (bt->Struct_0 as int) < structs.len() {
        let sd = structs[bt->Struct_0 as int];
        let k = field_pos(sd.fields@, f, 0);
        if k < sd.fields@.len() {
            Ok(sd.fields@[k].ty)
        } else {
            let c = spec_similar_candidates(f, field_names(sd));
            Err(
                (
                    "结构体 '"@ + sd.name@ + "' 没有字段 '"@ + f + "'"@,
                    if c.len() > 0 {
                        "是否想用 '"@ + c[0] + "'？"@
                    } else {
                        seq![]
                    },
                    c,
                ),
            )
        }
    } else {
        terr("类型 "@ + label_of(bt, structs, tb) + " 没有字段（只有结构体能取字段）"@)
    }
}

/// 下标 a[i] 的类型（bt 为已规范化的基类型，ixr 为下标的推导结果）
pub open spec fn spec_index_ty(bt: Ty, ixr: TR, structs: Seq<StructDef>, tb: TbView) -> TR {
    if bt is MapOf && (bt->MapOf_0 as int) < tb.maps.len() {
        Ok(tb.maps[bt->MapOf_0 as int].val)
    } else {
        match ixr {
            Err(x) => Err(x),
            Ok(t1) => {
                let it = snorm(t1);
                if !(it == Ty::I32 || it == Ty::I64) {
                    terr("数组下标必须是整数，实际 "@ + label_of(it, structs, tb))
                } else if bt == Ty::Str {
                    Ok(Ty::I64)
                } else if bt is Arr && (bt->Arr_0 as int) < tb.arrs.len() {
                    Ok(tb.arrs[bt->Arr_0 as int].elem)
                } else if bt is DArr && (bt->DArr_0 as int) < tb.darrs.len() {
                    Ok(tb.darrs[bt->DArr_0 as int].elem)
                } else {
                    terr(
                        "类型 "@ + label_of(bt, structs, tb)
                            + " 不能取下标（只有数组、str 和 map 能用 [i]）"@,
                    )
                }
            },
        }
    }
}

/// keys(m) / values(m) 的类型：键或值类型对应的动态数组（bt 为已规范化的实参类型）
pub open spec fn spec_snapshot_ty(bt: Ty, keys: bool, structs: Seq<StructDef>, tb: TbView) -> TR {
    if bt is MapOf && (bt->MapOf_0 as int) < tb.maps.len() {
        let m = tb.maps[bt->MapOf_0 as int];
        let elem = if keys {
            m.key
        } else {
            m.val
        };
        let pos = index_from(tb.darrs, DArrDef { elem }, 0);
        if pos < tb.darrs.len() {
            Ok(Ty::DArr(pos as u32))
        } else if keys {
            terr("内部错误：map 键类型无对应动态数组"@)
        } else {
            terr("内部错误：map 值类型无对应动态数组"@)
        }
    } else if keys {
        terr("keys() 实参必须是 map，实际 "@ + label_of(bt, structs, tb))
    } else {
        terr("values() 实参必须是 map，实际 "@ + label_of(bt, structs, tb))
    }
}

pub open spec fn is_cmp_op(op: BinOp) -> bool {
    op == BinOp::Lt || op == BinOp::Gt || op == BinOp::Le || op == BinOp::Ge || op == BinOp::Eq
        || op == BinOp::Ne
}

pub open spec fn is_numeric_ty(t: Ty) -> bool {
    t == Ty::I32 || t == Ty::I64 || t == Ty::F64
}

/// 二元运算的类型（lt、rt 为已规范化的操作数类型）
pub open spec fn spec_bin_ty(op: BinOp, lt: Ty, rt: Ty) -> TR {
    if is_cmp_op(op) {
        let ok = (is_numeric_ty(lt) && is_numeric_ty(rt)) || (lt == Ty::Str && rt == Ty::Str && (op
            == BinOp::Eq || op == BinOp::Ne)) || (lt == Ty::Bool && rt == Ty::Bool && (op == BinOp::Eq
            || op == BinOp::Ne));
        if ok {
            Ok(Ty::Bool)
        } else {
            terr(
                "类型 "@ + spec_label(lt) + " 与 "@ + spec_label(rt) + " 不能用 "@ + spec_binop_str(op)
                    + " 比较"@,
            )
        }
    } else if is_numeric_ty(lt) && is_numeric_ty(rt) {
        Ok(
            if lt == Ty::F64 || rt == Ty::F64 {
                Ty::F64
            } else {
                Ty::I64
            },
        )
    } else if op == BinOp::Add && lt == Ty::Str && rt == Ty::Str {
        Ok(Ty::Str)
    } else if lt == Ty::Str || rt == Ty::Str {
        terr("str 与数字不能混算 "@ + spec_binop_str(op) + "，请用 tos() 显式转换"@)
    } else {
        terr(
            "类型 "@ + spec_label(lt) + " 与 "@ + spec_label(rt) + " 不参与算术运算 "@ + spec_binop_str(
                op,
            ),
        )
    }
}

/// 转换函数 name(arg) 的类型（t 为实参类型）
pub open spec fn spec_convert_ty(name: Seq<char>, t: Ty, arg: SExpr, structs: Seq<StructDef>, tb: TbView) -> TR {
    if name == "tof"@ {
        if snorm(t) != Ty::Str {
            terr("tof 实参必须是 str，实际 "@ + label_of(t, structs, tb))
        } else {
            Ok(Ty::F64)
        }
    } else if name == "toi"@ {
        if t == Ty::I32 || t == Ty::I64 || t == Ty::F64 {
            Ok(Ty::I64)
        } else if t == Ty::Str {
            match arg {
                SExpr::Str(s) => if parses_i64(s) {
                    Ok(Ty::I64)
                } else {
                    terr("字符串 '"@ + s + "' 无法转换为整数"@)
                },
                _ => terr("toi 不能用于非字面量字符串（v0.1）"@),
            }
        } else {
            terr("toi 不能用于 "@ + spec_label(t))
        }
    } else {
        Ok(Ty::Str)
    }
}

/// len() 的类型（t0 为实参类型）
pub open spec fn spec_len_ty(t0: Ty, structs: Seq<StructDef>, tb: TbView) -> TR {
    let t = snorm(t0);
    if t is Arr || t == Ty::Str || t is DArr || t is MapOf {
        Ok(Ty::I64)
    } else {
        terr("len() 只能用于数组、str 或 map，实际 "@ + label_of(t, structs, tb))
    }
}

/// 表达式类型推导：sc 为变量类型表，funcs 为函数表
pub open spec fn spec_ty_of(
    e: SExpr,
    sc: Map<Seq<char>, Ty>,
    funcs: Map<Seq<char>, FSig>,
    structs: Seq<StructDef>,
    tb: TbView,
) -> TR
    decreases e, 0int,
{
    match e {
        SExpr::Int(_) => Ok(Ty::I64),
        SExpr::Float(_) => Ok(Ty::F64),
        SExpr::Str(_) => Ok(Ty::Str),
        SExpr::Bool(_) => Ok(Ty::Bool),
        SExpr::Var(n) => if sc.contains_key(n) {
            Ok(sc[n])
        } else {
            terr("变量 '"@ + n + "' 未声明"@)
        },
        SExpr::Field(b, f) => match spec_ty_of(*b, sc, funcs, structs, tb) {
            Err(x) => Err(x),
            Ok(t) => spec_field_ty(snorm(t), f, structs, tb),
        },
        SExpr::StructLit { name, .. } => {
            let k = struct_pos(structs, name, 0);
            if k < structs.len() {
                Ok(Ty::Struct(k as u32))
            } else {
                terr("未知结构体 '"@ + name + "'"@)
            }
        },
        SExpr::ArrLit { arr, .. } => if (arr as int) < tb.arrs.len() {
            Ok(Ty::Arr(arr))
        } else {
            terr("内部错误：数组类型索引越界"@)
        },
        SExpr::Index(b, ix) => match spec_ty_of(*b, sc, funcs, structs, tb) {
            Err(x) => Err(x),
            Ok(t) => spec_index_ty(snorm(t), spec_ty_of(*ix, sc, funcs, structs, tb), structs, tb),
        },
        SExpr::Sub { .. } => Ok(Ty::Str),
        SExpr::DArrLit { darr, .. } => if (darr as int) < tb.darrs.len() {
            Ok(Ty::DArr(darr))
        } else {
            terr("内部错误：动态数组类型索引越界"@)
        },
        SExpr::MapLit { map, .. } => if (map as int) < tb.maps.len() {
            Ok(Ty::MapOf(map))
        } else {
            terr("内部错误：关联数组类型索引越界"@)
        },
        SExpr::Has { .. } => Ok(Ty::Bool),
        SExpr::Del { .. } => terr("del 不产生值（只能作为语句）"@),
        SExpr::Push { .. } => terr("push 不产生值（只能作为语句）"@),
        SExpr::Pop { .. } => terr("pop 不产生值（只能作为语句）"@),
        SExpr::Len(x) => match spec_ty_of(*x, sc, funcs, structs, tb) {
            Err(x) => Err(x),
            Ok(t0) => spec_len_ty(t0, structs, tb),
        },
        SExpr::Keys(m) => match spec_ty_of(*m, sc, funcs, structs, tb) {
            Err(x) => Err(x),
            Ok(t) => spec_snapshot_ty(snorm(t), true, structs, tb),
        },
        SExpr::Values(m) => match spec_ty_of(*m, sc, funcs, structs, tb) {
            Err(x) => Err(x),
            Ok(t) => spec_snapshot_ty(snorm(t), false, structs, tb),
        },
        SExpr::Sel { cond, a, b } => match spec_ty_of(*cond, sc, funcs, structs, tb) {
            Err(x) => Err(x),
            Ok(c0) => if snorm(c0) != Ty::Bool {
                terr("sel 条件必须是 bool，实际 "@ + label_of(snorm(c0), structs, tb))
            } else {
                match spec_ty_of(*a, sc, funcs, structs, tb) {
                    Err(x) => Err(x),
                    Ok(a0) => match spec_ty_of(*b, sc, funcs, structs, tb) {
                        Err(x) => Err(x),
                        Ok(b0) => match spec_sel_unify(
                            snorm(a0),
                            snorm(b0),
                            label_of(snorm(a0), structs, tb),
                            label_of(snorm(b0), structs, tb),
                        ) {
                            Ok(t) => Ok(t),
                            Err(m) => terr(m),
                        },
                    },
                }
            },
        },
        SExpr::TupExpr { elems, tup } => if (tup as int) >= tb.tuples.len() {
            terr("内部错误：元组类型索引越界"@)
        } else if elems.len() != tb.tuples[tup as int].len() {
            terr("元组元素个数与声明不符（内部错误）"@)
        } else {
            Ok(Ty::Tuple(tup))
        },
        SExpr::Neg(x) => match spec_ty_of(*x, sc, funcs, structs, tb) {
            Err(x) => Err(x),
            Ok(t) => if is_numeric_ty(t) {
                Ok(t)
            } else {
                terr("类型 "@ + spec_label(t) + " 不能取负号"@)
            },
        },
        SExpr::Bin { op, lhs, rhs } => match spec_ty_of(*lhs, sc, funcs, structs, tb) {
            Err(x) => Err(x),
            Ok(l0) => match spec_ty_of(*rhs, sc, funcs, structs, tb) {
                Err(x) => Err(x),
                Ok(r0) => spec_bin_ty(op, snorm(l0), snorm(r0)),
            },
        },
        SExpr::Borrow(x) => match spec_ty_of(*x, sc, funcs, structs, tb) {
            Err(x) => Err(x),
            Ok(t) => if t == Ty::Str {
                Ok(Ty::BorrowStr)
            } else if t is DArr || t is MapOf {
                Ok(t)
            } else {
                terr("只能借用 str、动态数组或 map，实际 "@ + spec_label(t))
            },
        },
        SExpr::Call { name, args } => if !funcs.contains_key(name) {
            terr("函数 '"@ + name + "' 未定义"@)
        } else {
            let sig = funcs[name];
            if sig.params.len() != args.len() {
                terr(
                    msg_nn(
                        "函数 '"@ + name + "' 期望 "@,
                        sig.params.len(),
                        " 个参数，实际 "@,
                        args.len(),
                        " 个"@,
                    ),
                )
            } else {
                match spec_check_args(args, sig.params, name, 0, sc, funcs, structs, tb) {
                    Err(x) => Err(x),
                    Ok(_) => Ok(sig.ret),
                }
            }
        },
        SExpr::Convert { name, arg } => match spec_ty_of(*arg, sc, funcs, structs, tb) {
            Err(x) => Err(x),
            Ok(t) => spec_convert_ty(name, t, *arg, structs, tb),
        },
    }
}

/// 从第 i 个起逐个校验实参：先推导类型，再按形参类型检查兼容
pub open spec fn spec_check_args(
    args: Seq<SExpr>,
    params: Seq<Ty>,
    name: Seq<char>,
    i: int,
    sc: Map<Seq<char>, Ty>,
    funcs: Map<Seq<char>, FSig>,
    structs: Seq<StructDef>,
    tb: TbView,
) -> TR
    decreases args, args.len() - i,
{
    if i < 0 || i >= args.len() || i >= params.len() {
        Ok(Ty::I64)
    } else {
        match spec_ty_of(args[i], sc, funcs, structs, tb) {
            Err(x) => Err(x),
            Ok(at) => if !value_assignable_s(params[i], at, args[i]) {
                terr(
                    "函数 '"@ + name + "' 的参数期望 "@ + spec_label(params[i]) + "，实际 "@ + spec_label(
                        at,
                    ),
                )
            } else {
                spec_check_args(args, params, name, i + 1, sc, funcs, structs, tb)
            },
        }
    }
}


pub(crate) fn s2(a: &str, b: &str) -> (r: String)
    ensures
        r@ == a@ + b@,
{
    let mut m = String::from_str(a);
    m.append(b);
    m
}

pub(crate) fn s3(a: &str, b: &str, c: &str) -> (r: String)
    ensures
        r@ == a@ + b@ + c@,
{
    let mut m = String::from_str(a);
    m.append(b);
    m.append(c);
    m
}

pub(crate) fn s5(a: &str, b: &str, c: &str, d: &str, e: &str) -> (r: String)
    ensures
        r@ == a@ + b@ + c@ + d@ + e@,
{
    let mut m = s3(a, b, c);
    m.append(d);
    m.append(e);
    m
}

pub(crate) fn s7(a: &str, b: &str, c: &str, d: &str, e: &str, f: &str, g: &str) -> (r: String)
    ensures
        r@ == a@ + b@ + c@ + d@ + e@ + f@ + g@,
{
    let mut m = s5(a, b, c, d, e);
    m.append(f);
    m.append(g);
    m
}

proof fn lemma_not_i64_digit(s: Seq<char>, d: Seq<char>, k: int)
    requires
        d == sign_stripped(s),
        0 <= k < d.len(),
        !is_digit(d[k]),
    ensures
        !parses_i64(s),
{
}

proof fn lemma_i64_overflow(s: Seq<char>, d: Seq<char>, k: int)
    requires
        d == sign_stripped(s),
        0 <= k <= d.len(),
        decimal_value(d.take(k)) > (if s.len() > 0 && s[0] == '-' {
            9223372036854775808int
        } else {
            9223372036854775807int
        }),
    ensures
        !parses_i64(s),
{
    if all_digits(d) {
        crate::lexer::lemma_decimal_prefix(d, k);
    }
}

/// 是否为 `str::parse::<i64>` 接受的文本
pub fn is_i64_literal(s: &str) -> (r: bool)
    ensures
        r == parses_i64(s@),
{
    let cs = chars_of(s);
    let signed = cs.len() > 0 && (cs[0] == '+' || cs[0] == '-');
    let neg = signed && cs[0] == '-';
    let start: usize = if signed {
        1
    } else {
        0
    };
    let ghost d = sign_stripped(s@);
    assert(d =~= cs@.subrange(start as int, cs@.len() as int));
    if start >= cs.len() {
        assert(d.len() == 0);
        return false;
    }
    let limit: u128 = if neg {
        9223372036854775808
    } else {
        9223372036854775807
    };
    let mut acc: u128 = 0;
    let mut i: usize = start;
    while i < cs.len()
        invariant
            start <= i <= cs@.len(),
            cs@ == s@,
            d =~= cs@.subrange(start as int, cs@.len() as int),
            forall|j: int| 0 <= j < i - start ==> is_digit(#[trigger] d[j]),
            acc as int == decimal_value(d.take(i - start)),
            acc <= limit,
            limit == (if s@.len() > 0 && s@[0] == '-' {
                9223372036854775808u128
            } else {
                9223372036854775807u128
            }),
            d == sign_stripped(s@),
        decreases cs@.len() - i,
    {
        let c = cs[i];
        if !('0' <= c && c <= '9') {
            proof {
                assert(d[i - start] == c);
                lemma_not_i64_digit(s@, d, i - start);
            }
            return false;
        }
        let dv: u128 = (c as u32 - '0' as u32) as u128;
        assert(d.take(i - start + 1).drop_last() =~= d.take(i - start));
        assert(d[i - start] == c);
        assert(decimal_value(d.take(i - start + 1)) == 10 * decimal_value(d.take(i - start)) + (c as int
            - '0' as int));
        acc = acc * 10 + dv;
        if acc > limit {
            proof {
                lemma_i64_overflow(s@, d, i - start + 1);
            }
            return false;
        }
        i = i + 1;
    }
    assert(d.take(d.len() as int) =~= d);
    true
}

/// 字段名列表
fn field_name_list(sd: &StructDef) -> (r: Vec<String>)
    ensures
        strings_view(r@) == field_names(*sd),
{
    let mut r: Vec<String> = Vec::new();
    let mut i: usize = 0;
    while i < sd.fields.len()
        invariant
            i <= sd.fields@.len(),
            strings_view(r@) == field_names(*sd).take(i as int),
        decreases sd.fields@.len() - i,
    {
        let n = sd.fields[i].name.clone();
        let ghost r0 = r@;
        r.push(n);
        assert(strings_view(r@) =~= strings_view(r0).push(n@));
        assert(field_names(*sd).take(i + 1) =~= field_names(*sd).take(i as int).push(field_names(*sd)[i as int]));
        i = i + 1;
    }
    assert(field_names(*sd).take(sd.fields@.len() as int) =~= field_names(*sd));
    r
}

/// 取字段的类型
fn field_type_of(bt: Ty, fname: &str, structs: &[StructDef], tables: &TypeTables) -> (r: Result<Ty, CheckError>)
    ensures
        ty_result(r, spec_field_ty(bt, fname@, structs@, tables@)),
{
    let sd = match struct_by_id(structs, bt) {
        Some(sd) => sd,
        None => {
            let l = ty_label(bt, structs, tables);
            return Err(err(0, s3("类型 ", l.as_str(), " 没有字段（只有结构体能取字段）")));
        },
    };
    match field_ty(sd, fname) {
        Some(t) => {
            proof {
                let k = choose|k: int|
                    0 <= k < sd.fields@.len() && #[trigger] sd.fields@[k].name@ == fname@ && t
                        == sd.fields@[k].ty && forall|j: int| 0 <= j < k ==> sd.fields@[j].name@ != fname@;
                lemma_field_pos(sd.fields@, fname@, k, 0);
            }
            Ok(t)
        },
        None => {
            proof {
                lemma_field_pos(sd.fields@, fname@, sd.fields@.len() as int, 0);
            }
            let names = field_name_list(sd);
            let cands = similar_candidates(fname, names.as_slice());
            let mut e = err(0, s5("结构体 '", sd.name.as_str(), "' 没有字段 '", fname, "'"));
            if cands.len() > 0 {
                e.hint = s3("是否想用 '", cands[0].as_str(), "'？");
                proof {
                    assert(strings_view(cands@)[0] == cands@[0]@);
                }
            }
            e.candidates = cands;
            Err(e)
        },
    }
}

/// 动态数组表中元素类型为 elem 的第一个位置（没有则为表长）
fn darr_position(darrs: &Vec<DArrDef>, elem: Ty) -> (r: usize)
    ensures
        r as int == index_from(darrs@, DArrDef { elem }, 0),
{
    let d = DArrDef { elem };
    let mut i: usize = 0;
    while i < darrs.len()
        invariant
            i <= darrs@.len(),
            d == (DArrDef { elem }),
            index_from(darrs@, d, 0) == index_from(darrs@, d, i as int),
        decreases darrs@.len() - i,
    {
        if darrs[i] == d {
            return i;
        }
        i = i + 1;
    }
    i
}

/// keys(m) / values(m) 的类型
pub(crate) fn snapshot_type_of(bt: Ty, keys: bool, structs: &[StructDef], tables: &TypeTables) -> (r: Result<Ty, CheckError>)
    ensures
        ty_result(r, spec_snapshot_ty(bt, keys, structs@, tables@)),
{
    let m = match map_by_id(tables.maps.as_slice(), bt) {
        Some(m) => *m,
        None => {
            let l = ty_label(bt, structs, tables);
            if keys {
                return Err(err(0, s2("keys() 实参必须是 map，实际 ", l.as_str())));
            } else {
                return Err(err(0, s2("values() 实参必须是 map，实际 ", l.as_str())));
            }
        },
    };
    let elem = if keys {
        m.key
    } else {
        m.val
    };
    let pos = darr_position(&tables.darrs, elem);
    if pos < tables.darrs.len() {
        Ok(Ty::DArr(pos as u32))
    } else if keys {
        Err(err(0, String::from_str("内部错误：map 键类型无对应动态数组")))
    } else {
        Err(err(0, String::from_str("内部错误：map 值类型无对应动态数组")))
    }
}

fn is_cmp(op: BinOp) -> (r: bool)
    ensures
        r == is_cmp_op(op),
{
    op == BinOp::Lt || op == BinOp::Gt || op == BinOp::Le || op == BinOp::Ge || op == BinOp::Eq
        || op == BinOp::Ne
}

/// 二元运算的类型
pub(crate) fn bin_type_of(op: BinOp, lt: Ty, rt: Ty) -> (r: Result<Ty, CheckError>)
    ensures
        ty_result(r, spec_bin_ty(op, lt, rt)),
{
    if is_cmp(op) {
        let ok = (lt.is_numeric() && rt.is_numeric()) || (lt == Ty::Str && rt == Ty::Str && (op
            == BinOp::Eq || op == BinOp::Ne)) || (lt == Ty::Bool && rt == Ty::Bool && (op == BinOp::Eq
            || op == BinOp::Ne));
        if ok {
            Ok(Ty::Bool)
        } else {
            Err(err(0, s7("类型 ", lt.label(), " 与 ", rt.label(), " 不能用 ", op.c_str(), " 比较")))
        }
    } else if lt.is_numeric() && rt.is_numeric() {
        Ok(
            if lt == Ty::F64 || rt == Ty::F64 {
                Ty::F64
            } else {
                Ty::I64
            },
        )
    } else if op == BinOp::Add && lt == Ty::Str && rt == Ty::Str {
        Ok(Ty::Str)
    } else if lt == Ty::Str || rt == Ty::Str {
        Err(err(0, s3("str 与数字不能混算 ", op.c_str(), "，请用 tos() 显式转换")))
    } else {
        let m = s5("类型 ", lt.label(), " 与 ", rt.label(), " 不参与算术运算 ");
        let mut m2 = m;
        m2.append(op.c_str());
        Err(err(0, m2))
    }
}

/// 转换函数的类型
pub(crate) fn convert_type_of(name: &str, t: Ty, arg: &Expr, structs: &[StructDef], tables: &TypeTables) -> (r:
    Result<Ty, CheckError>)
    ensures
        ty_result(r, spec_convert_ty(name@, t, arg@, structs@, tables@)),
{
    if str_eq(name, "tof") {
        if norm(t) != Ty::Str {
            let l = ty_label(t, structs, tables);
            return Err(err(0, s2("tof 实参必须是 str，实际 ", l.as_str())));
        }
        return Ok(Ty::F64);
    }
    if str_eq(name, "toi") {
        if t == Ty::I32 || t == Ty::I64 || t == Ty::F64 {
            return Ok(Ty::I64);
        }
        if t == Ty::Str {
            return match arg {
                Expr::Str(s) => {
                    if is_i64_literal(s.as_str()) {
                        Ok(Ty::I64)
                    } else {
                        Err(err(0, s3("字符串 '", s.as_str(), "' 无法转换为整数")))
                    }
                },
                _ => Err(err(0, String::from_str("toi 不能用于非字面量字符串（v0.1）"))),
            };
        }
        return Err(err(0, s2("toi 不能用于 ", t.label())));
    }
    Ok(Ty::Str)
}


/// 无值结果与推导规约一致（成功时不关心值）
pub open spec fn unit_result(r: Result<(), CheckError>, sr: TR) -> bool {
    match sr {
        Ok(_) => r is Ok,
        Err((m, h, c)) => r is Err && r->Err_0.msg@ == m && r->Err_0.line == 0 && r->Err_0.hint@ == h
            && strings_view(r->Err_0.candidates@) == c,
    }
}

/// 变量的类型
fn var_type_of<S: TyLookup>(name: &str, scope: &S) -> (r: Result<Ty, CheckError>)
    ensures
        ty_result(
            r,
            if scope.ty_map().contains_key(name@) {
                Ok(scope.ty_map()[name@])
            } else {
                terr("变量 '"@ + name@ + "' 未声明"@)
            },
        ),
{
    match scope.lookup_ty(name) {
        Some(t) => Ok(t),
        None => Err(err(0, s3("变量 '", name, "' 未声明"))),
    }
}

/// 结构体字面量的类型
fn struct_lit_type(name: &str, structs: &[StructDef]) -> (r: Result<Ty, CheckError>)
    ensures
        ty_result(
            r,
            if struct_pos(structs@, name@, 0) < structs@.len() {
                Ok(Ty::Struct(struct_pos(structs@, name@, 0) as u32))
            } else {
                terr("未知结构体 '"@ + name@ + "'"@)
            },
        ),
{
    match struct_by_name(structs, name) {
        Some((i, _)) => {
            proof {
                let k = choose|k: int|
                    0 <= k < structs@.len() && #[trigger] structs@[k].name@ == name@ && i == k as u32
                        && forall|j: int| 0 <= j < k ==> structs@[j].name@ != name@;
                lemma_struct_pos(structs@, name@, k, 0);
            }
            Ok(Ty::Struct(i))
        },
        None => {
            proof {
                lemma_struct_pos(structs@, name@, structs@.len() as int, 0);
            }
            Err(err(0, s3("未知结构体 '", name, "'")))
        },
    }
}

/// 非 map 基类型的下标类型（下标类型 t1 已推导）
fn index_elem_type(bt: Ty, t1: Ty, structs: &[StructDef], tables: &TypeTables) -> (r: Result<Ty, CheckError>)
    requires
        !(bt is MapOf && (bt->MapOf_0 as int) < tables.maps@.len()),
    ensures
        ty_result(r, spec_index_ty(bt, Ok(t1), structs@, tables@)),
{
    let it = norm(t1);
    if !(it == Ty::I32 || it == Ty::I64) {
        let l = ty_label(it, structs, tables);
        return Err(err(0, s2("数组下标必须是整数，实际 ", l.as_str())));
    }
    if bt == Ty::Str {
        return Ok(Ty::I64);
    }
    if let Some(a) = arr_by_id(tables.arrs.as_slice(), bt) {
        return Ok(a.elem);
    }
    if let Some(d) = darr_by_id(tables.darrs.as_slice(), bt) {
        return Ok(d.elem);
    }
    let l = ty_label(bt, structs, tables);
    Err(err(0, s3("类型 ", l.as_str(), " 不能取下标（只有数组、str 和 map 能用 [i]）")))
}

/// len() 的类型（t 为实参类型）
pub(crate) fn len_type_of(t0: Ty, structs: &[StructDef], tables: &TypeTables) -> (r: Result<Ty, CheckError>)
    ensures
        ty_result(r, spec_len_ty(t0, structs@, tables@)),
{
    let t = norm(t0);
    if t.is_arr() || t == Ty::Str || t.is_darr() || t.is_map() {
        Ok(Ty::I64)
    } else {
        let l = ty_label(t, structs, tables);
        Err(err(0, s2("len() 只能用于数组、str 或 map，实际 ", l.as_str())))
    }
}

/// 借用 &x 的类型
pub(crate) fn borrow_type_of(t: Ty) -> (r: Result<Ty, CheckError>)
    ensures
        ty_result(
            r,
            if t == Ty::Str {
                Ok(Ty::BorrowStr)
            } else if t is DArr || t is MapOf {
                Ok(t)
            } else {
                terr("只能借用 str、动态数组或 map，实际 "@ + spec_label(t))
            },
        ),
{
    if t == Ty::Str {
        Ok(Ty::BorrowStr)
    } else if t.is_darr() || t.is_map() {
        Ok(t)
    } else {
        Err(err(0, s2("只能借用 str、动态数组或 map，实际 ", t.label())))
    }
}

/// 取负号的类型
fn neg_type_of(t: Ty) -> (r: Result<Ty, CheckError>)
    ensures
        ty_result(
            r,
            if is_numeric_ty(t) {
                Ok(t)
            } else {
                terr("类型 "@ + spec_label(t) + " 不能取负号"@)
            },
        ),
{
    if t.is_numeric() {
        Ok(t)
    } else {
        Err(err(0, s3("类型 ", t.label(), " 不能取负号")))
    }
}

/// 元组表达式的类型
fn tuple_type_of(n: usize, tup: u32, tables: &TypeTables) -> (r: Result<Ty, CheckError>)
    ensures
        ty_result(
            r,
            if (tup as int) >= tables.tuples@.len() {
                terr("内部错误：元组类型索引越界"@)
            } else if n != tables.tuples@[tup as int].elems@.len() {
                terr("元组元素个数与声明不符（内部错误）"@)
            } else {
                Ok(Ty::Tuple(tup))
            },
        ),
{
    if (tup as usize) >= tables.tuples.len() {
        return Err(err(0, String::from_str("内部错误：元组类型索引越界")));
    }
    if n != tables.tuples[tup as usize].elems.len() {
        return Err(err(0, String::from_str("元组元素个数与声明不符（内部错误）")));
    }
    Ok(Ty::Tuple(tup))
}

/// sel 的类型（条件与两分支类型均已推导）
fn sel_type_of(c0: Ty, a0: Ty, b0: Ty, structs: &[StructDef], tables: &TypeTables) -> (r: Result<Ty, CheckError>)
    ensures
        ty_result(
            r,
            if snorm(c0) != Ty::Bool {
                terr("sel 条件必须是 bool，实际 "@ + label_of(snorm(c0), structs@, tables@))
            } else {
                match spec_sel_unify(
                    snorm(a0),
                    snorm(b0),
                    label_of(snorm(a0), structs@, tables@),
                    label_of(snorm(b0), structs@, tables@),
                ) {
                    Ok(t) => Ok(t),
                    Err(m) => terr(m),
                }
            },
        ),
{
    let ct = norm(c0);
    if ct != Ty::Bool {
        let l = ty_label(ct, structs, tables);
        return Err(err(0, s2("sel 条件必须是 bool，实际 ", l.as_str())));
    }
    let r = sel_unify(norm(a0), norm(b0), structs, tables, 0);
    proof {
        if r is Err {
            assert(strings_view(r->Err_0.candidates@) =~= Seq::<Seq<char>>::empty());
            assert(r->Err_0.hint@ =~= Seq::<char>::empty());
        }
    }
    r
}

/// 容器字面量的类型：序号在表内则为该类型，否则报内部错误
fn table_lit_type(idx: u32, n: usize, t: Ty, msg: &str) -> (r: Result<Ty, CheckError>)
    ensures
        ty_result(
            r,
            if (idx as int) < n {
                Ok(t)
            } else {
                terr(msg@)
            },
        ),
{
    if (idx as usize) < n {
        Ok(t)
    } else {
        Err(err(0, String::from_str(msg)))
    }
}

/// 表达式类型推导（检查器与后端共用）
#[verifier::spinoff_prover]
#[verifier::rlimit(80)]
pub fn ty_of<S: TyLookup>(
    expr: &Expr,
    scope: &S,
    funcs: &FuncTable,
    structs: &[StructDef],
    tables: &TypeTables,
) -> (r: Result<Ty, CheckError>)
    ensures
        ty_result(r, spec_ty_of(expr@, scope.ty_map(), funcs.view(), structs@, tables@)),
    decreases expr, 0int,
{
    match expr {
        Expr::Int(_) => Ok(Ty::I64),
        Expr::Float(_) => Ok(Ty::F64),
        Expr::Str(_) => Ok(Ty::Str),
        Expr::Bool(_) => Ok(Ty::Bool),
        Expr::Var(name) => var_type_of(name.as_str(), scope),
        Expr::Field(base, fname) => {
            let t = ty_of(base, scope, funcs, structs, tables)?;
            field_type_of(norm(t), fname.as_str(), structs, tables)
        },
        Expr::StructLit { name, .. } => struct_lit_type(name.as_str(), structs),
        Expr::ArrLit { arr, .. } => table_lit_type(
            *arr,
            tables.arrs.len(),
            Ty::Arr(*arr),
            "内部错误：数组类型索引越界",
        ),
        Expr::Index(base, idx) => {
            let bt = norm(ty_of(base, scope, funcs, structs, tables)?);
            if let Some(m) = map_by_id(tables.maps.as_slice(), bt) {
                return Ok(m.val);
            }
            let t1 = ty_of(idx, scope, funcs, structs, tables)?;
            index_elem_type(bt, t1, structs, tables)
        },
        Expr::Sub { .. } => Ok(Ty::Str),
        Expr::DArrLit { darr, .. } => table_lit_type(
            *darr,
            tables.darrs.len(),
            Ty::DArr(*darr),
            "内部错误：动态数组类型索引越界",
        ),
        Expr::MapLit { map, .. } => table_lit_type(
            *map,
            tables.maps.len(),
            Ty::MapOf(*map),
            "内部错误：关联数组类型索引越界",
        ),
        Expr::Has { .. } => Ok(Ty::Bool),
        Expr::Del { .. } => Err(err(0, String::from_str("del 不产生值（只能作为语句）"))),
        Expr::Push { .. } => Err(err(0, String::from_str("push 不产生值（只能作为语句）"))),
        Expr::Pop { .. } => Err(err(0, String::from_str("pop 不产生值（只能作为语句）"))),
        Expr::Len(inner) => {
            let t = ty_of(inner, scope, funcs, structs, tables)?;
            len_type_of(t, structs, tables)
        },
        Expr::Keys(m) => {
            let t = ty_of(m, scope, funcs, structs, tables)?;
            snapshot_type_of(norm(t), true, structs, tables)
        },
        Expr::Values(m) => {
            let t = ty_of(m, scope, funcs, structs, tables)?;
            snapshot_type_of(norm(t), false, structs, tables)
        },
        Expr::Sel { cond, a, b } => {
            let c0 = ty_of(cond, scope, funcs, structs, tables)?;
            if norm(c0) != Ty::Bool {
                return sel_type_of(c0, Ty::Bool, Ty::Bool, structs, tables);
            }
            let a0 = ty_of(a, scope, funcs, structs, tables)?;
            let b0 = ty_of(b, scope, funcs, structs, tables)?;
            sel_type_of(c0, a0, b0, structs, tables)
        },
        Expr::TupExpr { elems, tup } => {
            proof {
                assert(exprs_view(elems@).len() == elems@.len());
            }
            tuple_type_of(elems.len(), *tup, tables)
        },
        Expr::Neg(x) => {
            let t = ty_of(x, scope, funcs, structs, tables)?;
            neg_type_of(t)
        },
        Expr::Bin { op, lhs, rhs } => {
            let l0 = ty_of(lhs, scope, funcs, structs, tables)?;
            let r0 = ty_of(rhs, scope, funcs, structs, tables)?;
            bin_type_of(*op, norm(l0), norm(r0))
        },
        Expr::Borrow(inner) => {
            let t = ty_of(inner, scope, funcs, structs, tables)?;
            borrow_type_of(t)
        },
        Expr::Call { name, args } => call_type_of(name.as_str(), args, scope, funcs, structs, tables),
        Expr::Convert { name, arg } => {
            let t = ty_of(arg, scope, funcs, structs, tables)?;
            convert_type_of(name.as_str(), t, arg, structs, tables)
        },
    }
}

/// 函数调用的类型：声明的返回类型；实参个数与类型须与形参相符
fn call_type_of<S: TyLookup>(
    name: &str,
    args: &Vec<Expr>,
    scope: &S,
    funcs: &FuncTable,
    structs: &[StructDef],
    tables: &TypeTables,
) -> (r: Result<Ty, CheckError>)
    ensures
        ty_result(
            r,
            spec_ty_of(
                SExpr::Call { name: name@, args: exprs_view(args@) },
                scope.ty_map(),
                funcs.view(),
                structs@,
                tables@,
            ),
        ),
    decreases args, 1int,
{
    let sig = match funcs.get(name) {
        Some(sig) => sig,
        None => {
            return Err(err(0, s3("函数 '", name, "' 未定义")));
        },
    };
    if sig.params.len() != args.len() {
        let head = s3("函数 '", name, "' 期望 ");
        return Err(err(0, cat_nn(head.as_str(), sig.params.len(), " 个参数，实际 ", args.len(), " 个")));
    }
    check_args(args, &sig.params, name, scope, funcs, structs, tables)?;
    Ok(sig.ret)
}

/// 逐个校验调用实参：先推导类型，再按形参类型检查兼容
fn check_args<S: TyLookup>(
    args: &Vec<Expr>,
    params: &Vec<Ty>,
    name: &str,
    scope: &S,
    funcs: &FuncTable,
    structs: &[StructDef],
    tables: &TypeTables,
) -> (r: Result<(), CheckError>)
    ensures
        unit_result(
            r,
            spec_check_args(
                exprs_view(args@),
                params@,
                name@,
                0,
                scope.ty_map(),
                funcs.view(),
                structs@,
                tables@,
            ),
        ),
    decreases args, 0int,
{
    let ghost av = exprs_view(args@);
    let mut i: usize = 0;
    while i < args.len() && i < params.len()
        invariant
            i <= args@.len(),
            av == exprs_view(args@),
            spec_check_args(av, params@, name@, 0, scope.ty_map(), funcs.view(), structs@, tables@)
                == spec_check_args(av, params@, name@, i as int, scope.ty_map(), funcs.view(), structs@, tables@),
        decreases args@.len() - i,
    {
        proof {
            assert(av[i as int] == args@[i as int]@);
        }
        let at = ty_of(&args[i], scope, funcs, structs, tables)?;
        if !value_assignable(params[i], at, &args[i]) {
            let mut m = s5("函数 '", name, "' 的参数期望 ", params[i].label(), "，实际 ");
            m.append(at.label());
            return Err(err(0, m));
        }
        i = i + 1;
    }
    Ok(())
}


// ───────────────────────── 所有权分析（后端共用） ─────────────────────────

/// e 是否在“移动位”消费了变量 name 的所有权（is_top：e 本身处于移动位）
pub open spec fn spec_consumes(e: SExpr, name: Seq<char>, is_top: bool, funcs: Map<Seq<char>, FSig>) -> bool
    decreases e, 0int,
{
    match e {
        SExpr::Var(n) => is_top && n == name,
        SExpr::Neg(x) => spec_consumes(*x, name, false, funcs),
        SExpr::Bin { lhs, rhs, .. } => spec_consumes(*lhs, name, false, funcs) || spec_consumes(
            *rhs,
            name,
            false,
            funcs,
        ),
        SExpr::Call { name: f, args } => funcs.contains_key(f) && spec_consumes_args(args, funcs[f], name, 0, funcs),
        SExpr::Convert { arg, .. } => spec_consumes(*arg, name, false, funcs),
        _ => false,
    }
}

/// 第 i 个实参位是否接管所有权：形参为堆类型且不是借用形参
pub open spec fn param_takes(sig: FSig, i: int) -> bool {
    spec_is_owned(sig.params[i]) && !(i < sig.borrows.len() && sig.borrows[i])
}

/// 从第 i 个起，是否有实参在接管所有权的形参位上消费了 name（借用形参不消费）
pub open spec fn spec_consumes_args(
    args: Seq<SExpr>,
    sig: FSig,
    name: Seq<char>,
    i: int,
    funcs: Map<Seq<char>, FSig>,
) -> bool
    decreases args, args.len() - i,
{
    if i < 0 || i >= args.len() || i >= sig.params.len() {
        false
    } else {
        (param_takes(sig, i) && spec_consumes(args[i], name, true, funcs)) || spec_consumes_args(
            args,
            sig,
            name,
            i + 1,
            funcs,
        )
    }
}

/// 判断 e 是否在“移动位”消费了变量 name 的所有权（如 `a = g(a)` 中 g 以堆类型形参接管 a）：
/// 此时重新绑定前不可再释放旧值；传给借用形参（&[]T、&map）的实参不移动，不算消费
pub fn consumes_var(e: &Expr, name: &str, is_top: bool, sigs: &FuncTable) -> (r: bool)
    ensures
        r == spec_consumes(e@, name@, is_top, sigs.view()),
    decreases e, 0int,
{
    match e {
        Expr::Var(n) => is_top && str_eq(n.as_str(), name),
        Expr::Neg(x) => consumes_var(x, name, false, sigs),
        Expr::Bin { lhs, rhs, .. } => consumes_var(lhs, name, false, sigs) || consumes_var(
            rhs,
            name,
            false,
            sigs,
        ),
        Expr::Call { name: fname, args } => match sigs.get(fname.as_str()) {
            Some(sig) => consumes_args(args, sig, name, sigs),
            None => false,
        },
        Expr::Convert { arg, .. } => consumes_var(arg, name, false, sigs),
        _ => false,
    }
}

fn consumes_args(args: &Vec<Expr>, sig: &FuncSig, name: &str, sigs: &FuncTable) -> (r: bool)
    ensures
        r == spec_consumes_args(exprs_view(args@), fsig_view(*sig), name@, 0, sigs.view()),
    decreases args, 1int,
{
    let ghost av = exprs_view(args@);
    let ghost fs = fsig_view(*sig);
    let mut i: usize = 0;
    while i < args.len() && i < sig.params.len()
        invariant
            i <= args@.len(),
            av == exprs_view(args@),
            fs == fsig_view(*sig),
            spec_consumes_args(av, fs, name@, 0, sigs.view()) == spec_consumes_args(
                av,
                fs,
                name@,
                i as int,
                sigs.view(),
            ),
        decreases args@.len() - i,
    {
        proof {
            assert(av[i as int] == args@[i as int]@);
        }
        let borrowed = i < sig.borrows.len() && sig.borrows[i];
        if is_owned(sig.params[i]) && !borrowed && consumes_var(&args[i], name, true, sigs) {
            return true;
        }
        i = i + 1;
    }
    false
}

/// 推导结果的类型，失败时按 i64
pub open spec fn ty_or_i64(r: TR) -> Ty {
    match r {
        Ok(t) => t,
        Err(_) => Ty::I64,
    }
}

/// 堆类型且尚未收集的名字追加到末尾
pub open spec fn add_owned(out: Seq<Seq<char>>, n: Seq<char>, t: Ty) -> Seq<Seq<char>> {
    if spec_is_owned(t) && !out.contains(n) {
        out.push(n)
    } else {
        out
    }
}

/// 收集状态：变量类型表与已收集的名字
pub type Collected = (Map<Seq<char>, Ty>, Seq<Seq<char>>);

/// 解构声明：第 i 个名字起按元组元素类型登记（缺的按 i64）
pub open spec fn spec_collect_names(names: Seq<Seq<char>>, elems: Seq<Ty>, i: int, st: Collected) -> Collected
    decreases names.len() - i,
{
    if i < 0 || i >= names.len() {
        st
    } else {
        let t = if i < elems.len() {
            elems[i]
        } else {
            Ty::I64
        };
        spec_collect_names(names, elems, i + 1, (st.0.insert(names[i], t), add_owned(st.1, names[i], t)))
    }
}

/// 一条语句的收集
pub open spec fn spec_collect_stmt(
    s: SStmt,
    st: Collected,
    funcs: Map<Seq<char>, FSig>,
    structs: Seq<StructDef>,
    tb: TbView,
) -> Collected
    decreases s, 0int,
{
    match s {
        SStmt::Decl { name, ty, value, .. } => {
            let t = match ty {
                Some(t) => t,
                None => ty_or_i64(spec_ty_of(value, st.0, funcs, structs, tb)),
            };
            (st.0.insert(name, t), add_owned(st.1, name, t))
        },
        SStmt::MultiDecl { names, value, .. } => {
            let vt = ty_or_i64(spec_ty_of(value, st.0, funcs, structs, tb));
            if vt is Tuple && (vt->Tuple_0 as int) < tb.tuples.len() {
                spec_collect_names(names, tb.tuples[vt->Tuple_0 as int], 0, st)
            } else {
                st
            }
        },
        SStmt::While { body, .. } => spec_collect(body, st, funcs, structs, tb),
        SStmt::If { body, else_body, .. } => {
            let st1 = spec_collect(body, st, funcs, structs, tb);
            match else_body {
                Some(eb) => spec_collect(eb, st1, funcs, structs, tb),
                None => st1,
            }
        },
        _ => st,
    }
}

/// 语句序列的收集（按顺序，块内声明同样登记）
pub open spec fn spec_collect(
    ss: Seq<SStmt>,
    st: Collected,
    funcs: Map<Seq<char>, FSig>,
    structs: Seq<StructDef>,
    tb: TbView,
) -> Collected
    decreases ss, 1int,
{
    if ss.len() == 0 {
        st
    } else {
        spec_collect_stmt(
            ss[ss.len() - 1],
            spec_collect(ss.subrange(0, ss.len() - 1), st, funcs, structs, tb),
            funcs,
            structs,
            tb,
        )
    }
}

/// 名字是否已在列表中
fn name_listed(out: &Vec<String>, name: &str) -> (r: bool)
    ensures
        r == strings_view(out@).contains(name@),
{
    let mut i: usize = 0;
    while i < out.len()
        invariant
            i <= out@.len(),
            forall|j: int| 0 <= j < i ==> strings_view(out@)[j] != name@,
        decreases out@.len() - i,
    {
        if str_eq(out[i].as_str(), name) {
            assert(strings_view(out@)[i as int] == name@);
            return true;
        }
        i = i + 1;
    }
    false
}

/// 登记一个变量，堆类型且未收集时追加其名
fn record_decl(name: &String, t: Ty, scope: &mut TyScope, out: &mut Vec<String>)
    ensures
        final(scope)@ == old(scope)@.insert(name@, t),
        strings_view(final(out)@) == add_owned(strings_view(old(out)@), name@, t),
{
    scope.insert(name.clone(), t);
    if is_owned(t) && !name_listed(out, name.as_str()) {
        let ghost o = out@;
        out.push(name.clone());
        assert(strings_view(out@) =~= strings_view(o).push(name@));
    }
}

/// 递归收集语句块内声明的全部受所有权约束的变量（str 与结构体，按首次出现顺序去重），
/// 供后端做“槽位提升 + 作用域出口释放”；scope 随声明更新
pub fn collect_str_decls(
    stmts: &Vec<Stmt>,
    scope: &mut TyScope,
    sigs: &FuncTable,
    structs: &[StructDef],
    tables: &TypeTables,
    out: &mut Vec<String>,
)
    ensures
        (final(scope)@, strings_view(final(out)@)) == spec_collect(
            stmts_view(stmts@),
            (old(scope)@, strings_view(old(out)@)),
            sigs.view(),
            structs@,
            tables@,
        ),
    decreases stmts, 1int,
{
    let ghost ss = stmts_view(stmts@);
    let ghost st0: Collected = (scope@, strings_view(out@));
    let mut i: usize = 0;
    while i < stmts.len()
        invariant
            i <= stmts@.len(),
            ss == stmts_view(stmts@),
            (scope@, strings_view(out@)) == spec_collect(ss.take(i as int), st0, sigs.view(), structs@, tables@),
        decreases stmts@.len() - i,
    {
        proof {
            assert(ss[i as int] == stmts@[i as int]@);
            assert(ss.take(i + 1).subrange(0, i as int) =~= ss.take(i as int));
        }
        collect_stmt(&stmts[i], scope, sigs, structs, tables, out);
        i = i + 1;
    }
    proof {
        assert(ss.take(stmts@.len() as int) =~= ss);
    }
}

/// 一条语句的收集
fn collect_stmt(
    s: &Stmt,
    scope: &mut TyScope,
    sigs: &FuncTable,
    structs: &[StructDef],
    tables: &TypeTables,
    out: &mut Vec<String>,
)
    ensures
        (final(scope)@, strings_view(final(out)@)) == spec_collect_stmt(
            s@,
            (old(scope)@, strings_view(old(out)@)),
            sigs.view(),
            structs@,
            tables@,
        ),
    decreases s, 0int,
{
    match s {
        Stmt::Decl { name, ty, value, .. } => {
            let t = match ty {
                Some(t) => *t,
                None => match ty_of(value, &*scope, sigs, structs, tables) {
                    Ok(t) => t,
                    Err(_) => Ty::I64,
                },
            };
            record_decl(name, t, scope, out);
        },
        Stmt::MultiDecl { names, value, .. } => {
            let vt = match ty_of(value, &*scope, sigs, structs, tables) {
                Ok(t) => t,
                Err(_) => Ty::I64,
            };
            if let Some(td) = tuple_by_id(tables.tuples.as_slice(), vt) {
                let ghost nv = strs_view(names@);
                let ghost st0: Collected = (scope@, strings_view(out@));
                let mut i: usize = 0;
                while i < names.len()
                    invariant
                        i <= names@.len(),
                        nv == strs_view(names@),
                        spec_collect_names(nv, td.elems@, 0, st0) == spec_collect_names(
                            nv,
                            td.elems@,
                            i as int,
                            (scope@, strings_view(out@)),
                        ),
                    decreases names@.len() - i,
                {
                    let t = if i < td.elems.len() {
                        td.elems[i]
                    } else {
                        Ty::I64
                    };
                    record_decl(&names[i], t, scope, out);
                    i = i + 1;
                }
            }
        },
        Stmt::While { cond, body, .. } => {
            let _ = ty_of(cond, &*scope, sigs, structs, tables);
            collect_str_decls(body, scope, sigs, structs, tables, out);
        },
        Stmt::If { body, else_body, .. } => {
            collect_str_decls(body, scope, sigs, structs, tables, out);
            match else_body {
                Some(eb) => collect_str_decls(eb, scope, sigs, structs, tables, out),
                None => {},
            }
        },
        _ => {},
    }
}

} // verus!
