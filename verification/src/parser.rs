//! 语法解析器：Token 流 → AST（手写递归下降）
//!
//! 规约部分（`sp_*`）逐一给出每个解析函数在 (Token 流, 解析状态) 上的结果；
//! 实现部分（`Parser` 的方法）被证明与之相等。`use` 导入需要读文件，
//! 解析器在遇到 `use 名字` 时交出 `ParseEvent::Import`，由调用方读入文件后接续。

use vstd::prelude::*;
use vstd::string::StringExecFns;
use crate::ast::{
    Ty, BinOp, Expr, Stmt, Param, Contract, FnDef, Program, StructDef, StructView, FieldDef,
    ArrDef, DArrDef, TupleDef, MapDef, SExpr, SStmt, SContract, SFnDef, expr_view, exprs_view,
    field_inits_view, entries_view, stmts_view, fields_view, strs_view, contracts_view,
    params_view, opt_str_view, spec_binop_str,
};
use crate::lexer::{Tok, TokenOf, SpecTok, view_spanned, spec_tok_display, is_plain};
use crate::text::{str_eq, int_text, radix_text, push_str_chars, push_decimal, string_of_all};
use crate::type_check::{structs_view, tuples_view};

verus! {

#[derive(Debug, Clone)]
pub struct ParseError {
    pub msg: String,
    pub line: usize,
}

/// 解析状态的规约视图（不含 Token 流本身）
pub struct PState {
    pub pos: int,
    pub structs: Seq<StructView>,
    pub arrs: Seq<ArrDef>,
    pub darrs: Seq<DArrDef>,
    pub tuples: Seq<Seq<Ty>>,
    pub maps: Seq<MapDef>,
    pub ret_stack: Seq<Ty>,
    pub last_type_borrow: bool,
    pub files: Seq<Seq<char>>,
}

/// 带行号的规约 Token 流
pub type TS = Seq<(SpecTok, int)>;

/// 解析结果：(值, 之后的状态) 或 (错误消息, 行号)
pub type PR<V> = Result<(V, PState), (Seq<char>, int)>;

// ───────────────────────── 规约：基础操作 ─────────────────────────

/// 当前 Token
pub open spec fn cur(t: TS, s: PState) -> SpecTok {
    if 0 <= s.pos < t.len() {
        t[s.pos].0
    } else {
        TokenOf::Eof
    }
}

/// 下一个 Token
pub open spec fn peek2(t: TS, s: PState) -> Option<SpecTok> {
    if 0 <= s.pos + 1 < t.len() {
        Some(t[s.pos + 1].0)
    } else {
        None
    }
}

/// 当前行号（越界时取最后一个 Token 的行号）
pub open spec fn cur_line(t: TS, s: PState) -> int {
    if t.len() == 0 {
        0
    } else if s.pos < t.len() - 1 {
        t[s.pos].1
    } else {
        t[t.len() - 1].1
    }
}

/// 前进一个 Token（停在最后一个 Token 上）
pub open spec fn adv(t: TS, s: PState) -> PState {
    if s.pos < t.len() - 1 {
        PState { pos: s.pos + 1, ..s }
    } else {
        s
    }
}

/// 错误：导入文件中的错误带文件名前缀，行号为当前 Token 的行号
pub open spec fn perr(t: TS, s: PState, raw: Seq<char>) -> (Seq<char>, int) {
    (
        if s.files.len() > 1 {
            "["@ + s.files.last() + "] "@ + raw
        } else {
            raw
        },
        cur_line(t, s),
    )
}

/// 期望当前 Token 为 want（不带负载）
pub open spec fn sp_expect(t: TS, s: PState, want: SpecTok) -> PR<()> {
    if cur(t, s) == want {
        Ok(((), adv(t, s)))
    } else {
        Err(
            perr(
                t,
                s,
                "期望 '"@ + spec_tok_display(want) + "'，实际 '"@ + spec_tok_display(cur(t, s))
                    + "'"@,
            ),
        )
    }
}

/// 期望标识符
pub open spec fn sp_expect_ident(t: TS, s: PState) -> PR<Seq<char>> {
    match cur(t, s) {
        TokenOf::Ident(name) => Ok((name, adv(t, s))),
        other => Err(perr(t, s, "期望标识符，实际 '"@ + spec_tok_display(other) + "'"@)),
    }
}

/// 跳过换行
pub open spec fn sp_skip_newlines(t: TS, s: PState) -> PState
    decreases t.len() - s.pos,
{
    if cur(t, s) is Newline && 0 <= s.pos < t.len() - 1 {
        sp_skip_newlines(t, adv(t, s))
    } else {
        s
    }
}

/// 语句结束：换行（吞掉），或 } / EOF（不吞）
pub open spec fn sp_expect_newline(t: TS, s: PState) -> PR<()> {
    match cur(t, s) {
        TokenOf::Newline => Ok(((), adv(t, s))),
        TokenOf::RBrace | TokenOf::Eof => Ok(((), s)),
        other => Err(perr(t, s, "语句应以换行结束，实际 '"@ + spec_tok_display(other) + "'"@)),
    }
}

/// 结果与规约一致（值经视图 f 比较）
pub open spec fn outcome<X, V>(
    r: Result<X, ParseError>,
    fin: PState,
    sr: PR<V>,
    f: spec_fn(X) -> V,
) -> bool {
    match sr {
        Ok((v, s2)) => r is Ok && f(r->Ok_0) == v && fin == s2,
        Err((m, l)) => r is Err && r->Err_0.msg@ == m && r->Err_0.line == l,
    }
}

// ───────────────────────── 实现：解析器状态 ─────────────────────────

pub struct Parser {
    toks: Vec<(Tok, usize)>,
    pos: usize,
    /// 已声明的结构体（顺序即 Ty::Struct 索引；必须先声明后使用）
    structs: Vec<StructDef>,
    /// 已出现的数组类型（按 (元素, 长度) 去重，顺序即 Ty::Arr 索引）
    arrs: Vec<ArrDef>,
    /// 动态数组类型（按元素去重，顺序即 Ty::DArr 索引）
    darrs: Vec<DArrDef>,
    /// 文件栈（use 导入时压栈；报错定位到具体文件）
    files: Vec<String>,
    /// 已导入文件的规范路径（防循环/重复导入）
    visited: Vec<String>,
    /// use 导入时保存的调用方 Token 流（导入文件解析完毕后弹回）
    saved: Vec<(Vec<(Tok, usize)>, usize)>,
    /// use 导入的模块名
    uses: Vec<String>,
    /// parse_type 是否消费了 & 前缀（&[]T、&map 借用标记，供 parse_fn 读取）
    last_type_borrow: bool,
    /// 元组类型表（按元素列表去重）
    tuples: Vec<TupleDef>,
    /// 当前函数返回类型栈（元组多值返回解析用）
    ret_stack: Vec<Ty>,
    /// 关联数组类型表（按 (key,val) 去重）
    maps: Vec<MapDef>,
    /// 已解析的函数与顶层语句
    funcs: Vec<FnDef>,
    top: Vec<Stmt>,
}

/// 元组的元素类型列表合法：2–4 个元素，且没有元组
pub open spec fn tuple_elems_ok(elems: Seq<Ty>) -> bool {
    &&& 2 <= elems.len() <= 4
    &&& forall|j: int| 0 <= j < elems.len() ==> !(#[trigger] elems[j] is Tuple)
}

/// 元组表中每个元组都合法
pub open spec fn tuple_table_ok(tuples: Seq<Seq<Ty>>) -> bool {
    forall|i: int| 0 <= i < tuples.len() ==> tuple_elems_ok(#[trigger] tuples[i])
}

/// 类型中的元组序号落在元组表内
pub open spec fn ty_ref_ok(t: Ty, ntuples: int) -> bool {
    match t {
        Ty::Tuple(k) => (k as int) < ntuples,
        _ => true,
    }
}

/// Token 流合法：非空、以 EOF 结尾
pub open spec fn toks_ok(t: TS) -> bool {
    t.len() >= 1 && t.last().0 is Eof
}

impl Parser {
    pub closed spec fn tv(&self) -> TS {
        view_spanned(self.toks@)
    }

    pub closed spec fn st(&self) -> PState {
        PState {
            pos: self.pos as int,
            structs: structs_view(self.structs@),
            arrs: self.arrs@,
            darrs: self.darrs@,
            tuples: tuples_view(self.tuples@),
            maps: self.maps@,
            ret_stack: self.ret_stack@,
            last_type_borrow: self.last_type_borrow,
            files: strs_view(self.files@),
        }
    }

    pub closed spec fn wf(&self) -> bool {
        &&& toks_ok(self.tv())
        &&& self.pos < self.toks@.len()
        &&& self.toks@.len() < usize::MAX
        &&& forall|i: int|
            0 <= i < self.ret_stack@.len() ==> ty_ref_ok(#[trigger] self.ret_stack@[i], self.tuples@.len() as int)
        &&& tuple_table_ok(tuples_view(self.tuples@))
        &&& tables_interned(self.darrs@, self.arrs@, self.maps@, tuples_view(self.tuples@))
        &&& struct_names_distinct(structs_view(self.structs@))
    }

    /// 解析期间不变的部分
    pub closed spec fn same_stream(&self, other: &Parser) -> bool {
        &&& self.toks == other.toks
        &&& self.files == other.files
        &&& self.visited == other.visited
        &&& self.saved == other.saved
        &&& self.uses == other.uses
        &&& self.funcs == other.funcs
        &&& self.top == other.top
    }

    fn peek(&self) -> (r: &Tok)
        requires
            self.wf(),
        ensures
            r@ == cur(self.tv(), self.st()),
    {
        &self.toks[self.pos].0
    }

    fn peek2(&self) -> (r: Option<&Tok>)
        requires
            self.wf(),
        ensures
            match peek2(self.tv(), self.st()) {
                Some(t) => r is Some && r->0@ == t,
                None => r is None,
            },
    {
        if self.pos + 1 < self.toks.len() {
            Some(&self.toks[self.pos + 1].0)
        } else {
            None
        }
    }

    fn line(&self) -> (r: usize)
        requires
            self.wf(),
        ensures
            r == cur_line(self.tv(), self.st()),
    {
        if self.pos < self.toks.len() - 1 {
            self.toks[self.pos].1
        } else {
            self.toks[self.toks.len() - 1].1
        }
    }

    fn bump(&mut self)
        requires
            old(self).wf(),
        ensures
            final(self).wf(),
            final(self).same_stream(old(self)),
            final(self).st() == adv(old(self).tv(), old(self).st()),
            final(self).structs == old(self).structs,
            final(self).tuples == old(self).tuples,
    {
        if self.pos < self.toks.len() - 1 {
            self.pos = self.pos + 1;
        }
    }

    fn err(&self, raw: String) -> (r: ParseError)
        requires
            self.wf(),
        ensures
            (r.msg@, r.line as int) == perr(self.tv(), self.st(), raw@),
    {
        let msg = if self.files.len() > 1 {
            let mut m = String::from_str("[");
            m.append(self.files[self.files.len() - 1].as_str());
            m.append("] ");
            m.append(raw.as_str());
            m
        } else {
            raw
        };
        ParseError { msg, line: self.line() }
    }

    fn expect(&mut self, want: &Tok) -> (r: Result<(), ParseError>)
        requires
            old(self).wf(),
            is_plain(want@),
        ensures
            final(self).moved_from(old(self)),
            final(self).structs@ == old(self).structs@,
            outcome(r, final(self).st(), sp_expect(old(self).tv(), old(self).st(), want@), |x: ()| x),
    {
        if self.peek().is(want) {
            self.bump();
            Ok(())
        } else {
            let mut m = String::from_str("期望 '");
            let w = want.display();
            m.append(w.as_str());
            m.append("'，实际 '");
            let a = self.peek().display();
            m.append(a.as_str());
            m.append("'");
            Err(self.err(m))
        }
    }

    fn expect_ident(&mut self) -> (r: Result<String, ParseError>)
        requires
            old(self).wf(),
        ensures
            final(self).moved_from(old(self)),
            final(self).structs@ == old(self).structs@,
            outcome(r, final(self).st(), sp_expect_ident(old(self).tv(), old(self).st()), |x: String| x@),
    {
        match self.peek() {
            TokenOf::Ident(s) => {
                let name = s.clone();
                self.bump();
                Ok(name)
            },
            t => {
                let mut m = String::from_str("期望标识符，实际 '");
                let a = t.display();
                m.append(a.as_str());
                m.append("'");
                Err(self.err(m))
            },
        }
    }

    fn skip_newlines(&mut self)
        requires
            old(self).wf(),
        ensures
            final(self).moved_from(old(self)),
            final(self).structs@ == old(self).structs@,
            final(self).st() == sp_skip_newlines(old(self).tv(), old(self).st()),
    {
        while self.peek().is(&TokenOf::Newline)
            invariant
                self.moved_from(old(self)),
                self.structs@ == old(self).structs@,
                sp_skip_newlines(self.tv(), self.st()) == sp_skip_newlines(old(self).tv(), old(self).st()),
            decreases self.toks@.len() - self.pos,
        {
            self.bump();
        }
    }

    fn expect_newline(&mut self) -> (r: Result<(), ParseError>)
        requires
            old(self).wf(),
        ensures
            final(self).moved_from(old(self)),
            outcome(r, final(self).st(), sp_expect_newline(old(self).tv(), old(self).st()), |x: ()| x),
    {
        match self.peek() {
            TokenOf::Newline => {
                self.bump();
                Ok(())
            },
            TokenOf::RBrace | TokenOf::Eof => Ok(()),
            t => {
                let mut m = String::from_str("语句应以换行结束，实际 '");
                let a = t.display();
                m.append(a.as_str());
                m.append("'");
                Err(self.err(m))
            },
        }
    }
}


// ───────────────────────── 规约：类型表与类型标注 ─────────────────────────

/// v 中从 i 起第一个等于 x 的位置；没有则为 v.len()
pub open spec fn index_from<A>(v: Seq<A>, x: A, i: int) -> int
    decreases v.len() - i,
{
    if i < 0 || i >= v.len() {
        v.len() as int
    } else if v[i] == x {
        i
    } else {
        index_from(v, x, i + 1)
    }
}

/// 结构体表中从 i 起第一个名为 name 者的位置；没有则为表长
pub open spec fn struct_index(v: Seq<StructView>, name: Seq<char>, i: int) -> int
    decreases v.len() - i,
{
    if i < 0 || i >= v.len() {
        v.len() as int
    } else if v[i].name == name {
        i
    } else {
        struct_index(v, name, i + 1)
    }
}

/// 按元素列表取元组类型（去重：已有则复用序号，否则追加）
pub open spec fn tuple_intern(s: PState, elems: Seq<Ty>) -> (Ty, PState) {
    let i = index_from(s.tuples, elems, 0);
    if i < s.tuples.len() {
        (Ty::Tuple(i as u32), s)
    } else {
        (Ty::Tuple(s.tuples.len() as u32), PState { tuples: s.tuples.push(elems), ..s })
    }
}

/// 按元素类型取动态数组类型（去重）
pub open spec fn darr_intern(s: PState, elem: Ty) -> (Ty, PState) {
    let i = index_from(s.darrs, DArrDef { elem }, 0);
    if i < s.darrs.len() {
        (Ty::DArr(i as u32), s)
    } else {
        (Ty::DArr(s.darrs.len() as u32), PState { darrs: s.darrs.push(DArrDef { elem }), ..s })
    }
}

/// 按 (键, 值) 取关联数组类型（去重）
pub open spec fn map_intern(s: PState, key: Ty, val: Ty) -> (Ty, PState) {
    let i = index_from(s.maps, MapDef { key, val }, 0);
    if i < s.maps.len() {
        (Ty::MapOf(i as u32), s)
    } else {
        (Ty::MapOf(s.maps.len() as u32), PState { maps: s.maps.push(MapDef { key, val }), ..s })
    }
}

/// 按 (元素, 长度) 取固定数组类型（去重）
pub open spec fn arr_intern(s: PState, elem: Ty, len: u64) -> (Ty, PState) {
    let i = index_from(s.arrs, ArrDef { elem, len }, 0);
    if i < s.arrs.len() {
        (Ty::Arr(i as u32), s)
    } else {
        (Ty::Arr(s.arrs.len() as u32), PState { arrs: s.arrs.push(ArrDef { elem, len }), ..s })
    }
}

/// 动态数组元素类型名与 map 值类型名：i32 / i64 / f64 / bool / str
pub open spec fn elem_of_name(n: Seq<char>) -> Option<Ty> {
    if n == "i32"@ {
        Some(Ty::I32)
    } else if n == "i64"@ {
        Some(Ty::I64)
    } else if n == "f64"@ {
        Some(Ty::F64)
    } else if n == "bool"@ {
        Some(Ty::Bool)
    } else if n == "str"@ {
        Some(Ty::Str)
    } else {
        None
    }
}

/// map 键类型名：i64 / str
pub open spec fn key_of_name(n: Seq<char>) -> Option<Ty> {
    if n == "i64"@ {
        Some(Ty::I64)
    } else if n == "str"@ {
        Some(Ty::Str)
    } else {
        None
    }
}

/// 可带 [N] 后缀的标量类型名：i32 / i64 / f64 / bool
pub open spec fn scalar_of_name(n: Seq<char>) -> Option<Ty> {
    if n == "i32"@ {
        Some(Ty::I32)
    } else if n == "i64"@ {
        Some(Ty::I64)
    } else if n == "f64"@ {
        Some(Ty::F64)
    } else if n == "bool"@ {
        Some(Ty::Bool)
    } else {
        None
    }
}

pub open spec fn msg_darr_elem(n: Seq<char>) -> Seq<char> {
    "动态数组元素类型须为 i32/i64/f64/bool/str（实际 '"@ + n + "'）"@
}

/// map[K]V
pub open spec fn sp_map_type(t: TS, s: PState) -> PR<Ty> {
    match sp_expect_ident(t, s) {
        Err(e) => Err(e),
        Ok((_, s1)) => match sp_expect(t, s1, TokenOf::LBracket) {
            Err(e) => Err(e),
            Ok((_, s2)) => match sp_expect_ident(t, s2) {
                Err(e) => Err(e),
                Ok((kn, s3)) => match key_of_name(kn) {
                    None => Err(perr(t, s3, "map 键类型须为 i64 或 str（实际 '"@ + kn + "'）"@)),
                    Some(k) => match sp_expect(t, s3, TokenOf::RBracket) {
                        Err(e) => Err(e),
                        Ok((_, s4)) => match sp_expect_ident(t, s4) {
                            Err(e) => Err(e),
                            Ok((vn, s5)) => match elem_of_name(vn) {
                                None => Err(
                                    perr(
                                        t,
                                        s5,
                                        "map 值类型须为 i32/i64/f64/bool/str（实际 '"@ + vn
                                            + "'）"@,
                                    ),
                                ),
                                Some(v) => Ok(map_intern(s5, k, v)),
                            },
                        },
                    },
                },
            },
        },
    }
}

/// 类型后缀 [N]：固定长度数组
pub open spec fn sp_arr_suffix(t: TS, s: PState, elem: Ty) -> PR<Ty> {
    if cur(t, s) != TokenOf::<Seq<char>>::LBracket {
        Ok((elem, s))
    } else {
        let s1 = adv(t, s);
        match cur(t, s1) {
            TokenOf::Int(n) => if n > 0 {
                match sp_expect(t, adv(t, s1), TokenOf::RBracket) {
                    Err(e) => Err(e),
                    Ok((_, s3)) => Ok(arr_intern(s3, elem, n as u64)),
                }
            } else if n == 0 {
                Err(perr(t, s1, "数组长度必须为正整数"@))
            } else {
                Err(perr(t, s1, "数组长度必须为非负整数字面量"@))
            },
            other => Err(
                perr(t, s1, "期望数组长度（正整数字面量），实际 '"@ + spec_tok_display(other) + "'"@),
            ),
        }
    }
}

/// []T 中 [ 之后的部分：] 元素类型名
pub open spec fn sp_darr_type_rest(t: TS, s: PState) -> PR<Ty> {
    match sp_expect(t, s, TokenOf::RBracket) {
        Err(e) => Err(e),
        Ok((_, s1)) => match sp_expect_ident(t, s1) {
            Err(e) => Err(e),
            Ok((n, s2)) => match elem_of_name(n) {
                None => Err(perr(t, s2, msg_darr_elem(n))),
                Some(e) => Ok(darr_intern(s2, e)),
            },
        },
    }
}

pub open spec fn is_word(k: SpecTok, w: Seq<char>) -> bool {
    k == TokenOf::<Seq<char>>::Ident(w)
}

/// 标识符开头的类型：标量（可带 [N]）、str、已声明的结构体
pub open spec fn sp_named_type(t: TS, s: PState) -> PR<Ty> {
    match sp_expect_ident(t, s) {
        Err(e) => Err(e),
        Ok((n, s1)) => match scalar_of_name(n) {
            Some(e) => sp_arr_suffix(t, s1, e),
            None => if n == "str"@ {
                if cur(t, s1) == TokenOf::<Seq<char>>::LBracket {
                    Err(perr(t, s1, "str 不能声明为数组（v3.3 数组仅支持 i32/i64/f64/bool 元素）"@))
                } else {
                    Ok((Ty::Str, s1))
                }
            } else {
                let i = struct_index(s1.structs, n, 0);
                if i < s1.structs.len() {
                    Ok((Ty::Struct(i as u32), s1))
                } else {
                    Err(
                        perr(
                            t,
                            s1,
                            "未知类型 '"@ + n
                                + "'（可用：i32 i64 f64 str bool &str 或已声明的结构体名）"@,
                        ),
                    )
                }
            },
        },
    }
}

/// & 之后的类型：&[]T、&map[K]V、&str
pub open spec fn sp_borrow_type(t: TS, s: PState) -> PR<Ty> {
    if cur(t, s) == TokenOf::<Seq<char>>::LBracket {
        match sp_darr_type_rest(t, adv(t, s)) {
            Err(e) => Err(e),
            Ok((ty, s2)) => Ok((ty, PState { last_type_borrow: true, ..s2 })),
        }
    } else if is_word(cur(t, s), "map"@) {
        sp_map_type(t, PState { last_type_borrow: true, ..s })
    } else {
        match sp_expect_ident(t, s) {
            Err(e) => Err(e),
            Ok((n, s1)) => if n == "str"@ {
                Ok((Ty::BorrowStr, s1))
            } else {
                Err(perr(t, s1, "&只能修饰 str（实际 &"@ + n + "）"@))
            },
        }
    }
}

pub open spec fn msg_tuple_arity(n: nat) -> Seq<char> {
    "元组元素个数须为 2–4 个（实际 "@ + radix_text(n, 10) + " 个）"@
}

/// 类型标注
pub open spec fn sp_type(t: TS, s: PState) -> PR<Ty>
    decreases t.len() - s.pos, 0int,
{
    if cur(t, s) == TokenOf::<Seq<char>>::LParen && 0 <= s.pos < t.len() - 1 {
        sp_tuple_elems(t, adv(t, s), seq![])
    } else if is_word(cur(t, s), "map"@) {
        sp_map_type(t, s)
    } else if cur(t, s) == TokenOf::<Seq<char>>::LBracket {
        sp_darr_type_rest(t, adv(t, s))
    } else if cur(t, s) == TokenOf::<Seq<char>>::Amp {
        sp_borrow_type(t, adv(t, s))
    } else {
        sp_named_type(t, s)
    }
}

/// 元组类型 ( 之后的元素列表（elems 为已解析的元素）
pub open spec fn sp_tuple_elems(t: TS, s: PState, elems: Seq<Ty>) -> PR<Ty>
    decreases t.len() - s.pos, 1int,
{
    if cur(t, s) == TokenOf::<Seq<char>>::RParen {
        let s1 = adv(t, s);
        if elems.len() < 2 || elems.len() > 4 {
            Err(perr(t, s1, msg_tuple_arity(elems.len())))
        } else {
            Ok(tuple_intern(s1, elems))
        }
    } else if cur(t, s) is Eof {
        Err(perr(t, s, "元组类型未闭合（缺少 ））"@))
    } else {
        match sp_type(t, s) {
            Err(e) => Err(e),
            Ok((ty, s1)) => if ty is Tuple {
                Err(perr(t, s1, "元组元素不能是元组（不支持嵌套）"@))
            } else {
                let s2 = if cur(t, s1) == TokenOf::<Seq<char>>::Comma {
                    adv(t, s1)
                } else {
                    s1
                };
                if s.pos < s2.pos <= t.len() {
                    sp_tuple_elems(t, s2, elems.push(ty))
                } else {
                    Err((seq![], 0))
                }
            },
        }
    }
}


// ───────────────────────── 实现：类型表与类型标注 ─────────────────────────

/// a@ + b@ + c@
fn cat3(a: &str, b: &str, c: &str) -> (r: String)
    ensures
        r@ == a@ + b@ + c@,
{
    let mut m = String::from_str(a);
    m.append(b);
    m.append(c);
    m
}

/// 消息：a + 十进制 n + b
fn cat_num(a: &str, n: usize, b: &str) -> (r: String)
    ensures
        r@ == a@ + radix_text(n as nat, 10) + b@,
{
    let mut v: Vec<char> = Vec::new();
    push_str_chars(a, &mut v);
    push_decimal(n as u64, &mut v);
    push_str_chars(b, &mut v);
    string_of_all(&v)
}

/// 两个类型列表是否相同
fn tys_eq(a: &Vec<Ty>, b: &Vec<Ty>) -> (r: bool)
    ensures
        r == (a@ == b@),
{
    if a.len() != b.len() {
        return false;
    }
    let mut i: usize = 0;
    while i < a.len()
        invariant
            a@.len() == b@.len(),
            i <= a@.len(),
            forall|k: int| 0 <= k < i ==> a@[k] == b@[k],
        decreases a@.len() - i,
    {
        if a[i] != b[i] {
            return false;
        }
        i = i + 1;
    }
    assert(a@ =~= b@);
    true
}

fn elem_type_of(n: &str) -> (r: Option<Ty>)
    ensures
        r == elem_of_name(n@),
{
    if str_eq(n, "i32") {
        Some(Ty::I32)
    } else if str_eq(n, "i64") {
        Some(Ty::I64)
    } else if str_eq(n, "f64") {
        Some(Ty::F64)
    } else if str_eq(n, "bool") {
        Some(Ty::Bool)
    } else if str_eq(n, "str") {
        Some(Ty::Str)
    } else {
        None
    }
}

fn key_type_of(n: &str) -> (r: Option<Ty>)
    ensures
        r == key_of_name(n@),
{
    if str_eq(n, "i64") {
        Some(Ty::I64)
    } else if str_eq(n, "str") {
        Some(Ty::Str)
    } else {
        None
    }
}

fn scalar_type_of(n: &str) -> (r: Option<Ty>)
    ensures
        r == scalar_of_name(n@),
{
    if str_eq(n, "i32") {
        Some(Ty::I32)
    } else if str_eq(n, "i64") {
        Some(Ty::I64)
    } else if str_eq(n, "f64") {
        Some(Ty::F64)
    } else if str_eq(n, "bool") {
        Some(Ty::Bool)
    } else {
        None
    }
}

impl Parser {
    /// 一步解析之后：仍合法、流未变、位置不后退
    pub closed spec fn moved_from(&self, old: &Parser) -> bool {
        &&& self.wf()
        &&& self.same_stream(old)
        &&& self.pos >= old.pos
        &&& self.tuples@.len() >= old.tuples@.len()
    }

    /// 当前 Token 是否为标识符 w
    fn at_word(&self, w: &str) -> (r: bool)
        requires
            self.wf(),
        ensures
            r == is_word(cur(self.tv(), self.st()), w@),
    {
        match self.peek() {
            TokenOf::Ident(n) => str_eq(n.as_str(), w),
            _ => false,
        }
    }

    /// 结构体表中第一个名为 name 者的位置（没有则为表长）
    fn find_struct(&self, name: &str) -> (r: usize)
        ensures
            r as int == struct_index(self.st().structs, name@, 0),
    {
        let ghost v = self.st().structs;
        let mut i: usize = 0;
        while i < self.structs.len()
            invariant
                i <= self.structs@.len(),
                v == structs_view(self.structs@),
                struct_index(v, name@, 0) == struct_index(v, name@, i as int),
            decreases self.structs@.len() - i,
        {
            if str_eq(self.structs[i].name.as_str(), name) {
                return i;
            }
            i = i + 1;
        }
        i
    }

    /// 按元素列表取元组类型（去重）
    fn tuple_id(&mut self, elems: Vec<Ty>) -> (r: Ty)
        requires
            old(self).wf(),
            tuple_elems_ok(elems@),
        ensures
            final(self).moved_from(old(self)),
            final(self).structs@ == old(self).structs@,
            final(self).pos == old(self).pos,
            (r, final(self).st()) == tuple_intern(old(self).st(), elems@),
            ty_ref_ok(r, final(self).tuples@.len() as int),
    {
        let ghost v = self.st().tuples;
        let mut i: usize = 0;
        while i < self.tuples.len()
            invariant
                i <= self.tuples@.len(),
                *self == *old(self),
                self.wf(),
                v == tuples_view(self.tuples@),
                index_from(v, elems@, 0) == index_from(v, elems@, i as int),
            decreases self.tuples@.len() - i,
        {
            if tys_eq(&self.tuples[i].elems, &elems) {
                assert((i as u32) as usize <= i) by (bit_vector);
                return Ty::Tuple(i as u32);
            }
            i = i + 1;
        }
        let n = self.tuples.len();
        proof {
            reveal(tables_interned);
            lemma_index_from(v, elems@);
            lemma_push_fresh(v, elems@);
        }
        self.tuples.push(TupleDef { elems });
        assert(tuples_view(self.tuples@) =~= v.push(elems@));
        proof {
            reveal(tables_interned);
        }
        assert((n as u32) as usize <= n) by (bit_vector);
        Ty::Tuple(n as u32)
    }

    /// 按元素类型取动态数组类型（去重）
    fn darr_id(&mut self, elem: Ty) -> (r: Ty)
        requires
            old(self).wf(),
            is_elem_ty(elem),
        ensures
            final(self).moved_from(old(self)),
            final(self).structs@ == old(self).structs@,
            final(self).pos == old(self).pos,
            (r, final(self).st()) == darr_intern(old(self).st(), elem),
    {
        let d = DArrDef { elem };
        let mut i: usize = 0;
        while i < self.darrs.len()
            invariant
                i <= self.darrs@.len(),
                d == (DArrDef { elem }),
                *self == *old(self),
                self.wf(),
                index_from(self.darrs@, d, 0) == index_from(self.darrs@, d, i as int),
            decreases self.darrs@.len() - i,
        {
            if self.darrs[i] == d {
                return Ty::DArr(i as u32);
            }
            i = i + 1;
        }
        let n = self.darrs.len();
        proof {
            reveal(tables_interned);
            lemma_index_from(self.darrs@, d);
            lemma_push_fresh(self.darrs@, d);
            assert(seed_darrs().is_prefix_of(self.darrs@.push(d))) by {
                assert forall|j: int| 0 <= j < seed_darrs().len() implies self.darrs@.push(d)[j]
                    == seed_darrs()[j] by {
                    assert(self.darrs@[j] == seed_darrs()[j]);
                }
            }
        }
        self.darrs.push(d);
        proof {
            reveal(tables_interned);
        }
        Ty::DArr(n as u32)
    }

    /// 按 (键, 值) 取关联数组类型（去重）
    fn map_id(&mut self, key: Ty, val: Ty) -> (r: Ty)
        requires
            old(self).wf(),
            key == Ty::I64 || key == Ty::Str,
            is_elem_ty(val),
        ensures
            final(self).moved_from(old(self)),
            final(self).structs@ == old(self).structs@,
            final(self).pos == old(self).pos,
            (r, final(self).st()) == map_intern(old(self).st(), key, val),
    {
        let d = MapDef { key, val };
        let mut i: usize = 0;
        while i < self.maps.len()
            invariant
                i <= self.maps@.len(),
                d == (MapDef { key, val }),
                *self == *old(self),
                self.wf(),
                index_from(self.maps@, d, 0) == index_from(self.maps@, d, i as int),
            decreases self.maps@.len() - i,
        {
            if self.maps[i] == d {
                return Ty::MapOf(i as u32);
            }
            i = i + 1;
        }
        let n = self.maps.len();
        proof {
            reveal(tables_interned);
            lemma_index_from(self.maps@, d);
            lemma_push_fresh(self.maps@, d);
        }
        self.maps.push(d);
        proof {
            reveal(tables_interned);
        }
        Ty::MapOf(n as u32)
    }

    /// 按 (元素, 长度) 取固定数组类型（去重）
    fn arr_id(&mut self, elem: Ty, len: u64) -> (r: Ty)
        requires
            old(self).wf(),
            len > 0,
            is_scalar_ty(elem),
        ensures
            final(self).moved_from(old(self)),
            final(self).structs@ == old(self).structs@,
            final(self).pos == old(self).pos,
            (r, final(self).st()) == arr_intern(old(self).st(), elem, len),
    {
        let d = ArrDef { elem, len };
        let mut i: usize = 0;
        while i < self.arrs.len()
            invariant
                i <= self.arrs@.len(),
                d == (ArrDef { elem, len }),
                *self == *old(self),
                self.wf(),
                index_from(self.arrs@, d, 0) == index_from(self.arrs@, d, i as int),
            decreases self.arrs@.len() - i,
        {
            if self.arrs[i] == d {
                return Ty::Arr(i as u32);
            }
            i = i + 1;
        }
        let n = self.arrs.len();
        proof {
            reveal(tables_interned);
            lemma_index_from(self.arrs@, d);
            lemma_push_fresh(self.arrs@, d);
        }
        self.arrs.push(d);
        proof {
            reveal(tables_interned);
        }
        Ty::Arr(n as u32)
    }
}


impl Parser {
    /// map[K]V 关联数组类型（K ∈ {i64,str}；V ∈ {i32,i64,f64,bool,str}）
    fn parse_map_type(&mut self) -> (r: Result<Ty, ParseError>)
        requires
            old(self).wf(),
        ensures
            final(self).moved_from(old(self)),
            final(self).structs@ == old(self).structs@,
            outcome(r, final(self).st(), sp_map_type(old(self).tv(), old(self).st()), |x: Ty| x),
    {
        self.expect_ident()?;
        self.expect(&TokenOf::LBracket)?;
        let kn = self.expect_ident()?;
        let key = match key_type_of(kn.as_str()) {
            Some(k) => k,
            None => {
                return Err(self.err(cat3("map 键类型须为 i64 或 str（实际 '", kn.as_str(), "'）")));
            },
        };
        self.expect(&TokenOf::RBracket)?;
        let vn = self.expect_ident()?;
        let val = match elem_type_of(vn.as_str()) {
            Some(v) => v,
            None => {
                return Err(
                    self.err(cat3("map 值类型须为 i32/i64/f64/bool/str（实际 '", vn.as_str(), "'）")),
                );
            },
        };
        Ok(self.map_id(key, val))
    }
}


impl Parser {
    /// 当前 Token 不是 EOF 时，其后还有 Token（前进必移动位置）
    proof fn lemma_not_last(&self)
        requires
            self.wf(),
            !(cur(self.tv(), self.st()) is Eof),
        ensures
            self.pos + 1 < self.toks@.len(),
    {
    }

    /// 类型后缀 [N] → 固定长度数组
    fn maybe_arr_suffix(&mut self, elem: Ty) -> (r: Result<Ty, ParseError>)
        requires
            old(self).wf(),
            is_scalar_ty(elem),
        ensures
            final(self).moved_from(old(self)),
            final(self).structs@ == old(self).structs@,
            outcome(r, final(self).st(), sp_arr_suffix(old(self).tv(), old(self).st(), elem), |x: Ty| x),
    {
        if !self.peek().is(&TokenOf::LBracket) {
            return Ok(elem);
        }
        self.bump();
        let len: u64 = match self.peek() {
            TokenOf::Int(n) => {
                if *n > 0 {
                    *n as u64
                } else if *n == 0 {
                    return Err(self.err(String::from_str("数组长度必须为正整数")));
                } else {
                    return Err(self.err(String::from_str("数组长度必须为非负整数字面量")));
                }
            },
            t => {
                let d = t.display();
                return Err(self.err(cat3("期望数组长度（正整数字面量），实际 '", d.as_str(), "'")));
            },
        };
        self.bump();
        self.expect(&TokenOf::RBracket)?;
        Ok(self.arr_id(elem, len))
    }

    /// []T 中 [ 之后：] 元素类型名
    fn parse_darr_rest(&mut self) -> (r: Result<Ty, ParseError>)
        requires
            old(self).wf(),
        ensures
            final(self).moved_from(old(self)),
            final(self).structs@ == old(self).structs@,
            outcome(r, final(self).st(), sp_darr_type_rest(old(self).tv(), old(self).st()), |x: Ty| x),
    {
        self.expect(&TokenOf::RBracket)?;
        let name = self.expect_ident()?;
        match elem_type_of(name.as_str()) {
            Some(e) => Ok(self.darr_id(e)),
            None => Err(
                self.err(cat3("动态数组元素类型须为 i32/i64/f64/bool/str（实际 '", name.as_str(), "'）")),
            ),
        }
    }

    /// & 之后的类型：&[]T、&map[K]V、&str
    fn parse_borrow_type(&mut self) -> (r: Result<Ty, ParseError>)
        requires
            old(self).wf(),
        ensures
            final(self).moved_from(old(self)),
            final(self).structs@ == old(self).structs@,
            outcome(r, final(self).st(), sp_borrow_type(old(self).tv(), old(self).st()), |x: Ty| x),
    {
        if self.peek().is(&TokenOf::LBracket) {
            self.bump();
            let ty = self.parse_darr_rest()?;
            self.last_type_borrow = true;
            return Ok(ty);
        }
        if self.at_word("map") {
            self.last_type_borrow = true;
            return self.parse_map_type();
        }
        let name = self.expect_ident()?;
        if str_eq(name.as_str(), "str") {
            Ok(Ty::BorrowStr)
        } else {
            Err(self.err(cat3("&只能修饰 str（实际 &", name.as_str(), "）")))
        }
    }

    /// 标识符开头的类型：标量（可带 [N]）、str、已声明的结构体
    fn parse_named_type(&mut self) -> (r: Result<Ty, ParseError>)
        requires
            old(self).wf(),
        ensures
            final(self).moved_from(old(self)),
            final(self).structs@ == old(self).structs@,
            outcome(r, final(self).st(), sp_named_type(old(self).tv(), old(self).st()), |x: Ty| x),
    {
        let name = self.expect_ident()?;
        if let Some(e) = scalar_type_of(name.as_str()) {
            return self.maybe_arr_suffix(e);
        }
        if str_eq(name.as_str(), "str") {
            if self.peek().is(&TokenOf::LBracket) {
                return Err(
                    self.err(String::from_str("str 不能声明为数组（v3.3 数组仅支持 i32/i64/f64/bool 元素）")),
                );
            }
            return Ok(Ty::Str);
        }
        let i = self.find_struct(name.as_str());
        if i < self.structs.len() {
            Ok(Ty::Struct(i as u32))
        } else {
            Err(
                self.err(
                    cat3(
                        "未知类型 '",
                        name.as_str(),
                        "'（可用：i32 i64 f64 str bool &str 或已声明的结构体名）",
                    ),
                ),
            )
        }
    }

    /// 类型标注：i32 / i64 / f64 / str / bool / &str / []T / &[]T / map[K]V / T[N] / 结构体名 / (T, T)
    fn parse_type(&mut self) -> (r: Result<Ty, ParseError>)
        requires
            old(self).wf(),
        ensures
            final(self).moved_from(old(self)),
            final(self).structs@ == old(self).structs@,
            r is Ok ==> final(self).pos > old(self).pos,
            r is Ok ==> ty_ref_ok(r->Ok_0, final(self).tuples@.len() as int),
            outcome(r, final(self).st(), sp_type(old(self).tv(), old(self).st()), |x: Ty| x),
        decreases old(self).toks@.len() - old(self).pos, 0int,
    {
        if self.peek().is(&TokenOf::LParen) {
            proof {
                self.lemma_not_last();
            }
            self.bump();
            let mut elems: Vec<Ty> = Vec::new();
            loop
                invariant
                    self.moved_from(old(self)),
                self.structs@ == old(self).structs@,
                    self.pos > old(self).pos,
                    old(self).wf(),
                    forall|j: int| 0 <= j < elems@.len() ==> !(#[trigger] elems@[j] is Tuple),
                    sp_tuple_elems(self.tv(), self.st(), elems@) == sp_type(old(self).tv(), old(self).st()),
                decreases self.toks@.len() - self.pos,
            {
                if self.peek().is(&TokenOf::RParen) {
                    self.bump();
                    if elems.len() < 2 || elems.len() > 4 {
                        return Err(self.err(cat_num("元组元素个数须为 2–4 个（实际 ", elems.len(), " 个）")));
                    }
                    return Ok(self.tuple_id(elems));
                }
                if self.peek().is(&TokenOf::Eof) {
                    return Err(self.err(String::from_str("元组类型未闭合（缺少 ））")));
                }
                let ty = self.parse_type()?;
                if ty.is_tuple() {
                    return Err(self.err(String::from_str("元组元素不能是元组（不支持嵌套）")));
                }
                elems.push(ty);
                if self.peek().is(&TokenOf::Comma) {
                    self.bump();
                }
            }
        }
        if self.at_word("map") {
            return self.parse_map_type();
        }
        if self.peek().is(&TokenOf::LBracket) {
            self.bump();
            return self.parse_darr_rest();
        }
        if self.peek().is(&TokenOf::Amp) {
            self.bump();
            return self.parse_borrow_type();
        }
        self.parse_named_type()
    }
}


// ───────────────────────── 规约：表达式 ─────────────────────────
//
// 互递归的规约函数以 (剩余 Token 数, 层级) 递减。函数在读到若干 Token 之后再调用
// 层级更高者时，以“位置确已前进”为条件（ahead）；解析器的实现证明该条件总是成立。

/// s 在 s0 之后且未越过流尾
pub open spec fn ahead(t: TS, s0: PState, s: PState) -> bool {
    s0.pos < s.pos <= t.len()
}

/// 不可达分支的占位结果
pub open spec fn stuck<V>() -> PR<V> {
    Err((seq![], 0))
}

pub open spec fn cmp_op(k: SpecTok) -> Option<BinOp> {
    match k {
        TokenOf::Le => Some(BinOp::Le),
        TokenOf::Ge => Some(BinOp::Ge),
        TokenOf::Eq => Some(BinOp::Eq),
        TokenOf::Ne => Some(BinOp::Ne),
        TokenOf::Lt => Some(BinOp::Lt),
        TokenOf::Gt => Some(BinOp::Gt),
        _ => None,
    }
}

/// 规律：运算符 Token 按其文本译为二元运算：比较、加减、乘除三组各把 Token 映为源码写法
/// 与该 Token 相同的运算（`!=` 得 Ne、`==` 得 Eq ……），且映射是单射
pub proof fn law_operator_tokens(k: SpecTok, k2: SpecTok)
    ensures
        cmp_op(k) matches Some(op) ==> spec_binop_str(op) == spec_tok_display(k) && is_cmp_binop(op),
        add_op(k) matches Some(op) ==> spec_binop_str(op) == spec_tok_display(k) && (op == BinOp::Add || op
            == BinOp::Sub),
        mul_op(k) matches Some(op) ==> spec_binop_str(op).is_prefix_of(spec_tok_display(k)) && (op == BinOp::Mul
            || op == BinOp::Div),
        cmp_op(k) is Some && cmp_op(k) == cmp_op(k2) ==> k == k2,
        add_op(k) is Some && add_op(k) == add_op(k2) ==> k == k2,
        mul_op(k) is Some && mul_op(k) == mul_op(k2) ==> k == k2,
{
    reveal_strlit("/");
    reveal_strlit("/ (除号)");
    reveal_strlit("*");
    assert("*"@.is_prefix_of("*"@));
    assert("/"@.is_prefix_of("/ (除号)"@));
}

/// 比较运算
pub open spec fn is_cmp_binop(op: BinOp) -> bool {
    op == BinOp::Lt || op == BinOp::Gt || op == BinOp::Le || op == BinOp::Ge || op == BinOp::Eq || op == BinOp::Ne
}

pub open spec fn add_op(k: SpecTok) -> Option<BinOp> {
    match k {
        TokenOf::Plus => Some(BinOp::Add),
        TokenOf::Minus => Some(BinOp::Sub),
        _ => None,
    }
}

pub open spec fn mul_op(k: SpecTok) -> Option<BinOp> {
    match k {
        TokenOf::Star => Some(BinOp::Mul),
        TokenOf::Slash => Some(BinOp::Div),
        _ => None,
    }
}

pub open spec fn bin(op: BinOp, l: SExpr, r: SExpr) -> SExpr {
    SExpr::Bin { op, lhs: Box::new(l), rhs: Box::new(r) }
}

/// 在 s0 之后的位置 s 解析表达式
pub open spec fn sp_expr_after(t: TS, s0: PState, s: PState) -> PR<SExpr>
    decreases t.len() - s0.pos, 0int,
{
    if ahead(t, s0, s) {
        sp_expr(t, s)
    } else {
        stuck()
    }
}

/// 表达式：比较 < 加减 < 乘除 < 一元 < 后缀 < 初等
pub open spec fn sp_expr(t: TS, s: PState) -> PR<SExpr>
    decreases t.len() - s.pos, 30int,
{
    sp_cmp(t, s)
}

pub open spec fn sp_cmp(t: TS, s: PState) -> PR<SExpr>
    decreases t.len() - s.pos, 29int,
{
    match sp_add(t, s) {
        Err(e) => Err(e),
        Ok((l, s1)) => if s.pos <= s1.pos <= t.len() {
            sp_cmp_loop(t, s1, l)
        } else {
            stuck()
        },
    }
}

pub open spec fn sp_cmp_loop(t: TS, s: PState, lhs: SExpr) -> PR<SExpr>
    decreases t.len() - s.pos, 28int,
{
    match cmp_op(cur(t, s)) {
        None => Ok((lhs, s)),
        Some(op) => match sp_add(t, adv(t, s)) {
            Err(e) => Err(e),
            Ok((r, s2)) => if ahead(t, s, s2) {
                sp_cmp_loop(t, s2, bin(op, lhs, r))
            } else {
                stuck()
            },
        },
    }
}

pub open spec fn sp_add(t: TS, s: PState) -> PR<SExpr>
    decreases t.len() - s.pos, 27int,
{
    match sp_mul(t, s) {
        Err(e) => Err(e),
        Ok((l, s1)) => if s.pos <= s1.pos <= t.len() {
            sp_add_loop(t, s1, l)
        } else {
            stuck()
        },
    }
}

pub open spec fn sp_add_loop(t: TS, s: PState, lhs: SExpr) -> PR<SExpr>
    decreases t.len() - s.pos, 26int,
{
    match add_op(cur(t, s)) {
        None => Ok((lhs, s)),
        Some(op) => match sp_mul(t, adv(t, s)) {
            Err(e) => Err(e),
            Ok((r, s2)) => if ahead(t, s, s2) {
                sp_add_loop(t, s2, bin(op, lhs, r))
            } else {
                stuck()
            },
        },
    }
}

pub open spec fn sp_mul(t: TS, s: PState) -> PR<SExpr>
    decreases t.len() - s.pos, 25int,
{
    match sp_unary(t, s) {
        Err(e) => Err(e),
        Ok((l, s1)) => if s.pos <= s1.pos <= t.len() {
            sp_mul_loop(t, s1, l)
        } else {
            stuck()
        },
    }
}

pub open spec fn sp_mul_loop(t: TS, s: PState, lhs: SExpr) -> PR<SExpr>
    decreases t.len() - s.pos, 24int,
{
    match mul_op(cur(t, s)) {
        None => Ok((lhs, s)),
        Some(op) => match sp_unary(t, adv(t, s)) {
            Err(e) => Err(e),
            Ok((r, s2)) => if ahead(t, s, s2) {
                sp_mul_loop(t, s2, bin(op, lhs, r))
            } else {
                stuck()
            },
        },
    }
}

/// 一元负号 -e 与借用 &e
pub open spec fn sp_unary(t: TS, s: PState) -> PR<SExpr>
    decreases t.len() - s.pos, 23int,
{
    if cur(t, s) == TokenOf::<Seq<char>>::Minus && 0 <= s.pos < t.len() - 1 {
        match sp_unary(t, adv(t, s)) {
            Err(e) => Err(e),
            Ok((e, s1)) => Ok((SExpr::Neg(Box::new(e)), s1)),
        }
    } else if cur(t, s) == TokenOf::<Seq<char>>::Amp && 0 <= s.pos < t.len() - 1 {
        match sp_unary(t, adv(t, s)) {
            Err(e) => Err(e),
            Ok((e, s1)) => Ok((SExpr::Borrow(Box::new(e)), s1)),
        }
    } else {
        sp_postfix(t, s)
    }
}

/// 初等表达式加后缀链（调用、字段访问、下标）
pub open spec fn sp_postfix(t: TS, s: PState) -> PR<SExpr>
    decreases t.len() - s.pos, 22int,
{
    match sp_primary(t, s) {
        Err(e) => Err(e),
        Ok((e, s1)) => if s.pos <= s1.pos <= t.len() {
            sp_postfix_loop(t, s1, e)
        } else {
            stuck()
        },
    }
}

pub open spec fn sp_postfix_loop(t: TS, s: PState, e: SExpr) -> PR<SExpr>
    decreases t.len() - s.pos, 21int,
{
    if cur(t, s) == TokenOf::<Seq<char>>::LParen {
        match e {
            SExpr::Var(name) => match sp_call_suffix(t, s, name) {
                Err(e) => Err(e),
                Ok((c, s3)) => if ahead(t, s, s3) {
                    sp_postfix_loop(t, s3, c)
                } else {
                    stuck()
                },
            },
            _ => Err(perr(t, s, "只有函数名可直接调用"@)),
        }
    } else if cur(t, s) == TokenOf::<Seq<char>>::Dot {
        match sp_expect_ident(t, adv(t, s)) {
            Err(e) => Err(e),
            Ok((f, s2)) => if ahead(t, s, s2) {
                sp_postfix_loop(t, s2, SExpr::Field(Box::new(e), f))
            } else {
                stuck()
            },
        }
    } else if cur(t, s) == TokenOf::<Seq<char>>::LBracket {
        match sp_index_suffix(t, s, e) {
            Err(e) => Err(e),
            Ok((x, s3)) => if ahead(t, s, s3) {
                sp_postfix_loop(t, s3, x)
            } else {
                stuck()
            },
        }
    } else {
        Ok((e, s))
    }
}

/// 调用后缀 (实参...)（s 位于 ( 之前）
pub open spec fn sp_call_suffix(t: TS, s: PState, name: Seq<char>) -> PR<SExpr>
    decreases t.len() - s.pos, 20int,
{
    let s1 = adv(t, s);
    let args_r: PR<Seq<SExpr>> = if cur(t, s1) != TokenOf::<Seq<char>>::RParen {
        if ahead(t, s, s1) {
            sp_call_args(t, s1, seq![])
        } else {
            stuck()
        }
    } else {
        Ok((seq![], s1))
    };
    match args_r {
        Err(e) => Err(e),
        Ok((args, s2)) => match sp_expect(t, s2, TokenOf::RParen) {
            Err(e) => Err(e),
            Ok((_, s3)) => Ok((SExpr::Call { name, args }, s3)),
        },
    }
}

/// 下标后缀 [i]（s 位于 [ 之前）
pub open spec fn sp_index_suffix(t: TS, s: PState, e: SExpr) -> PR<SExpr>
    decreases t.len() - s.pos, 20int,
{
    match sp_expr_after(t, s, adv(t, s)) {
        Err(e) => Err(e),
        Ok((idx, s2)) => match sp_expect(t, s2, TokenOf::RBracket) {
            Err(e) => Err(e),
            Ok((_, s3)) => Ok((SExpr::Index(Box::new(e), Box::new(idx)), s3)),
        },
    }
}

/// 调用实参列表：e (, e)*（args 为已解析者）
pub open spec fn sp_call_args(t: TS, s: PState, args: Seq<SExpr>) -> PR<Seq<SExpr>>
    decreases t.len() - s.pos, 31int,
{
    match sp_expr(t, s) {
        Err(e) => Err(e),
        Ok((a, s1)) => if cur(t, s1) == TokenOf::<Seq<char>>::Comma {
            let s2 = adv(t, s1);
            if ahead(t, s, s2) {
                sp_call_args(t, s2, args.push(a))
            } else {
                stuck()
            }
        } else {
            Ok((args.push(a), s1))
        },
    }
}

/// 可选逗号后跳过换行
pub open spec fn after_item(t: TS, s: PState) -> PState {
    let s1 = if cur(t, s) == TokenOf::<Seq<char>>::Comma {
        adv(t, s)
    } else {
        s
    };
    sp_skip_newlines(t, s1)
}

/// { e, e, ... } 中的元素序列（止于 }，不消费之）；unclosed 为缺少 } 时的消息
pub open spec fn sp_elems(t: TS, s: PState, acc: Seq<SExpr>, unclosed: Seq<char>) -> PR<Seq<SExpr>>
    decreases t.len() - s.pos, 31int,
{
    if cur(t, s) == TokenOf::<Seq<char>>::RBrace {
        Ok((acc, s))
    } else if cur(t, s) is Eof {
        Err(perr(t, s, unclosed))
    } else {
        match sp_expr(t, s) {
            Err(e) => Err(e),
            Ok((e, s1)) => {
                let s2 = after_item(t, s1);
                if ahead(t, s, s2) {
                    sp_elems(t, s2, acc.push(e), unclosed)
                } else {
                    stuck()
                }
            },
        }
    }
}

/// 结构体字面量的字段：值 或 名字: 值
pub open spec fn sp_struct_fields(t: TS, s: PState, acc: Seq<(Option<Seq<char>>, SExpr)>) -> PR<
    Seq<(Option<Seq<char>>, SExpr)>,
>
    decreases t.len() - s.pos, 31int,
{
    if cur(t, s) == TokenOf::<Seq<char>>::RBrace {
        Ok((acc, s))
    } else if cur(t, s) is Eof {
        Err(perr(t, s, "结构体字面量未闭合（缺少 }）"@))
    } else {
        let named = cur(t, s) is Ident && peek2(t, s) == Some(TokenOf::<Seq<char>>::Colon);
        let fname: Option<Seq<char>> = if named {
            Some(cur(t, s)->Ident_0)
        } else {
            None
        };
        let s1 = if named {
            adv(t, adv(t, s))
        } else {
            s
        };
        match sp_expr(t, s1) {
            Err(e) => Err(e),
            Ok((v, s2)) => {
                let s3 = after_item(t, s2);
                if ahead(t, s, s3) {
                    sp_struct_fields(t, s3, acc.push((fname, v)))
                } else {
                    stuck()
                }
            },
        }
    }
}

/// map 字面量的条目 k: v
pub open spec fn sp_map_entries(t: TS, s: PState, acc: Seq<(SExpr, SExpr)>) -> PR<Seq<(SExpr, SExpr)>>
    decreases t.len() - s.pos, 32int,
{
    if cur(t, s) == TokenOf::<Seq<char>>::RBrace {
        Ok((acc, s))
    } else if cur(t, s) is Eof {
        Err(perr(t, s, "map 字面量未闭合（缺少 }）"@))
    } else {
        match sp_map_entry(t, s) {
            Err(e) => Err(e),
            Ok((kv, s3)) => {
                let s4 = after_item(t, s3);
                if ahead(t, s, s4) {
                    sp_map_entries(t, s4, acc.push(kv))
                } else {
                    stuck()
                }
            },
        }
    }
}

/// 一个 map 条目 k: v
pub open spec fn sp_map_entry(t: TS, s: PState) -> PR<(SExpr, SExpr)>
    decreases t.len() - s.pos, 31int,
{
    match sp_expr(t, s) {
        Err(e) => Err(e),
        Ok((k, s1)) => match sp_expect(t, s1, TokenOf::Colon) {
            Err(e) => Err(e),
            Ok((_, s2)) => match sp_expr_after(t, s, s2) {
                Err(e) => Err(e),
                Ok((v, s3)) => Ok(((k, v), s3)),
            },
        },
    }
}

/// 结构体字面量 Name{...}（s 位于名字之后）
pub open spec fn sp_struct_lit(t: TS, s: PState, name: Seq<char>, line: int) -> PR<SExpr>
    decreases t.len() - s.pos, 19int,
{
    match sp_expect(t, s, TokenOf::LBrace) {
        Err(e) => Err(e),
        Ok((_, s1)) => {
            let s2 = sp_skip_newlines(t, s1);
            if ahead(t, s, s2) {
                match sp_struct_fields(t, s2, seq![]) {
                    Err(e) => Err(e),
                    Ok((fields, s3)) => Ok(
                        (SExpr::StructLit { name, fields, line: line as usize }, adv(t, s3)),
                    ),
                }
            } else {
                stuck()
            }
        },
    }
}

/// { 元素 } 之后的部分（s 位于 { 之前）；结果为元素序列与 } 之后的状态
pub open spec fn sp_braced_elems(t: TS, s: PState, unclosed: Seq<char>) -> PR<Seq<SExpr>>
    decreases t.len() - s.pos, 18int,
{
    match sp_expect(t, s, TokenOf::LBrace) {
        Err(e) => Err(e),
        Ok((_, s1)) => {
            let s2 = sp_skip_newlines(t, s1);
            if ahead(t, s, s2) {
                match sp_elems(t, s2, seq![], unclosed) {
                    Err(e) => Err(e),
                    Ok((elems, s3)) => Ok((elems, adv(t, s3))),
                }
            } else {
                stuck()
            }
        },
    }
}

/// map[K]V{ k: v, ... }（s 位于 map 之前）
pub open spec fn sp_map_lit(t: TS, s: PState) -> PR<SExpr>
    decreases t.len() - s.pos, 17int,
{
    match sp_map_type(t, s) {
        Err(e) => Err(e),
        Ok((ty, s1)) => match ty {
            Ty::MapOf(map) => match sp_expect(t, s1, TokenOf::LBrace) {
                Err(e) => Err(e),
                Ok((_, s2)) => {
                    let s3 = sp_skip_newlines(t, s2);
                    if ahead(t, s, s3) {
                        match sp_map_entries(t, s3, seq![]) {
                            Err(e) => Err(e),
                            Ok((entries, s4)) => Ok((SExpr::MapLit { map, entries }, adv(t, s4))),
                        }
                    } else {
                        stuck()
                    }
                },
            },
            _ => stuck(),
        },
    }
}

/// 两个实参的内建调用 (a, b)（s 位于内建名之后）
pub open spec fn sp_args2(t: TS, s: PState) -> PR<(SExpr, SExpr)>
    decreases t.len() - s.pos, 18int,
{
    match sp_expect(t, s, TokenOf::LParen) {
        Err(e) => Err(e),
        Ok((_, s1)) => match sp_expr_after(t, s, s1) {
            Err(e) => Err(e),
            Ok((a, s2)) => match sp_expect(t, s2, TokenOf::Comma) {
                Err(e) => Err(e),
                Ok((_, s3)) => match sp_expr_after(t, s, s3) {
                    Err(e) => Err(e),
                    Ok((b, s4)) => match sp_expect(t, s4, TokenOf::RParen) {
                        Err(e) => Err(e),
                        Ok((_, s5)) => Ok(((a, b), s5)),
                    },
                },
            },
        },
    }
}

/// 三个实参的内建调用 (a, b, c)（s 位于内建名之后）
pub open spec fn sp_args3(t: TS, s: PState) -> PR<(SExpr, SExpr, SExpr)>
    decreases t.len() - s.pos, 18int,
{
    match sp_expect(t, s, TokenOf::LParen) {
        Err(e) => Err(e),
        Ok((_, s1)) => match sp_expr_after(t, s, s1) {
            Err(e) => Err(e),
            Ok((a, s2)) => match sp_expect(t, s2, TokenOf::Comma) {
                Err(e) => Err(e),
                Ok((_, s3)) => match sp_expr_after(t, s, s3) {
                    Err(e) => Err(e),
                    Ok((b, s4)) => match sp_expect(t, s4, TokenOf::Comma) {
                        Err(e) => Err(e),
                        Ok((_, s5)) => match sp_expr_after(t, s, s5) {
                            Err(e) => Err(e),
                            Ok((c, s6)) => match sp_expect(t, s6, TokenOf::RParen) {
                                Err(e) => Err(e),
                                Ok((_, s7)) => Ok(((a, b, c), s7)),
                            },
                        },
                    },
                },
            },
        },
    }
}

/// 一个实参的内建调用 (a)（s 位于内建名之后）
pub open spec fn sp_args1(t: TS, s: PState) -> PR<SExpr>
    decreases t.len() - s.pos, 18int,
{
    match sp_expect(t, s, TokenOf::LParen) {
        Err(e) => Err(e),
        Ok((_, s1)) => match sp_expr_after(t, s, s1) {
            Err(e) => Err(e),
            Ok((a, s2)) => match sp_expect(t, s2, TokenOf::RParen) {
                Err(e) => Err(e),
                Ok((_, s3)) => Ok((a, s3)),
            },
        },
    }
}

/// 内建函数调用（s 位于内建名之后）
pub open spec fn sp_builtin(t: TS, s: PState, name: Seq<char>) -> PR<SExpr>
    decreases t.len() - s.pos, 19int,
{
    if name == "push"@ {
        match sp_args2(t, s) {
            Err(e) => Err(e),
            Ok(((a, b), s1)) => Ok((SExpr::Push { arr: Box::new(a), value: Box::new(b) }, s1)),
        }
    } else if name == "has"@ {
        match sp_args2(t, s) {
            Err(e) => Err(e),
            Ok(((a, b), s1)) => Ok((SExpr::Has { map: Box::new(a), key: Box::new(b) }, s1)),
        }
    } else if name == "sub"@ {
        match sp_args3(t, s) {
            Err(e) => Err(e),
            Ok(((a, b, c), s1)) => Ok(
                (SExpr::Sub { s: Box::new(a), start: Box::new(b), n: Box::new(c) }, s1),
            ),
        }
    } else if name == "sel"@ {
        match sp_args3(t, s) {
            Err(e) => Err(e),
            Ok(((a, b, c), s1)) => Ok(
                (SExpr::Sel { cond: Box::new(a), a: Box::new(b), b: Box::new(c) }, s1),
            ),
        }
    } else {
        match sp_args1(t, s) {
            Err(e) => Err(e),
            Ok((a, s1)) => Ok(
                (
                    if name == "len"@ {
                        SExpr::Len(Box::new(a))
                    } else if name == "keys"@ {
                        SExpr::Keys(Box::new(a))
                    } else if name == "values"@ {
                        SExpr::Values(Box::new(a))
                    } else {
                        SExpr::Convert { name, arg: Box::new(a) }
                    },
                    s1,
                ),
            ),
        }
    }
}

/// 标识符开头的初等表达式（s 位于标识符之前）
pub open spec fn sp_ident_primary(t: TS, s: PState, name: Seq<char>) -> PR<SExpr>
    decreases t.len() - s.pos, 19int,
{
    let line = cur_line(t, s);
    let s1 = adv(t, s);
    if name == "map"@ && peek2(t, s) == Some(TokenOf::<Seq<char>>::LBracket) {
        sp_map_lit(t, s)
    } else if cur(t, s1) == TokenOf::<Seq<char>>::LBrace && struct_index(s1.structs, name, 0)
        < s1.structs.len() {
        if ahead(t, s, s1) {
            sp_struct_lit(t, s1, name, line)
        } else {
            stuck()
        }
    } else if cur(t, s1) == TokenOf::<Seq<char>>::LBracket && scalar_of_name(name) is Some {
        match sp_arr_suffix(t, s1, scalar_of_name(name)->Some_0) {
            Err(e) => Err(e),
            Ok((ty, s2)) => match ty {
                Ty::Arr(arr) => if ahead(t, s, s2) {
                    match sp_braced_elems(t, s2, "数组字面量未闭合（缺少 }）"@) {
                        Err(e) => Err(e),
                        Ok((elems, s3)) => Ok((SExpr::ArrLit { arr, elems }, s3)),
                    }
                } else {
                    stuck()
                },
                _ => stuck(),
            },
        }
    } else if cur(t, s1) == TokenOf::<Seq<char>>::LBracket && name == "str"@ {
        Err(perr(t, s1, "str 不能声明为数组（v3.3 数组仅支持 i32/i64/f64/bool 元素）"@))
    } else {
        Ok((SExpr::Var(name), s1))
    }
}

/// 动态数组字面量 []T{...}（s 位于 [ 之前）
pub open spec fn sp_darr_lit(t: TS, s: PState) -> PR<SExpr>
    decreases t.len() - s.pos, 19int,
{
    match sp_darr_type_rest(t, adv(t, s)) {
        Err(e) => Err(e),
        Ok((ty, s1)) => match ty {
            Ty::DArr(darr) => if ahead(t, s, s1) {
                match sp_braced_elems(t, s1, "动态数组字面量未闭合（缺少 }）"@) {
                    Err(e) => Err(e),
                    Ok((elems, s2)) => Ok((SExpr::DArrLit { darr, elems }, s2)),
                }
            } else {
                stuck()
            },
            _ => stuck(),
        },
    }
}

/// 初等表达式
pub open spec fn sp_primary(t: TS, s: PState) -> PR<SExpr>
    decreases t.len() - s.pos, 20int,
{
    let s1 = adv(t, s);
    match cur(t, s) {
        TokenOf::Int(v) => Ok((SExpr::Int(v), s1)),
        TokenOf::Float(v) => Ok((SExpr::Float(v), s1)),
        TokenOf::Str(v) => Ok((SExpr::Str(v), s1)),
        TokenOf::Bool(b) => Ok((SExpr::Bool(b), s1)),
        TokenOf::Ident(name) => sp_ident_primary(t, s, name),
        TokenOf::ConvertFn(name) => sp_builtin(t, s1, name),
        TokenOf::LParen => match sp_expr_after(t, s, s1) {
            Err(e) => Err(e),
            Ok((e, s2)) => match sp_expect(t, s2, TokenOf::RParen) {
                Err(e) => Err(e),
                Ok((_, s3)) => Ok((e, s3)),
            },
        },
        TokenOf::LBracket => sp_darr_lit(t, s),
        other => Err(perr(t, s, "期望表达式，实际 '"@ + spec_tok_display(other) + "'"@)),
    }
}


// ───────────────────────── 实现：表达式 ─────────────────────────

proof fn lemma_exprs_push(v: Seq<Expr>, x: Expr)
    ensures
        exprs_view(v.push(x)) == exprs_view(v).push(x@),
        exprs_view(Seq::<Expr>::empty()) == Seq::<SExpr>::empty(),
{
    assert(exprs_view(v.push(x)) =~= exprs_view(v).push(x@));
    assert(exprs_view(Seq::<Expr>::empty()) =~= Seq::<SExpr>::empty());
}

proof fn lemma_fields_push(v: Seq<(Option<String>, Expr)>, x: (Option<String>, Expr))
    ensures
        field_inits_view(v.push(x)) == field_inits_view(v).push((opt_str_view(x.0), x.1@)),
        field_inits_view(Seq::<(Option<String>, Expr)>::empty()) == Seq::<
            (Option<Seq<char>>, SExpr),
        >::empty(),
{
    assert(field_inits_view(v.push(x)) =~= field_inits_view(v).push((opt_str_view(x.0), x.1@)));
    assert(field_inits_view(Seq::<(Option<String>, Expr)>::empty()) =~= Seq::<
        (Option<Seq<char>>, SExpr),
    >::empty());
}

proof fn lemma_entries_push(v: Seq<(Expr, Expr)>, x: (Expr, Expr))
    ensures
        entries_view(v.push(x)) == entries_view(v).push((x.0@, x.1@)),
        entries_view(Seq::<(Expr, Expr)>::empty()) == Seq::<(SExpr, SExpr)>::empty(),
{
    assert(entries_view(v.push(x)) =~= entries_view(v).push((x.0@, x.1@)));
    assert(entries_view(Seq::<(Expr, Expr)>::empty()) =~= Seq::<(SExpr, SExpr)>::empty());
}

fn cmp_op_of(k: &Tok) -> (r: Option<BinOp>)
    ensures
        r == cmp_op(k@),
{
    match k {
        TokenOf::Le => Some(BinOp::Le),
        TokenOf::Ge => Some(BinOp::Ge),
        TokenOf::Eq => Some(BinOp::Eq),
        TokenOf::Ne => Some(BinOp::Ne),
        TokenOf::Lt => Some(BinOp::Lt),
        TokenOf::Gt => Some(BinOp::Gt),
        _ => None,
    }
}

fn add_op_of(k: &Tok) -> (r: Option<BinOp>)
    ensures
        r == add_op(k@),
{
    match k {
        TokenOf::Plus => Some(BinOp::Add),
        TokenOf::Minus => Some(BinOp::Sub),
        _ => None,
    }
}

fn mul_op_of(k: &Tok) -> (r: Option<BinOp>)
    ensures
        r == mul_op(k@),
{
    match k {
        TokenOf::Star => Some(BinOp::Mul),
        TokenOf::Slash => Some(BinOp::Div),
        _ => None,
    }
}

impl Parser {
    fn parse_expr(&mut self) -> (r: Result<Expr, ParseError>)
        requires
            old(self).wf(),
        ensures
            final(self).moved_from(old(self)),
            r is Ok ==> final(self).pos > old(self).pos,
            outcome(r, final(self).st(), sp_expr(old(self).tv(), old(self).st()), |x: Expr| x@),
        decreases old(self).toks@.len() - old(self).pos, 30int,
    {
        self.parse_cmp()
    }

    fn parse_cmp(&mut self) -> (r: Result<Expr, ParseError>)
        requires
            old(self).wf(),
        ensures
            final(self).moved_from(old(self)),
            r is Ok ==> final(self).pos > old(self).pos,
            outcome(r, final(self).st(), sp_cmp(old(self).tv(), old(self).st()), |x: Expr| x@),
        decreases old(self).toks@.len() - old(self).pos, 29int,
    {
        let mut lhs = self.parse_add()?;
        loop
            invariant
                old(self).wf(),
                self.moved_from(old(self)),
                self.pos > old(self).pos,
                sp_cmp_loop(self.tv(), self.st(), lhs@) == sp_cmp(old(self).tv(), old(self).st()),
            decreases self.toks@.len() - self.pos,
        {
            let op = match cmp_op_of(self.peek()) {
                Some(op) => op,
                None => {
                    return Ok(lhs);
                },
            };
            proof {
                self.lemma_not_last();
            }
            self.bump();
            let rhs = self.parse_add()?;
            lhs = Expr::Bin { op, lhs: Box::new(lhs), rhs: Box::new(rhs) };
        }
    }

    fn parse_add(&mut self) -> (r: Result<Expr, ParseError>)
        requires
            old(self).wf(),
        ensures
            final(self).moved_from(old(self)),
            r is Ok ==> final(self).pos > old(self).pos,
            outcome(r, final(self).st(), sp_add(old(self).tv(), old(self).st()), |x: Expr| x@),
        decreases old(self).toks@.len() - old(self).pos, 27int,
    {
        let mut lhs = self.parse_mul()?;
        loop
            invariant
                old(self).wf(),
                self.moved_from(old(self)),
                self.pos > old(self).pos,
                sp_add_loop(self.tv(), self.st(), lhs@) == sp_add(old(self).tv(), old(self).st()),
            decreases self.toks@.len() - self.pos,
        {
            let op = match add_op_of(self.peek()) {
                Some(op) => op,
                None => {
                    return Ok(lhs);
                },
            };
            proof {
                self.lemma_not_last();
            }
            self.bump();
            let rhs = self.parse_mul()?;
            lhs = Expr::Bin { op, lhs: Box::new(lhs), rhs: Box::new(rhs) };
        }
    }

    fn parse_mul(&mut self) -> (r: Result<Expr, ParseError>)
        requires
            old(self).wf(),
        ensures
            final(self).moved_from(old(self)),
            r is Ok ==> final(self).pos > old(self).pos,
            outcome(r, final(self).st(), sp_mul(old(self).tv(), old(self).st()), |x: Expr| x@),
        decreases old(self).toks@.len() - old(self).pos, 25int,
    {
        let mut lhs = self.parse_unary()?;
        loop
            invariant
                old(self).wf(),
                self.moved_from(old(self)),
                self.pos > old(self).pos,
                sp_mul_loop(self.tv(), self.st(), lhs@) == sp_mul(old(self).tv(), old(self).st()),
            decreases self.toks@.len() - self.pos,
        {
            let op = match mul_op_of(self.peek()) {
                Some(op) => op,
                None => {
                    return Ok(lhs);
                },
            };
            proof {
                self.lemma_not_last();
            }
            self.bump();
            let rhs = self.parse_unary()?;
            lhs = Expr::Bin { op, lhs: Box::new(lhs), rhs: Box::new(rhs) };
        }
    }

    fn parse_unary(&mut self) -> (r: Result<Expr, ParseError>)
        requires
            old(self).wf(),
        ensures
            final(self).moved_from(old(self)),
            r is Ok ==> final(self).pos > old(self).pos,
            outcome(r, final(self).st(), sp_unary(old(self).tv(), old(self).st()), |x: Expr| x@),
        decreases old(self).toks@.len() - old(self).pos, 23int,
    {
        if self.peek().is(&TokenOf::Minus) {
            proof {
                self.lemma_not_last();
            }
            self.bump();
            let e = self.parse_unary()?;
            return Ok(Expr::Neg(Box::new(e)));
        }
        if self.peek().is(&TokenOf::Amp) {
            proof {
                self.lemma_not_last();
            }
            self.bump();
            let e = self.parse_unary()?;
            return Ok(Expr::Borrow(Box::new(e)));
        }
        self.parse_postfix()
    }
}


impl Parser {
    #[verifier::spinoff_prover]
    #[verifier::rlimit(40)]
    fn parse_postfix(&mut self) -> (r: Result<Expr, ParseError>)
        requires
            old(self).wf(),
        ensures
            final(self).moved_from(old(self)),
            r is Ok ==> final(self).pos > old(self).pos,
            outcome(r, final(self).st(), sp_postfix(old(self).tv(), old(self).st()), |x: Expr| x@),
        decreases old(self).toks@.len() - old(self).pos, 22int,
    {
        let mut e = self.parse_primary()?;
        loop
            invariant
                old(self).wf(),
                self.moved_from(old(self)),
                self.pos > old(self).pos,
                sp_postfix_loop(self.tv(), self.st(), e@) == sp_postfix(old(self).tv(), old(self).st()),
            decreases self.toks@.len() - self.pos,
        {
            if self.peek().is(&TokenOf::LParen) {
                let callee = match e {
                    Expr::Var(name) => name,
                    _ => {
                        return Err(self.err("只有函数名可直接调用".to_string()));
                    },
                };
                e = self.parse_call_suffix(callee)?;
            } else if self.peek().is(&TokenOf::Dot) {
                proof {
                    self.lemma_not_last();
                }
                self.bump();
                let f = self.expect_ident()?;
                e = Expr::Field(Box::new(e), f);
            } else if self.peek().is(&TokenOf::LBracket) {
                e = self.parse_index_suffix(e)?;
            } else {
                return Ok(e);
            }
        }
    }

    /// 调用后缀 (实参...)
    fn parse_call_suffix(&mut self, name: String) -> (r: Result<Expr, ParseError>)
        requires
            old(self).wf(),
            cur(old(self).tv(), old(self).st()) == TokenOf::<Seq<char>>::LParen,
        ensures
            final(self).moved_from(old(self)),
            r is Ok ==> final(self).pos > old(self).pos,
            outcome(r, final(self).st(), sp_call_suffix(old(self).tv(), old(self).st(), name@), |x: Expr| x@),
        decreases old(self).toks@.len() - old(self).pos, 20int,
    {
        proof {
            self.lemma_not_last();
        }
        self.bump();
        let args = if !self.peek().is(&TokenOf::RParen) {
            self.parse_call_args()?
        } else {
            proof {
                lemma_exprs_push(seq![], Expr::Int(0));
            }
            Vec::new()
        };
        self.expect(&TokenOf::RParen)?;
        Ok(Expr::Call { name, args })
    }

    /// 下标后缀 [i]
    fn parse_index_suffix(&mut self, e: Expr) -> (r: Result<Expr, ParseError>)
        requires
            old(self).wf(),
            cur(old(self).tv(), old(self).st()) == TokenOf::<Seq<char>>::LBracket,
        ensures
            final(self).moved_from(old(self)),
            r is Ok ==> final(self).pos > old(self).pos,
            outcome(r, final(self).st(), sp_index_suffix(old(self).tv(), old(self).st(), e@), |x: Expr| x@),
        decreases old(self).toks@.len() - old(self).pos, 20int,
    {
        proof {
            self.lemma_not_last();
        }
        self.bump();
        let idx = self.parse_expr()?;
        self.expect(&TokenOf::RBracket)?;
        Ok(Expr::Index(Box::new(e), Box::new(idx)))
    }

    /// 调用实参 e (, e)*
    fn parse_call_args(&mut self) -> (r: Result<Vec<Expr>, ParseError>)
        requires
            old(self).wf(),
        ensures
            final(self).moved_from(old(self)),
            r is Ok ==> final(self).pos > old(self).pos,
            outcome(
                r,
                final(self).st(),
                sp_call_args(old(self).tv(), old(self).st(), seq![]),
                |x: Vec<Expr>| exprs_view(x@),
            ),
        decreases old(self).toks@.len() - old(self).pos, 31int,
    {
        let mut args: Vec<Expr> = Vec::new();
        proof {
            lemma_exprs_push(seq![], Expr::Int(0));
        }
        loop
            invariant
                old(self).wf(),
                self.moved_from(old(self)),
                args@.len() > 0 ==> self.pos > old(self).pos,
                sp_call_args(self.tv(), self.st(), exprs_view(args@)) == sp_call_args(
                    old(self).tv(),
                    old(self).st(),
                    seq![],
                ),
            decreases self.toks@.len() - self.pos,
        {
            let a = self.parse_expr()?;
            proof {
                lemma_exprs_push(args@, a);
            }
            args.push(a);
            if self.peek().is(&TokenOf::Comma) {
                proof {
                    self.lemma_not_last();
                }
                self.bump();
            } else {
                return Ok(args);
            }
        }
    }

    /// { 元素 } 中的元素（止于 }）
    fn parse_elems(&mut self, unclosed: &str) -> (r: Result<Vec<Expr>, ParseError>)
        requires
            old(self).wf(),
        ensures
            final(self).moved_from(old(self)),
            outcome(
                r,
                final(self).st(),
                sp_elems(old(self).tv(), old(self).st(), seq![], unclosed@),
                |x: Vec<Expr>| exprs_view(x@),
            ),
        decreases old(self).toks@.len() - old(self).pos, 31int,
    {
        let mut acc: Vec<Expr> = Vec::new();
        proof {
            lemma_exprs_push(seq![], Expr::Int(0));
        }
        loop
            invariant
                old(self).wf(),
                self.moved_from(old(self)),
                sp_elems(self.tv(), self.st(), exprs_view(acc@), unclosed@) == sp_elems(
                    old(self).tv(),
                    old(self).st(),
                    seq![],
                    unclosed@,
                ),
            decreases self.toks@.len() - self.pos,
        {
            if self.peek().is(&TokenOf::RBrace) {
                return Ok(acc);
            }
            if self.peek().is(&TokenOf::Eof) {
                return Err(self.err(String::from_str(unclosed)));
            }
            let e = self.parse_expr()?;
            proof {
                lemma_exprs_push(acc@, e);
            }
            acc.push(e);
            if self.peek().is(&TokenOf::Comma) {
                self.bump();
            }
            self.skip_newlines();
        }
    }

    /// 结构体字面量的字段
    fn parse_struct_fields(&mut self) -> (r: Result<Vec<(Option<String>, Expr)>, ParseError>)
        requires
            old(self).wf(),
        ensures
            final(self).moved_from(old(self)),
            outcome(
                r,
                final(self).st(),
                sp_struct_fields(old(self).tv(), old(self).st(), seq![]),
                |x: Vec<(Option<String>, Expr)>| field_inits_view(x@),
            ),
        decreases old(self).toks@.len() - old(self).pos, 31int,
    {
        let mut acc: Vec<(Option<String>, Expr)> = Vec::new();
        proof {
            lemma_fields_push(seq![], (None, Expr::Int(0)));
        }
        loop
            invariant
                old(self).wf(),
                self.moved_from(old(self)),
                sp_struct_fields(self.tv(), self.st(), field_inits_view(acc@)) == sp_struct_fields(
                    old(self).tv(),
                    old(self).st(),
                    seq![],
                ),
            decreases self.toks@.len() - self.pos,
        {
            if self.peek().is(&TokenOf::RBrace) {
                return Ok(acc);
            }
            if self.peek().is(&TokenOf::Eof) {
                return Err(self.err(String::from_str("结构体字面量未闭合（缺少 }）")));
            }
            let named = match (self.peek(), self.peek2()) {
                (TokenOf::Ident(_), Some(TokenOf::Colon)) => true,
                _ => false,
            };
            let fname = if named {
                let n = self.expect_ident()?;
                self.bump();
                Some(n)
            } else {
                None
            };
            let v = self.parse_expr()?;
            proof {
                lemma_fields_push(acc@, (fname, v));
            }
            acc.push((fname, v));
            if self.peek().is(&TokenOf::Comma) {
                self.bump();
            }
            self.skip_newlines();
        }
    }

    /// map 字面量的条目
    fn parse_map_entries(&mut self) -> (r: Result<Vec<(Expr, Expr)>, ParseError>)
        requires
            old(self).wf(),
        ensures
            final(self).moved_from(old(self)),
            outcome(
                r,
                final(self).st(),
                sp_map_entries(old(self).tv(), old(self).st(), seq![]),
                |x: Vec<(Expr, Expr)>| entries_view(x@),
            ),
        decreases old(self).toks@.len() - old(self).pos, 32int,
    {
        let mut acc: Vec<(Expr, Expr)> = Vec::new();
        proof {
            lemma_entries_push(seq![], (Expr::Int(0), Expr::Int(0)));
        }
        loop
            invariant
                old(self).wf(),
                self.moved_from(old(self)),
                sp_map_entries(self.tv(), self.st(), entries_view(acc@)) == sp_map_entries(
                    old(self).tv(),
                    old(self).st(),
                    seq![],
                ),
            decreases self.toks@.len() - self.pos,
        {
            if self.peek().is(&TokenOf::RBrace) {
                return Ok(acc);
            }
            if self.peek().is(&TokenOf::Eof) {
                return Err(self.err(String::from_str("map 字面量未闭合（缺少 }）")));
            }
            let (k, v) = self.parse_map_entry()?;
            proof {
                lemma_entries_push(acc@, (k, v));
            }
            acc.push((k, v));
            if self.peek().is(&TokenOf::Comma) {
                self.bump();
            }
            self.skip_newlines();
        }
    }

    /// 一个 map 条目 k: v
    fn parse_map_entry(&mut self) -> (r: Result<(Expr, Expr), ParseError>)
        requires
            old(self).wf(),
        ensures
            final(self).moved_from(old(self)),
            r is Ok ==> final(self).pos > old(self).pos,
            outcome(
                r,
                final(self).st(),
                sp_map_entry(old(self).tv(), old(self).st()),
                |x: (Expr, Expr)| (x.0@, x.1@),
            ),
        decreases old(self).toks@.len() - old(self).pos, 31int,
    {
        let k = self.parse_expr()?;
        self.expect(&TokenOf::Colon)?;
        let v = self.parse_expr()?;
        Ok((k, v))
    }

    /// 结构体字面量 Name{...}（名字已消费）
    fn parse_struct_lit(&mut self, name: String, line: usize) -> (r: Result<Expr, ParseError>)
        requires
            old(self).wf(),
        ensures
            final(self).moved_from(old(self)),
            r is Ok ==> final(self).pos > old(self).pos,
            outcome(
                r,
                final(self).st(),
                sp_struct_lit(old(self).tv(), old(self).st(), name@, line as int),
                |x: Expr| x@,
            ),
        decreases old(self).toks@.len() - old(self).pos, 19int,
    {
        self.expect(&TokenOf::LBrace)?;
        self.skip_newlines();
        let fields = self.parse_struct_fields()?;
        self.bump();
        Ok(Expr::StructLit { name, fields, line })
    }

    /// { 元素 }，结果为元素列表（} 已消费）
    fn parse_braced_elems(&mut self, unclosed: &str) -> (r: Result<Vec<Expr>, ParseError>)
        requires
            old(self).wf(),
        ensures
            final(self).moved_from(old(self)),
            r is Ok ==> final(self).pos > old(self).pos,
            outcome(
                r,
                final(self).st(),
                sp_braced_elems(old(self).tv(), old(self).st(), unclosed@),
                |x: Vec<Expr>| exprs_view(x@),
            ),
        decreases old(self).toks@.len() - old(self).pos, 18int,
    {
        self.expect(&TokenOf::LBrace)?;
        self.skip_newlines();
        let elems = self.parse_elems(unclosed)?;
        self.bump();
        Ok(elems)
    }

    /// map[K]V{ k: v, ... }
    fn parse_map_lit(&mut self) -> (r: Result<Expr, ParseError>)
        requires
            old(self).wf(),
        ensures
            final(self).moved_from(old(self)),
            r is Ok ==> final(self).pos > old(self).pos,
            outcome(r, final(self).st(), sp_map_lit(old(self).tv(), old(self).st()), |x: Expr| x@),
        decreases old(self).toks@.len() - old(self).pos, 17int,
    {
        let ty = self.parse_map_type()?;
        let map = match ty {
            Ty::MapOf(i) => i,
            _ => {
                proof {
                    assert(false);
                }
                return Err(self.err(String::new()));
            },
        };
        self.expect(&TokenOf::LBrace)?;
        self.skip_newlines();
        let entries = self.parse_map_entries()?;
        self.bump();
        Ok(Expr::MapLit { map, entries })
    }

    /// (a)
    fn parse_args1(&mut self) -> (r: Result<Expr, ParseError>)
        requires
            old(self).wf(),
        ensures
            final(self).moved_from(old(self)),
            r is Ok ==> final(self).pos > old(self).pos,
            outcome(r, final(self).st(), sp_args1(old(self).tv(), old(self).st()), |x: Expr| x@),
        decreases old(self).toks@.len() - old(self).pos, 18int,
    {
        self.expect(&TokenOf::LParen)?;
        let a = self.parse_expr()?;
        self.expect(&TokenOf::RParen)?;
        Ok(a)
    }

    /// (a, b)
    fn parse_args2(&mut self) -> (r: Result<(Expr, Expr), ParseError>)
        requires
            old(self).wf(),
        ensures
            final(self).moved_from(old(self)),
            r is Ok ==> final(self).pos > old(self).pos,
            outcome(
                r,
                final(self).st(),
                sp_args2(old(self).tv(), old(self).st()),
                |x: (Expr, Expr)| (x.0@, x.1@),
            ),
        decreases old(self).toks@.len() - old(self).pos, 18int,
    {
        self.expect(&TokenOf::LParen)?;
        let a = self.parse_expr()?;
        self.expect(&TokenOf::Comma)?;
        let b = self.parse_expr()?;
        self.expect(&TokenOf::RParen)?;
        Ok((a, b))
    }

    /// (a, b, c)
    fn parse_args3(&mut self) -> (r: Result<(Expr, Expr, Expr), ParseError>)
        requires
            old(self).wf(),
        ensures
            final(self).moved_from(old(self)),
            r is Ok ==> final(self).pos > old(self).pos,
            outcome(
                r,
                final(self).st(),
                sp_args3(old(self).tv(), old(self).st()),
                |x: (Expr, Expr, Expr)| (x.0@, x.1@, x.2@),
            ),
        decreases old(self).toks@.len() - old(self).pos, 18int,
    {
        self.expect(&TokenOf::LParen)?;
        let a = self.parse_expr()?;
        self.expect(&TokenOf::Comma)?;
        let b = self.parse_expr()?;
        self.expect(&TokenOf::Comma)?;
        let c = self.parse_expr()?;
        self.expect(&TokenOf::RParen)?;
        Ok((a, b, c))
    }

    /// 内建函数调用（名字已消费）
    #[verifier::spinoff_prover]
    #[verifier::rlimit(40)]
    fn parse_builtin(&mut self, name: String) -> (r: Result<Expr, ParseError>)
        requires
            old(self).wf(),
        ensures
            final(self).moved_from(old(self)),
            r is Ok ==> final(self).pos > old(self).pos,
            outcome(r, final(self).st(), sp_builtin(old(self).tv(), old(self).st(), name@), |x: Expr| x@),
        decreases old(self).toks@.len() - old(self).pos, 19int,
    {
        if str_eq(name.as_str(), "push") {
            let (a, b) = self.parse_args2()?;
            return Ok(Expr::Push { arr: Box::new(a), value: Box::new(b) });
        }
        if str_eq(name.as_str(), "has") {
            let (a, b) = self.parse_args2()?;
            return Ok(Expr::Has { map: Box::new(a), key: Box::new(b) });
        }
        if str_eq(name.as_str(), "sub") {
            let (a, b, c) = self.parse_args3()?;
            return Ok(Expr::Sub { s: Box::new(a), start: Box::new(b), n: Box::new(c) });
        }
        if str_eq(name.as_str(), "sel") {
            let (a, b, c) = self.parse_args3()?;
            return Ok(Expr::Sel { cond: Box::new(a), a: Box::new(b), b: Box::new(c) });
        }
        let arg = self.parse_args1()?;
        if str_eq(name.as_str(), "len") {
            return Ok(Expr::Len(Box::new(arg)));
        }
        if str_eq(name.as_str(), "keys") {
            return Ok(Expr::Keys(Box::new(arg)));
        }
        if str_eq(name.as_str(), "values") {
            return Ok(Expr::Values(Box::new(arg)));
        }
        Ok(Expr::Convert { name, arg: Box::new(arg) })
    }

    /// 动态数组字面量 []T{...}
    fn parse_darr_lit(&mut self) -> (r: Result<Expr, ParseError>)
        requires
            old(self).wf(),
            cur(old(self).tv(), old(self).st()) == TokenOf::<Seq<char>>::LBracket,
        ensures
            final(self).moved_from(old(self)),
            r is Ok ==> final(self).pos > old(self).pos,
            outcome(r, final(self).st(), sp_darr_lit(old(self).tv(), old(self).st()), |x: Expr| x@),
        decreases old(self).toks@.len() - old(self).pos, 19int,
    {
        proof {
            self.lemma_not_last();
        }
        self.bump();
        let ty = self.parse_darr_rest()?;
        let darr = match ty {
            Ty::DArr(i) => i,
            _ => {
                proof {
                    assert(false);
                }
                return Err(self.err(String::new()));
            },
        };
        let elems = self.parse_braced_elems("动态数组字面量未闭合（缺少 }）")?;
        Ok(Expr::DArrLit { darr, elems })
    }

    /// 标识符开头的初等表达式（标识符尚未消费）
    #[verifier::spinoff_prover]
    #[verifier::rlimit(40)]
    fn parse_ident_primary(&mut self, name: String) -> (r: Result<Expr, ParseError>)
        requires
            old(self).wf(),
            cur(old(self).tv(), old(self).st()) == TokenOf::<Seq<char>>::Ident(name@),
        ensures
            final(self).moved_from(old(self)),
            r is Ok ==> final(self).pos > old(self).pos,
            outcome(
                r,
                final(self).st(),
                sp_ident_primary(old(self).tv(), old(self).st(), name@),
                |x: Expr| x@,
            ),
        decreases old(self).toks@.len() - old(self).pos, 19int,
    {
        let line = self.line();
        let next_is_bracket = match self.peek2() {
            Some(k) => k.is(&TokenOf::LBracket),
            None => false,
        };
        if str_eq(name.as_str(), "map") && next_is_bracket {
            return self.parse_map_lit();
        }
        proof {
            self.lemma_not_last();
        }
        self.bump();
        if self.peek().is(&TokenOf::LBrace) && self.find_struct(name.as_str()) < self.structs.len() {
            return self.parse_struct_lit(name, line);
        }
        if self.peek().is(&TokenOf::LBracket) {
            if let Some(elem) = scalar_type_of(name.as_str()) {
                let ty = self.maybe_arr_suffix(elem)?;
                let arr = match ty {
                    Ty::Arr(i) => i,
                    _ => {
                        proof {
                            assert(false);
                        }
                        return Err(self.err(String::new()));
                    },
                };
                let elems = self.parse_braced_elems("数组字面量未闭合（缺少 }）")?;
                return Ok(Expr::ArrLit { arr, elems });
            }
            if str_eq(name.as_str(), "str") {
                return Err(
                    self.err(String::from_str("str 不能声明为数组（v3.3 数组仅支持 i32/i64/f64/bool 元素）")),
                );
            }
        }
        Ok(Expr::Var(name))
    }

    #[verifier::spinoff_prover]
    #[verifier::rlimit(40)]
    fn parse_primary(&mut self) -> (r: Result<Expr, ParseError>)
        requires
            old(self).wf(),
        ensures
            final(self).moved_from(old(self)),
            r is Ok ==> final(self).pos > old(self).pos,
            outcome(r, final(self).st(), sp_primary(old(self).tv(), old(self).st()), |x: Expr| x@),
        decreases old(self).toks@.len() - old(self).pos, 20int,
    {
        match self.peek() {
            TokenOf::Int(v) => {
                let v = *v;
                proof {
                    self.lemma_not_last();
                }
                self.bump();
                Ok(Expr::Int(v))
            },
            TokenOf::Float(v) => {
                let v = v.clone();
                proof {
                    self.lemma_not_last();
                }
                self.bump();
                Ok(Expr::Float(v))
            },
            TokenOf::Str(v) => {
                let v = v.clone();
                proof {
                    self.lemma_not_last();
                }
                self.bump();
                Ok(Expr::Str(v))
            },
            TokenOf::Bool(b) => {
                let b = *b;
                proof {
                    self.lemma_not_last();
                }
                self.bump();
                Ok(Expr::Bool(b))
            },
            TokenOf::Ident(name) => {
                let name = name.clone();
                self.parse_ident_primary(name)
            },
            TokenOf::ConvertFn(name) => {
                let name = name.clone();
                proof {
                    self.lemma_not_last();
                }
                self.bump();
                self.parse_builtin(name)
            },
            TokenOf::LParen => {
                proof {
                    self.lemma_not_last();
                }
                self.bump();
                let e = self.parse_expr()?;
                self.expect(&TokenOf::RParen)?;
                Ok(e)
            },
            TokenOf::LBracket => self.parse_darr_lit(),
            other => {
                let d = other.display();
                Err(self.err(cat3("期望表达式，实际 '", d.as_str(), "'")))
            },
        }
    }
}


// ───────────────────────── 规约：语句 ─────────────────────────

/// a + 十进制 n + b + 十进制 m + c
pub open spec fn msg_nn(a: Seq<char>, n: nat, b: Seq<char>, m: nat, c: Seq<char>) -> Seq<char> {
    a + radix_text(n, 10) + b + radix_text(m, 10) + c
}

/// panic / check / push / pop / del 语句（s 位于名字之后）
pub open spec fn sp_builtin_stmt(t: TS, s: PState, n: Seq<char>, line: int) -> PR<SStmt> {
    match sp_expect(t, s, TokenOf::LParen) {
        Err(e) => Err(e),
        Ok((_, s1)) => match sp_expr(t, s1) {
            Err(e) => Err(e),
            Ok((first, s2)) => if n == "panic"@ || n == "pop"@ {
                match sp_expect(t, s2, TokenOf::RParen) {
                    Err(e) => Err(e),
                    Ok((_, s3)) => match sp_expect_newline(t, s3) {
                        Err(e) => Err(e),
                        Ok((_, s4)) => Ok(
                            (
                                if n == "panic"@ {
                                    SStmt::Panic(first, line as usize)
                                } else {
                                    SStmt::Expr(SExpr::Pop { arr: Box::new(first) }, line as usize)
                                },
                                s4,
                            ),
                        ),
                    },
                }
            } else {
                match sp_expect(t, s2, TokenOf::Comma) {
                    Err(e) => Err(e),
                    Ok((_, s3)) => match sp_expr(t, s3) {
                        Err(e) => Err(e),
                        Ok((second, s4)) => match sp_expect(t, s4, TokenOf::RParen) {
                            Err(e) => Err(e),
                            Ok((_, s5)) => match sp_expect_newline(t, s5) {
                                Err(e) => Err(e),
                                Ok((_, s6)) => Ok(
                                    (
                                        if n == "del"@ {
                                            SStmt::Expr(
                                                SExpr::Del {
                                                    map: Box::new(first),
                                                    key: Box::new(second),
                                                },
                                                line as usize,
                                            )
                                        } else if n == "check"@ {
                                            SStmt::Check(first, second, line as usize)
                                        } else {
                                            SStmt::Expr(
                                                SExpr::Push {
                                                    arr: Box::new(first),
                                                    value: Box::new(second),
                                                },
                                                line as usize,
                                            )
                                        },
                                        s6,
                                    ),
                                ),
                            },
                        },
                    },
                }
            },
        },
    }
}

pub open spec fn is_stmt_builtin(n: Seq<char>) -> bool {
    n == "panic"@ || n == "check"@ || n == "push"@ || n == "pop"@ || n == "del"@
}

/// 多声明的其余名字：(, 名字)*（names 为已读到的名字）
pub open spec fn sp_more_names(t: TS, s: PState, names: Seq<Seq<char>>) -> PR<Seq<Seq<char>>>
    decreases t.len() - s.pos,
{
    if cur(t, s) == TokenOf::<Seq<char>>::Comma {
        match sp_expect_ident(t, adv(t, s)) {
            Err(e) => Err(e),
            Ok((n, s2)) => if ahead(t, s, s2) {
                sp_more_names(t, s2, names.push(n))
            } else {
                stuck()
            },
        }
    } else {
        Ok((names, s))
    }
}

/// 声明的 = 值 ⏎ 部分
pub open spec fn sp_decl_value(t: TS, s: PState) -> PR<SExpr> {
    match sp_expect(t, s, TokenOf::Assign) {
        Err(e) => Err(e),
        Ok((_, s1)) => match sp_expr(t, s1) {
            Err(e) => Err(e),
            Ok((value, s2)) => match sp_expect_newline(t, s2) {
                Err(e) => Err(e),
                Ok((_, s3)) => Ok((value, s3)),
            },
        },
    }
}

/// 多声明 /a, b = e（s 位于第一个名字之后）
pub open spec fn sp_multi_decl(t: TS, s: PState, mutable: bool, name: Seq<char>, line: int) -> PR<SStmt> {
    match sp_more_names(t, s, seq![name]) {
        Err(e) => Err(e),
        Ok((names, s1)) => match sp_decl_value(t, s1) {
            Err(e) => Err(e),
            Ok((value, s2)) => Ok((SStmt::MultiDecl { mutable, names, value, line: line as usize }, s2)),
        },
    }
}

/// 单声明 /x[:T] = e（s 位于名字之后）
pub open spec fn sp_single_decl(t: TS, s: PState, mutable: bool, name: Seq<char>, line: int) -> PR<SStmt> {
    let ty_r: PR<Option<Ty>> = if cur(t, s) == TokenOf::<Seq<char>>::Colon {
        match sp_type(t, adv(t, s)) {
            Err(e) => Err(e),
            Ok((ty, s1)) => Ok((Some(ty), s1)),
        }
    } else {
        Ok((None, s))
    };
    match ty_r {
        Err(e) => Err(e),
        Ok((ty, s1)) => match sp_decl_value(t, s1) {
            Err(e) => Err(e),
            Ok((value, s2)) => Ok((SStmt::Decl { mutable, name, ty, value, line: line as usize }, s2)),
        },
    }
}

/// 声明 /x[:T] = e、//x[:T] = e、/a, b = e（s 位于声明前缀之前）
pub open spec fn sp_decl_stmt(t: TS, s: PState, line: int) -> PR<SStmt> {
    let mutable = cur(t, s) is MutableDecl;
    match sp_expect_ident(t, adv(t, s)) {
        Err(e) => Err(e),
        Ok((name, s1)) => if cur(t, s1) == TokenOf::<Seq<char>>::Comma {
            sp_multi_decl(t, s1, mutable, name, line)
        } else {
            sp_single_decl(t, s1, mutable, name, line)
        },
    }
}

/// 当前函数返回类型为元组时的元组序号
pub open spec fn ret_tuple(s: PState) -> Option<u32> {
    if s.ret_stack.len() > 0 {
        match s.ret_stack.last() {
            Ty::Tuple(k) => Some(k),
            _ => None,
        }
    } else {
        None
    }
}

/// 多值返回中第一个元素之后的元素：(, e)*（最多 want 个）
pub open spec fn sp_ret_items(t: TS, s: PState, elems: Seq<SExpr>, want: nat) -> PR<Seq<SExpr>>
    decreases t.len() - s.pos,
{
    if cur(t, s) == TokenOf::<Seq<char>>::Comma {
        let s1 = adv(t, s);
        if elems.len() >= want {
            Err(perr(t, s1, "元组返回期望 "@ + radix_text(want, 10) + " 个元素，实际更多"@))
        } else {
            match sp_expr(t, s1) {
                Err(e) => Err(e),
                Ok((e, s2)) => if ahead(t, s, s2) {
                    sp_ret_items(t, s2, elems.push(e), want)
                } else {
                    stuck()
                },
            }
        }
    } else {
        Ok((elems, s))
    }
}

/// 多值返回 r/e1, e2, ...（s 位于 e1 之后的逗号处；tid 为返回元组序号）
pub open spec fn sp_tuple_return(t: TS, s: PState, e: SExpr, tid: u32, line: int) -> PR<SStmt> {
    let want = s.tuples[tid as int].len();
    match sp_ret_items(t, s, seq![e], want) {
        Err(e) => Err(e),
        Ok((elems, s2)) => if elems.len() != want {
            Err(perr(t, s2, msg_nn("元组返回期望 "@, want, " 个元素，实际 "@, elems.len(), " 个"@)))
        } else {
            match sp_expect_newline(t, s2) {
                Err(e) => Err(e),
                Ok((_, s3)) => Ok(
                    (SStmt::Return(Some(SExpr::TupExpr { elems, tup: tid }), line as usize), s3),
                ),
            }
        },
    }
}

/// r/ 返回语句（s 位于 r/ 之后）
pub open spec fn sp_return_stmt(t: TS, s: PState, line: int) -> PR<SStmt> {
    if cur(t, s) is Newline || cur(t, s) is Eof {
        match sp_expect_newline(t, s) {
            Err(e) => Err(e),
            Ok((_, s1)) => Ok((SStmt::Return(None, line as usize), s1)),
        }
    } else {
        match sp_expr(t, s) {
            Err(e) => Err(e),
            Ok((e, s1)) => if cur(t, s1) == TokenOf::<Seq<char>>::Comma {
                match ret_tuple(s) {
                    None => Err(perr(t, s1, "多值返回要求函数返回类型是元组 (T1, T2, ...)"@)),
                    Some(tid) => sp_tuple_return(t, s1, e, tid, line),
                }
            } else {
                match sp_expect_newline(t, s1) {
                    Err(e) => Err(e),
                    Ok((_, s2)) => Ok((SStmt::Return(Some(e), line as usize), s2)),
                }
            },
        }
    }
}

/// 标识符开头的语句：赋值或表达式语句（s 位于标识符之前）
pub open spec fn sp_ident_stmt(t: TS, s: PState, line: int) -> PR<SStmt> {
    match sp_expr(t, s) {
        Err(e) => Err(e),
        Ok((target, s1)) => if cur(t, s1) == TokenOf::<Seq<char>>::Assign {
            match sp_expr(t, adv(t, s1)) {
                Err(e) => Err(e),
                Ok((value, s2)) => match sp_expect_newline(t, s2) {
                    Err(e) => Err(e),
                    Ok((_, s3)) => Ok((SStmt::Assign { target, value, line: line as usize }, s3)),
                },
            }
        } else {
            match sp_expect_newline(t, s1) {
                Err(e) => Err(e),
                Ok((_, s2)) => Ok((SStmt::Expr(target, line as usize), s2)),
            }
        },
    }
}

/// 语句块 { 之后：语句序列直到 }（含 }，以及其后可选的一个换行）
pub open spec fn sp_block(t: TS, s: PState) -> PR<Seq<SStmt>>
    decreases t.len() - s.pos, 3int,
{
    let s1 = sp_skip_newlines(t, s);
    if s.pos <= s1.pos <= t.len() {
        sp_block_items(t, s1, seq![])
    } else {
        stuck()
    }
}

pub open spec fn sp_block_items(t: TS, s: PState, acc: Seq<SStmt>) -> PR<Seq<SStmt>>
    decreases t.len() - s.pos, 2int,
{
    if cur(t, s) == TokenOf::<Seq<char>>::RBrace {
        let s1 = adv(t, s);
        Ok((acc, if cur(t, s1) is Newline {
            adv(t, s1)
        } else {
            s1
        }))
    } else if cur(t, s) is Eof {
        Err(perr(t, s, "块未闭合（缺少 }）"@))
    } else {
        match sp_stmt(t, s) {
            Err(e) => Err(e),
            Ok((st, s1)) => {
                let s2 = sp_skip_newlines(t, s1);
                if ahead(t, s, s2) {
                    sp_block_items(t, s2, acc.push(st))
                } else {
                    stuck()
                }
            },
        }
    }
}

/// w/ cond { body }（s 位于 w/ 之前）
pub open spec fn sp_while_stmt(t: TS, s: PState, line: int) -> PR<SStmt>
    decreases t.len() - s.pos, 0int,
{
    match sp_expr(t, adv(t, s)) {
        Err(e) => Err(e),
        Ok((cond, s1)) => match sp_expect(t, s1, TokenOf::LBrace) {
            Err(e) => Err(e),
            Ok((_, s2)) => if ahead(t, s, s2) {
                match sp_block(t, s2) {
                    Err(e) => Err(e),
                    Ok((body, s3)) => Ok((SStmt::While { cond, body, line: line as usize }, s3)),
                }
            } else {
                stuck()
            },
        },
    }
}

/// 可选的 e/ { else }（s 位于 if 块之后）
pub open spec fn sp_else(t: TS, s: PState) -> PR<Option<Seq<SStmt>>>
    decreases t.len() - s.pos, 0int,
{
    if cur(t, s) == TokenOf::<Seq<char>>::Else {
        match sp_expect(t, adv(t, s), TokenOf::LBrace) {
            Err(e) => Err(e),
            Ok((_, s1)) => if ahead(t, s, s1) {
                match sp_block(t, s1) {
                    Err(e) => Err(e),
                    Ok((b, s2)) => Ok((Some(b), s2)),
                }
            } else {
                stuck()
            },
        }
    } else {
        Ok((None, s))
    }
}

/// i/ cond { body } [e/ { else }]（s 位于 i/ 之前）
pub open spec fn sp_if_stmt(t: TS, s: PState, line: int) -> PR<SStmt>
    decreases t.len() - s.pos, 0int,
{
    match sp_expr(t, adv(t, s)) {
        Err(e) => Err(e),
        Ok((cond, s1)) => match sp_expect(t, s1, TokenOf::LBrace) {
            Err(e) => Err(e),
            Ok((_, s2)) => if ahead(t, s, s2) {
                match sp_block(t, s2) {
                    Err(e) => Err(e),
                    Ok((body, s3)) => if ahead(t, s, s3) {
                        match sp_else(t, s3) {
                            Err(e) => Err(e),
                            Ok((else_body, s4)) => Ok(
                                (SStmt::If { cond, body, else_body, line: line as usize }, s4),
                            ),
                        }
                    } else {
                        stuck()
                    },
                }
            } else {
                stuck()
            },
        },
    }
}

/// 语句
pub open spec fn sp_stmt(t: TS, s: PState) -> PR<SStmt>
    decreases t.len() - s.pos, 1int,
{
    let line = cur_line(t, s);
    let s1 = adv(t, s);
    match cur(t, s) {
        TokenOf::Break => match sp_expect_newline(t, s1) {
            Err(e) => Err(e),
            Ok((_, s2)) => Ok((SStmt::Break(line as usize), s2)),
        },
        TokenOf::Continue => match sp_expect_newline(t, s1) {
            Err(e) => Err(e),
            Ok((_, s2)) => Ok((SStmt::Continue(line as usize), s2)),
        },
        TokenOf::ConvertFn(n) => if is_stmt_builtin(n) {
            sp_builtin_stmt(t, s1, n, line)
        } else {
            Err(perr(t, s, "无法识别的语句开头 '"@ + spec_tok_display(cur(t, s)) + "'"@))
        },
        TokenOf::ReadOnlyDecl => sp_decl_stmt(t, s, line),
        TokenOf::MutableDecl => sp_decl_stmt(t, s, line),
        TokenOf::While => sp_while_stmt(t, s, line),
        TokenOf::If => sp_if_stmt(t, s, line),
        TokenOf::Return => sp_return_stmt(t, s1, line),
        TokenOf::Backtick => match sp_expr(t, s1) {
            Err(e) => Err(e),
            Ok((e, s2)) => match sp_expect_newline(t, s2) {
                Err(e) => Err(e),
                Ok((_, s3)) => Ok((SStmt::Print(e, line as usize), s3)),
            },
        },
        TokenOf::Ident(_) => sp_ident_stmt(t, s, line),
        other => Err(perr(t, s, "无法识别的语句开头 '"@ + spec_tok_display(other) + "'"@)),
    }
}


// ───────────────────────── 规约：函数、结构体与顶层 ─────────────────────────

/// @example 期望值的元组字面量 (e1, e2, ...) 中的元素（恰好 n 个）
pub open spec fn sp_tuple_lit_items(t: TS, s: PState, elems: Seq<SExpr>, n: nat) -> PR<Seq<SExpr>>
    decreases n - elems.len(),
{
    if elems.len() < n {
        if cur(t, s) is Eof {
            Err(perr(t, s, msg_nn("元组 @example 期望 "@, n, " 个元素，实际 "@, elems.len(), " 个"@)))
        } else {
            let s1r: Result<PState, (Seq<char>, int)> = if elems.len() > 0 {
                match sp_expect(t, s, TokenOf::Comma) {
                    Err(e) => Err(e),
                    Ok((_, sx)) => Ok(sp_skip_newlines(t, sx)),
                }
            } else {
                Ok(s)
            };
            match s1r {
                Err(e) => Err(e),
                Ok(s1) => match sp_expr(t, s1) {
                    Err(e) => Err(e),
                    Ok((e, s2)) => sp_tuple_lit_items(t, sp_skip_newlines(t, s2), elems.push(e), n),
                },
            }
        }
    } else {
        Ok((elems, s))
    }
}

/// @example 期望值的元组字面量（tid 为返回元组的序号）
pub open spec fn sp_tuple_lit_contract(t: TS, s: PState, tid: u32) -> PR<SExpr> {
    match sp_expect(t, s, TokenOf::LParen) {
        Err(e) => Err(e),
        Ok((_, s1)) => {
            let n: nat = if (tid as int) < s1.tuples.len() {
                s1.tuples[tid as int].len()
            } else {
                0
            };
            match sp_tuple_lit_items(t, sp_skip_newlines(t, s1), seq![], n) {
                Err(e) => Err(e),
                Ok((elems, s2)) => if cur(t, s2) == TokenOf::<Seq<char>>::Comma {
                    Err(perr(t, s2, "元组 @example 期望 "@ + radix_text(n, 10) + " 个元素，实际更多"@))
                } else {
                    match sp_expect(t, s2, TokenOf::RParen) {
                        Err(e) => Err(e),
                        Ok((_, s3)) => Ok((SExpr::TupExpr { elems, tup: tid }, s3)),
                    }
                },
            }
        },
    }
}

/// 一条语义锚点 @word: ...（s 位于 @ 之前）
pub open spec fn sp_contract(t: TS, s: PState) -> PR<SContract> {
    let s1 = adv(t, s);
    let line = cur_line(t, s1);
    match sp_expect_ident(t, s1) {
        Err(e) => Err(e),
        Ok((w, s2)) => match sp_expect(t, s2, TokenOf::Colon) {
            Err(e) => Err(e),
            Ok((_, s3)) => if w == "pre"@ || w == "post"@ {
                match sp_expr(t, s3) {
                    Err(e) => Err(e),
                    Ok((e, s4)) => match sp_expect_newline(t, s4) {
                        Err(e) => Err(e),
                        Ok((_, s5)) => Ok(
                            (
                                if w == "pre"@ {
                                    SContract::Pre(e, line as usize)
                                } else {
                                    SContract::Post(e, line as usize)
                                },
                                s5,
                            ),
                        ),
                    },
                }
            } else if w == "example"@ {
                match sp_expr(t, s3) {
                    Err(e) => Err(e),
                    Ok((call, s4)) => match sp_expect(t, s4, TokenOf::Arrow) {
                        Err(e) => Err(e),
                        Ok((_, s5)) => match (match ret_tuple(s5) {
                            Some(tid) => sp_tuple_lit_contract(t, s5, tid),
                            None => sp_expr(t, s5),
                        }) {
                            Err(e) => Err(e),
                            Ok((expected, s6)) => match sp_expect_newline(t, s6) {
                                Err(e) => Err(e),
                                Ok((_, s7)) => Ok(
                                    (SContract::Example { call, expected, line: line as usize }, s7),
                                ),
                            },
                        },
                    },
                }
            } else {
                Err(perr(t, s3, "未知锚点 '@"@ + w + "'（可用：@pre @post @example）"@))
            },
        },
    }
}

/// 语义锚点序列（s 位于第一个 @ 或其他 Token 之前，换行已跳过）
pub open spec fn sp_contract_items(t: TS, s: PState, acc: Seq<SContract>) -> PR<Seq<SContract>>
    decreases t.len() - s.pos,
{
    if cur(t, s) == TokenOf::<Seq<char>>::At {
        match sp_contract(t, s) {
            Err(e) => Err(e),
            Ok((c, s1)) => {
                let s2 = sp_skip_newlines(t, s1);
                if ahead(t, s, s2) {
                    sp_contract_items(t, s2, acc.push(c))
                } else {
                    stuck()
                }
            },
        }
    } else {
        Ok((acc, s))
    }
}

/// 函数体首部的语义锚点行
pub open spec fn sp_contracts(t: TS, s: PState) -> PR<Seq<SContract>> {
    sp_contract_items(t, sp_skip_newlines(t, s), seq![])
}

/// 形参列表 [&]名字[: 类型] (, ...)*
pub open spec fn sp_params(t: TS, s: PState, acc: Seq<(Seq<char>, Option<Ty>, bool)>) -> PR<
    Seq<(Seq<char>, Option<Ty>, bool)>,
>
    decreases t.len() - s.pos,
{
    let is_borrow = cur(t, s) == TokenOf::<Seq<char>>::Amp;
    let s1 = if is_borrow {
        adv(t, s)
    } else {
        s
    };
    match sp_expect_ident(t, PState { last_type_borrow: false, ..s1 }) {
        Err(e) => Err(e),
        Ok((name, s2)) => {
            let ty_r: PR<Option<Ty>> = if cur(t, s2) == TokenOf::<Seq<char>>::Colon {
                match sp_type(t, adv(t, s2)) {
                    Err(e) => Err(e),
                    Ok((ty, s3)) => Ok((Some(ty), s3)),
                }
            } else {
                Ok((None, s2))
            };
            match ty_r {
                Err(e) => Err(e),
                Ok((ty, s3)) => {
                    let p = (name, ty, is_borrow || s3.last_type_borrow);
                    if cur(t, s3) == TokenOf::<Seq<char>>::Comma {
                        let s4 = adv(t, s3);
                        if ahead(t, s, s4) {
                            sp_params(t, s4, acc.push(p))
                        } else {
                            stuck()
                        }
                    } else {
                        Ok((acc.push(p), s3))
                    }
                },
            }
        },
    }
}

/// 函数签名 f/名字(形参)[: 返回类型]（s 位于 f/ 之前）
pub open spec fn sp_fn_sig(t: TS, s: PState) -> PR<
    (Seq<char>, Seq<(Seq<char>, Option<Ty>, bool)>, Option<Ty>),
> {
    match sp_expect_ident(t, adv(t, s)) {
        Err(e) => Err(e),
        Ok((name, s2)) => match sp_expect(t, s2, TokenOf::LParen) {
            Err(e) => Err(e),
            Ok((_, s3)) => match (if cur(t, s3) != TokenOf::<Seq<char>>::RParen {
                sp_params(t, s3, seq![])
            } else {
                Ok((seq![], s3))
            }) {
                Err(e) => Err(e),
                Ok((params, s4)) => match sp_expect(t, s4, TokenOf::RParen) {
                    Err(e) => Err(e),
                    Ok((_, s5)) => if cur(t, s5) == TokenOf::<Seq<char>>::Colon {
                        match sp_type(t, adv(t, s5)) {
                            Err(e) => Err(e),
                            Ok((ty, s6)) => Ok(((name, params, Some(ty)), s6)),
                        }
                    } else {
                        Ok(((name, params, None), s5))
                    },
                },
            },
        },
    }
}

/// 函数体 { 锚点 语句 }（s 位于 { 之前）
pub open spec fn sp_fn_body(t: TS, s: PState) -> PR<(Seq<SContract>, Seq<SStmt>)> {
    match sp_expect(t, s, TokenOf::LBrace) {
        Err(e) => Err(e),
        Ok((_, s1)) => match sp_contracts(t, s1) {
            Err(e) => Err(e),
            Ok((contracts, s2)) => match sp_block(t, s2) {
                Err(e) => Err(e),
                Ok((body, s3)) => Ok(((contracts, body), s3)),
            },
        },
    }
}

/// 去掉末元素（空序列不变）
pub open spec fn pop_last<A>(v: Seq<A>) -> Seq<A> {
    if v.len() > 0 {
        v.drop_last()
    } else {
        v
    }
}

/// 函数定义 f/名字(形参)[: 返回类型]{ 锚点 语句 }（s 位于 f/ 之前）；
/// 解析函数体期间返回类型压在返回类型栈上
pub open spec fn sp_fn(t: TS, s: PState) -> PR<SFnDef> {
    match sp_fn_sig(t, s) {
        Err(e) => Err(e),
        Ok(((name, params, ret), s1)) => {
            let r = match ret {
                Some(x) => x,
                None => Ty::I64,
            };
            match sp_fn_body(t, PState { ret_stack: s1.ret_stack.push(r), ..s1 }) {
                Err(e) => Err(e),
                Ok(((contracts, body), s2)) => Ok(
                    (
                        SFnDef { name, params, ret, body, contracts, imported: s.files.len() > 1 },
                        PState { ret_stack: pop_last(s2.ret_stack), ..s2 },
                    ),
                ),
            }
        },
    }
}

/// 字段表中是否已有名为 n 的字段
pub open spec fn has_field(acc: Seq<(Seq<char>, Ty, usize)>, n: Seq<char>) -> bool {
    exists|i: int| 0 <= i < acc.len() && #[trigger] acc[i].0 == n
}

/// 结构体的字段声明 名字: 类型 [,]（直到 }，不消费之）
pub open spec fn sp_field_decls(
    t: TS,
    s: PState,
    sname: Seq<char>,
    acc: Seq<(Seq<char>, Ty, usize)>,
) -> PR<Seq<(Seq<char>, Ty, usize)>>
    decreases t.len() - s.pos,
{
    if cur(t, s) == TokenOf::<Seq<char>>::RBrace {
        Ok((acc, s))
    } else if cur(t, s) is Eof {
        Err(perr(t, s, "结构体未闭合（缺少 }）"@))
    } else {
        let fline = cur_line(t, s);
        match sp_expect_ident(t, s) {
            Err(e) => Err(e),
            Ok((fname, s1)) => match sp_expect(t, s1, TokenOf::Colon) {
                Err(e) => Err(e),
                Ok((_, s2)) => match sp_type(t, s2) {
                    Err(e) => Err(e),
                    Ok((fty, s3)) => if fty is Struct {
                        Err(
                            perr(
                                t,
                                s3,
                                "字段 '"@ + fname
                                    + "' 不能是结构体类型（v3.0 仅支持 i32/i64/f64/str/bool 字段）"@,
                            ),
                        )
                    } else if has_field(acc, fname) {
                        Err(perr(t, s3, "结构体 '"@ + sname + "' 的字段 '"@ + fname + "' 重复"@))
                    } else {
                        let s4 = sp_skip_newlines(
                            t,
                            if cur(t, s3) == TokenOf::<Seq<char>>::Comma {
                                adv(t, s3)
                            } else {
                                s3
                            },
                        );
                        if ahead(t, s, s4) {
                            sp_field_decls(t, s4, sname, acc.push((fname, fty, fline as usize)))
                        } else {
                            stuck()
                        }
                    },
                },
            },
        }
    }
}

/// 结构体声明 struct 名字 { 字段 }（s 位于 struct 之前）；声明追加到结构体表
pub open spec fn sp_struct(t: TS, s: PState) -> PR<StructView> {
    let line = cur_line(t, s);
    match sp_expect_ident(t, adv(t, s)) {
        Err(e) => Err(e),
        Ok((name, s2)) => if struct_index(s2.structs, name, 0) < s2.structs.len() {
            Err(perr(t, s2, "结构体 '"@ + name + "' 重复定义"@))
        } else {
            match sp_expect(t, s2, TokenOf::LBrace) {
                Err(e) => Err(e),
                Ok((_, s3)) => match sp_field_decls(t, sp_skip_newlines(t, s3), name, seq![]) {
                    Err(e) => Err(e),
                    Ok((fields, s5)) => {
                        let s6 = adv(t, s5);
                        let s7 = if cur(t, s6) is Newline {
                            adv(t, s6)
                        } else {
                            s6
                        };
                        let sd = StructView {
                            name,
                            fields,
                            line: line as usize,
                            imported: s.files.len() > 1,
                        };
                        Ok((sd, PState { structs: s7.structs.push(sd), ..s7 }))
                    },
                },
            }
        },
    }
}

/// 一段顶层解析的终点：文件结束，或 use 导入（名字已读）
pub enum SEnd {
    Eof,
    Use(Seq<char>),
}

/// 一个顶层项目：函数、结构体或语句（s 处不是 EOF 或 use）
pub open spec fn sp_item(t: TS, s: PState, funcs: Seq<SFnDef>, top: Seq<SStmt>) -> Result<
    (Seq<SFnDef>, Seq<SStmt>, PState),
    (Seq<char>, int),
> {
    if cur(t, s) is Fn {
        match sp_fn(t, s) {
            Err(e) => Err(e),
            Ok((f, s1)) => Ok((funcs.push(f), top, s1)),
        }
    } else if cur(t, s) is Struct {
        match sp_struct(t, s) {
            Err(e) => Err(e),
            Ok((_, s1)) => Ok((funcs, top, s1)),
        }
    } else {
        match sp_stmt(t, s) {
            Err(e) => Err(e),
            Ok((st, s1)) => Ok((funcs, top.push(st), s1)),
        }
    }
}

/// 顶层项目直到 EOF 或 use（s 处换行已跳过）
pub open spec fn sp_items(t: TS, s: PState, funcs: Seq<SFnDef>, top: Seq<SStmt>) -> Result<
    (Seq<SFnDef>, Seq<SStmt>, PState, SEnd),
    (Seq<char>, int),
>
    decreases t.len() - s.pos,
{
    match cur(t, s) {
        TokenOf::Eof => Ok((funcs, top, s, SEnd::Eof)),
        TokenOf::Use => match sp_expect_ident(t, adv(t, s)) {
            Err(e) => Err(e),
            Ok((name, s2)) => Ok((funcs, top, s2, SEnd::Use(name))),
        },
        _ => match sp_item(t, s, funcs, top) {
            Err(e) => Err(e),
            Ok((fs, ts, s1)) => {
                let s2 = sp_skip_newlines(t, s1);
                if ahead(t, s, s2) {
                    sp_items(t, s2, fs, ts)
                } else {
                    Err((seq![], 0))
                }
            },
        },
    }
}


// ───────────────────────── 实现：语句 ─────────────────────────

proof fn lemma_stmts_push(v: Seq<Stmt>, x: Stmt)
    ensures
        stmts_view(v.push(x)) == stmts_view(v).push(x@),
        stmts_view(Seq::<Stmt>::empty()) == Seq::<SStmt>::empty(),
{
    assert(stmts_view(v.push(x)) =~= stmts_view(v).push(x@));
    assert(stmts_view(Seq::<Stmt>::empty()) =~= Seq::<SStmt>::empty());
}

proof fn lemma_strs_push(v: Seq<String>, x: String)
    ensures
        strs_view(v.push(x)) == strs_view(v).push(x@),
{
    assert(strs_view(v.push(x)) =~= strs_view(v).push(x@));
}

/// 可作语句开头的内建名：panic check push pop del
fn is_stmt_builtin_name(n: &str) -> (r: bool)
    ensures
        r == is_stmt_builtin(n@),
{
    str_eq(n, "panic") || str_eq(n, "check") || str_eq(n, "push") || str_eq(n, "pop") || str_eq(
        n,
        "del",
    )
}

/// 消息：a + 十进制 n + b + 十进制 m + c
pub(crate) fn cat_nn(a: &str, n: usize, b: &str, m: usize, c: &str) -> (r: String)
    ensures
        r@ == msg_nn(a@, n as nat, b@, m as nat, c@),
{
    let mut v: Vec<char> = Vec::new();
    push_str_chars(a, &mut v);
    push_decimal(n as u64, &mut v);
    push_str_chars(b, &mut v);
    push_decimal(m as u64, &mut v);
    push_str_chars(c, &mut v);
    string_of_all(&v)
}

impl Parser {
    /// panic / check / push / pop / del 语句（名字已消费）
    fn parse_builtin_stmt(&mut self, n: String, line: usize) -> (r: Result<Stmt, ParseError>)
        requires
            old(self).wf(),
        ensures
            final(self).moved_from(old(self)),
            r is Ok ==> final(self).pos > old(self).pos,
            outcome(
                r,
                final(self).st(),
                sp_builtin_stmt(old(self).tv(), old(self).st(), n@, line as int),
                |x: Stmt| x@,
            ),
    {
        self.expect(&TokenOf::LParen)?;
        let first = self.parse_expr()?;
        if str_eq(n.as_str(), "panic") || str_eq(n.as_str(), "pop") {
            self.expect(&TokenOf::RParen)?;
            self.expect_newline()?;
            if str_eq(n.as_str(), "panic") {
                return Ok(Stmt::Panic(Box::new(first), line));
            }
            return Ok(Stmt::Expr(Expr::Pop { arr: Box::new(first) }, line));
        }
        self.expect(&TokenOf::Comma)?;
        let second = self.parse_expr()?;
        self.expect(&TokenOf::RParen)?;
        self.expect_newline()?;
        if str_eq(n.as_str(), "del") {
            Ok(Stmt::Expr(Expr::Del { map: Box::new(first), key: Box::new(second) }, line))
        } else if str_eq(n.as_str(), "check") {
            Ok(Stmt::Check(Box::new(first), Box::new(second), line))
        } else {
            Ok(Stmt::Expr(Expr::Push { arr: Box::new(first), value: Box::new(second) }, line))
        }
    }

    /// 其余名字 (, 名字)*
    fn parse_more_names(&mut self, first: String) -> (r: Result<Vec<String>, ParseError>)
        requires
            old(self).wf(),
        ensures
            final(self).moved_from(old(self)),
            outcome(
                r,
                final(self).st(),
                sp_more_names(old(self).tv(), old(self).st(), seq![first@]),
                |x: Vec<String>| strs_view(x@),
            ),
    {
        let mut names: Vec<String> = Vec::new();
        proof {
            lemma_strs_push(names@, first);
            assert(strs_view(names@) =~= Seq::<Seq<char>>::empty());
        }
        names.push(first);
        while self.peek().is(&TokenOf::Comma)
            invariant
                old(self).wf(),
                self.moved_from(old(self)),
                sp_more_names(self.tv(), self.st(), strs_view(names@)) == sp_more_names(
                    old(self).tv(),
                    old(self).st(),
                    seq![first@],
                ),
            decreases self.toks@.len() - self.pos,
        {
            proof {
                self.lemma_not_last();
            }
            self.bump();
            let n = self.expect_ident()?;
            proof {
                lemma_strs_push(names@, n);
            }
            names.push(n);
        }
        Ok(names)
    }

    /// = 值 ⏎
    fn parse_decl_value(&mut self) -> (r: Result<Expr, ParseError>)
        requires
            old(self).wf(),
        ensures
            final(self).moved_from(old(self)),
            r is Ok ==> final(self).pos > old(self).pos,
            outcome(r, final(self).st(), sp_decl_value(old(self).tv(), old(self).st()), |x: Expr| x@),
    {
        self.expect(&TokenOf::Assign)?;
        let value = self.parse_expr()?;
        self.expect_newline()?;
        Ok(value)
    }

    /// 声明语句（声明前缀尚未消费）
    fn parse_decl_stmt(&mut self, line: usize) -> (r: Result<Stmt, ParseError>)
        requires
            old(self).wf(),
            cur(old(self).tv(), old(self).st()) is ReadOnlyDecl || cur(old(self).tv(), old(self).st()) is MutableDecl,
        ensures
            final(self).moved_from(old(self)),
            r is Ok ==> final(self).pos > old(self).pos,
            outcome(r, final(self).st(), sp_decl_stmt(old(self).tv(), old(self).st(), line as int), |x: Stmt| x@),
    {
        let mutable = self.peek().is(&TokenOf::MutableDecl);
        proof {
            self.lemma_not_last();
        }
        self.bump();
        let name = self.expect_ident()?;
        if self.peek().is(&TokenOf::Comma) {
            let names = self.parse_more_names(name)?;
            let value = self.parse_decl_value()?;
            return Ok(Stmt::MultiDecl { mutable, names, value, line });
        }
        let ty = if self.peek().is(&TokenOf::Colon) {
            self.bump();
            Some(self.parse_type()?)
        } else {
            None
        };
        let value = self.parse_decl_value()?;
        Ok(Stmt::Decl { mutable, name, ty, value, line })
    }

    /// 多值返回的其余元素 (, e)*（最多 want 个）
    fn parse_ret_items(&mut self, first: Expr, want: usize) -> (r: Result<Vec<Expr>, ParseError>)
        requires
            old(self).wf(),
        ensures
            final(self).moved_from(old(self)),
            outcome(
                r,
                final(self).st(),
                sp_ret_items(old(self).tv(), old(self).st(), seq![first@], want as nat),
                |x: Vec<Expr>| exprs_view(x@),
            ),
    {
        let mut elems: Vec<Expr> = Vec::new();
        proof {
            lemma_exprs_push(elems@, first);
        }
        elems.push(first);
        while self.peek().is(&TokenOf::Comma)
            invariant
                old(self).wf(),
                self.moved_from(old(self)),
                sp_ret_items(self.tv(), self.st(), exprs_view(elems@), want as nat) == sp_ret_items(
                    old(self).tv(),
                    old(self).st(),
                    seq![first@],
                    want as nat,
                ),
            decreases self.toks@.len() - self.pos,
        {
            proof {
                self.lemma_not_last();
            }
            self.bump();
            if elems.len() >= want {
                return Err(self.err(cat_num("元组返回期望 ", want, " 个元素，实际更多")));
            }
            let x = self.parse_expr()?;
            proof {
                lemma_exprs_push(elems@, x);
            }
            elems.push(x);
        }
        Ok(elems)
    }

    /// 多值返回 r/e1, e2, ...（e1 已解析，当前为逗号）
    fn parse_tuple_return(&mut self, e: Expr, tid: u32, line: usize) -> (r: Result<Stmt, ParseError>)
        requires
            old(self).wf(),
            (tid as int) < old(self).tuples@.len(),
        ensures
            final(self).moved_from(old(self)),
            outcome(
                r,
                final(self).st(),
                sp_tuple_return(old(self).tv(), old(self).st(), e@, tid, line as int),
                |x: Stmt| x@,
            ),
    {
        let want = self.tuples[tid as usize].elems.len();
        let elems = self.parse_ret_items(e, want)?;
        if elems.len() != want {
            return Err(self.err(cat_nn("元组返回期望 ", want, " 个元素，实际 ", elems.len(), " 个")));
        }
        self.expect_newline()?;
        Ok(Stmt::Return(Some(Expr::TupExpr { elems, tup: tid }), line))
    }

    /// 返回语句（r/ 已消费）
    fn parse_return_stmt(&mut self, line: usize) -> (r: Result<Stmt, ParseError>)
        requires
            old(self).wf(),
        ensures
            final(self).moved_from(old(self)),
            outcome(r, final(self).st(), sp_return_stmt(old(self).tv(), old(self).st(), line as int), |x: Stmt| x@),
    {
        if self.peek().is(&TokenOf::Newline) || self.peek().is(&TokenOf::Eof) {
            self.expect_newline()?;
            return Ok(Stmt::Return(None, line));
        }
        let tup = self.ret_tuple_id();
        let e = self.parse_expr()?;
        if self.peek().is(&TokenOf::Comma) {
            let tid = match tup {
                Some(k) => k,
                None => {
                    return Err(self.err(String::from_str("多值返回要求函数返回类型是元组 (T1, T2, ...)")));
                },
            };
            return self.parse_tuple_return(e, tid, line);
        }
        self.expect_newline()?;
        Ok(Stmt::Return(Some(e), line))
    }

    /// 标识符开头的语句：赋值或表达式语句
    fn parse_ident_stmt(&mut self, line: usize) -> (r: Result<Stmt, ParseError>)
        requires
            old(self).wf(),
        ensures
            final(self).moved_from(old(self)),
            r is Ok ==> final(self).pos > old(self).pos,
            outcome(r, final(self).st(), sp_ident_stmt(old(self).tv(), old(self).st(), line as int), |x: Stmt| x@),
    {
        let target = self.parse_expr()?;
        if self.peek().is(&TokenOf::Assign) {
            self.bump();
            let value = self.parse_expr()?;
            self.expect_newline()?;
            return Ok(Stmt::Assign { target, value, line });
        }
        self.expect_newline()?;
        Ok(Stmt::Expr(target, line))
    }

    /// 语句块（{ 已消费）：语句直到 }，以及其后可选的一个换行
    fn parse_block(&mut self) -> (r: Result<Vec<Stmt>, ParseError>)
        requires
            old(self).wf(),
        ensures
            final(self).moved_from(old(self)),
            outcome(r, final(self).st(), sp_block(old(self).tv(), old(self).st()), |x: Vec<Stmt>| stmts_view(x@)),
        decreases old(self).toks@.len() - old(self).pos, 3int,
    {
        self.skip_newlines();
        let mut body: Vec<Stmt> = Vec::new();
        proof {
            lemma_stmts_push(seq![], Stmt::Break(0));
        }
        loop
            invariant
                old(self).wf(),
                self.moved_from(old(self)),
                sp_block_items(self.tv(), self.st(), stmts_view(body@)) == sp_block(old(self).tv(), old(self).st()),
            decreases self.toks@.len() - self.pos,
        {
            if self.peek().is(&TokenOf::RBrace) {
                self.bump();
                if self.peek().is(&TokenOf::Newline) {
                    self.bump();
                }
                return Ok(body);
            }
            if self.peek().is(&TokenOf::Eof) {
                return Err(self.err(String::from_str("块未闭合（缺少 }）")));
            }
            let st = self.parse_stmt()?;
            proof {
                lemma_stmts_push(body@, st);
            }
            body.push(st);
            self.skip_newlines();
        }
    }

    /// w/ cond { body }（w/ 尚未消费）
    #[verifier::spinoff_prover]
    #[verifier::rlimit(40)]
    fn parse_while_stmt(&mut self, line: usize) -> (r: Result<Stmt, ParseError>)
        requires
            old(self).wf(),
            !(cur(old(self).tv(), old(self).st()) is Eof),
        ensures
            final(self).moved_from(old(self)),
            r is Ok ==> final(self).pos > old(self).pos,
            outcome(r, final(self).st(), sp_while_stmt(old(self).tv(), old(self).st(), line as int), |x: Stmt| x@),
        decreases old(self).toks@.len() - old(self).pos, 0int,
    {
        proof {
            self.lemma_not_last();
        }
        self.bump();
        let cond = self.parse_expr()?;
        self.expect(&TokenOf::LBrace)?;
        let body = self.parse_block()?;
        Ok(Stmt::While { cond, body, line })
    }

    /// i/ cond { body } [e/ { else }]（i/ 尚未消费）
    #[verifier::spinoff_prover]
    #[verifier::rlimit(40)]
    fn parse_if_stmt(&mut self, line: usize) -> (r: Result<Stmt, ParseError>)
        requires
            old(self).wf(),
            !(cur(old(self).tv(), old(self).st()) is Eof),
        ensures
            final(self).moved_from(old(self)),
            r is Ok ==> final(self).pos > old(self).pos,
            outcome(r, final(self).st(), sp_if_stmt(old(self).tv(), old(self).st(), line as int), |x: Stmt| x@),
        decreases old(self).toks@.len() - old(self).pos, 0int,
    {
        proof {
            self.lemma_not_last();
        }
        self.bump();
        let cond = self.parse_expr()?;
        self.expect(&TokenOf::LBrace)?;
        let body = self.parse_block()?;
        let else_body = self.parse_else()?;
        Ok(Stmt::If { cond, body, else_body, line })
    }

    /// 可选的 e/ { else }
    fn parse_else(&mut self) -> (r: Result<Option<Vec<Stmt>>, ParseError>)
        requires
            old(self).wf(),
        ensures
            final(self).moved_from(old(self)),
            outcome(
                r,
                final(self).st(),
                sp_else(old(self).tv(), old(self).st()),
                |x: Option<Vec<Stmt>>| match x {
                    Some(b) => Some(stmts_view(b@)),
                    None => None,
                },
            ),
        decreases old(self).toks@.len() - old(self).pos, 0int,
    {
        if self.peek().is(&TokenOf::Else) {
            proof {
                self.lemma_not_last();
            }
            self.bump();
            self.expect(&TokenOf::LBrace)?;
            let b = self.parse_block()?;
            Ok(Some(b))
        } else {
            Ok(None)
        }
    }

    #[verifier::spinoff_prover]
    #[verifier::rlimit(50)]
    fn parse_stmt(&mut self) -> (r: Result<Stmt, ParseError>)
        requires
            old(self).wf(),
        ensures
            final(self).moved_from(old(self)),
            r is Ok ==> final(self).pos > old(self).pos,
            outcome(r, final(self).st(), sp_stmt(old(self).tv(), old(self).st()), |x: Stmt| x@),
        decreases old(self).toks@.len() - old(self).pos, 1int,
    {
        let line = self.line();
        match self.peek() {
            TokenOf::Break => {
                proof {
                    self.lemma_not_last();
                }
                self.bump();
                self.expect_newline()?;
                Ok(Stmt::Break(line))
            },
            TokenOf::Continue => {
                proof {
                    self.lemma_not_last();
                }
                self.bump();
                self.expect_newline()?;
                Ok(Stmt::Continue(line))
            },
            TokenOf::ConvertFn(n) => {
                if is_stmt_builtin_name(n.as_str()) {
                    let n = n.clone();
                    proof {
                        self.lemma_not_last();
                    }
                    self.bump();
                    self.parse_builtin_stmt(n, line)
                } else {
                    let d = self.peek().display();
                    Err(self.err(cat3("无法识别的语句开头 '", d.as_str(), "'")))
                }
            },
            TokenOf::ReadOnlyDecl | TokenOf::MutableDecl => self.parse_decl_stmt(line),
            TokenOf::While => self.parse_while_stmt(line),
            TokenOf::If => self.parse_if_stmt(line),
            TokenOf::Return => {
                proof {
                    self.lemma_not_last();
                }
                self.bump();
                self.parse_return_stmt(line)
            },
            TokenOf::Backtick => {
                proof {
                    self.lemma_not_last();
                }
                self.bump();
                let e = self.parse_expr()?;
                self.expect_newline()?;
                Ok(Stmt::Print(e, line))
            },
            TokenOf::Ident(_) => self.parse_ident_stmt(line),
            other => {
                let d = other.display();
                Err(self.err(cat3("无法识别的语句开头 '", d.as_str(), "'")))
            },
        }
    }
}

// ───────────────────────── 实现：锚点、函数、结构体 ─────────────────────────

proof fn lemma_contracts_push(v: Seq<Contract>, x: Contract)
    ensures
        contracts_view(v.push(x)) == contracts_view(v).push(x@),
        contracts_view(Seq::<Contract>::empty()) == Seq::<SContract>::empty(),
{
    assert(contracts_view(v.push(x)) =~= contracts_view(v).push(x@));
    assert(contracts_view(Seq::<Contract>::empty()) =~= Seq::<SContract>::empty());
}

proof fn lemma_params_push(v: Seq<Param>, x: Param)
    ensures
        params_view(v.push(x)) == params_view(v).push(x@),
{
    assert(params_view(v.push(x)) =~= params_view(v).push(x@));
}

proof fn lemma_field_decls_push(v: Seq<FieldDef>, x: FieldDef)
    ensures
        fields_view(v.push(x)) == fields_view(v).push(x@),
{
    assert(fields_view(v.push(x)) =~= fields_view(v).push(x@));
}

/// 字段表中是否已有名为 name 的字段
fn has_field_named(fields: &Vec<FieldDef>, name: &str) -> (r: bool)
    ensures
        r == has_field(fields_view(fields@), name@),
{
    let ghost v = fields_view(fields@);
    let mut i: usize = 0;
    while i < fields.len()
        invariant
            i <= fields@.len(),
            v == fields_view(fields@),
            forall|k: int| 0 <= k < i ==> v[k].0 != name@,
        decreases fields@.len() - i,
    {
        if str_eq(fields[i].name.as_str(), name) {
            assert(v[i as int].0 == name@);
            return true;
        }
        i = i + 1;
    }
    false
}

/// a@ + b@ + c@ + d@ + e@
fn cat5(a: &str, b: &str, c: &str, d: &str, e: &str) -> (r: String)
    ensures
        r@ == a@ + b@ + c@ + d@ + e@,
{
    let mut m = String::from_str(a);
    m.append(b);
    m.append(c);
    m.append(d);
    m.append(e);
    m
}

impl Parser {
    /// 当前返回类型为元组时的元组序号
    fn ret_tuple_id(&self) -> (r: Option<u32>)
        requires
            self.wf(),
        ensures
            r == ret_tuple(self.st()),
            r matches Some(k) ==> (k as int) < self.tuples@.len(),
    {
        if self.ret_stack.len() > 0 {
            proof {
                assert(ty_ref_ok(self.ret_stack@[self.ret_stack@.len() - 1], self.tuples@.len() as int));
            }
            match self.ret_stack[self.ret_stack.len() - 1] {
                Ty::Tuple(k) => Some(k),
                _ => None,
            }
        } else {
            None
        }
    }

    /// @example 元组字面量中的 n 个元素
    fn parse_tuple_lit_items(&mut self, n: usize) -> (r: Result<Vec<Expr>, ParseError>)
        requires
            old(self).wf(),
        ensures
            final(self).moved_from(old(self)),
            outcome(
                r,
                final(self).st(),
                sp_tuple_lit_items(old(self).tv(), old(self).st(), seq![], n as nat),
                |x: Vec<Expr>| exprs_view(x@),
            ),
    {
        let mut elems: Vec<Expr> = Vec::new();
        proof {
            lemma_exprs_push(seq![], Expr::Int(0));
        }
        while elems.len() < n
            invariant
                old(self).wf(),
                self.moved_from(old(self)),
                elems@.len() <= n,
                sp_tuple_lit_items(self.tv(), self.st(), exprs_view(elems@), n as nat)
                    == sp_tuple_lit_items(old(self).tv(), old(self).st(), seq![], n as nat),
            decreases n - elems@.len(),
        {
            if self.peek().is(&TokenOf::Eof) {
                return Err(self.err(cat_nn("元组 @example 期望 ", n, " 个元素，实际 ", elems.len(), " 个")));
            }
            if elems.len() > 0 {
                self.expect(&TokenOf::Comma)?;
                self.skip_newlines();
            }
            let e = self.parse_expr()?;
            proof {
                lemma_exprs_push(elems@, e);
            }
            elems.push(e);
            self.skip_newlines();
        }
        Ok(elems)
    }

    /// @example 期望值的元组字面量 (e1, e2, ...)
    fn parse_tuple_lit_contract(&mut self, tid: u32) -> (r: Result<Expr, ParseError>)
        requires
            old(self).wf(),
        ensures
            final(self).moved_from(old(self)),
            outcome(
                r,
                final(self).st(),
                sp_tuple_lit_contract(old(self).tv(), old(self).st(), tid),
                |x: Expr| x@,
            ),
    {
        self.expect(&TokenOf::LParen)?;
        let n: usize = if (tid as usize) < self.tuples.len() {
            self.tuples[tid as usize].elems.len()
        } else {
            0
        };
        self.skip_newlines();
        let elems = self.parse_tuple_lit_items(n)?;
        if self.peek().is(&TokenOf::Comma) {
            return Err(self.err(cat_num("元组 @example 期望 ", n, " 个元素，实际更多")));
        }
        self.expect(&TokenOf::RParen)?;
        Ok(Expr::TupExpr { elems, tup: tid })
    }

    /// 一条语义锚点（@ 尚未消费）
    #[verifier::spinoff_prover]
    #[verifier::rlimit(40)]
    fn parse_contract(&mut self) -> (r: Result<Contract, ParseError>)
        requires
            old(self).wf(),
            cur(old(self).tv(), old(self).st()) == TokenOf::<Seq<char>>::At,
        ensures
            final(self).moved_from(old(self)),
            r is Ok ==> final(self).pos > old(self).pos,
            outcome(r, final(self).st(), sp_contract(old(self).tv(), old(self).st()), |x: Contract| x@),
    {
        proof {
            self.lemma_not_last();
        }
        self.bump();
        let line = self.line();
        let word = self.expect_ident()?;
        self.expect(&TokenOf::Colon)?;
        if str_eq(word.as_str(), "pre") || str_eq(word.as_str(), "post") {
            let e = self.parse_expr()?;
            self.expect_newline()?;
            if str_eq(word.as_str(), "pre") {
                return Ok(Contract::Pre(e, line));
            }
            return Ok(Contract::Post(e, line));
        }
        if str_eq(word.as_str(), "example") {
            let call = self.parse_expr()?;
            self.expect(&TokenOf::Arrow)?;
            let expected = match self.ret_tuple_id() {
                Some(tid) => self.parse_tuple_lit_contract(tid)?,
                None => self.parse_expr()?,
            };
            self.expect_newline()?;
            return Ok(Contract::Example { call, expected, line });
        }
        Err(self.err(cat3("未知锚点 '@", word.as_str(), "'（可用：@pre @post @example）")))
    }

    /// 函数体首部的语义锚点行
    fn parse_contracts(&mut self) -> (r: Result<Vec<Contract>, ParseError>)
        requires
            old(self).wf(),
        ensures
            final(self).moved_from(old(self)),
            outcome(
                r,
                final(self).st(),
                sp_contracts(old(self).tv(), old(self).st()),
                |x: Vec<Contract>| contracts_view(x@),
            ),
    {
        let mut contracts: Vec<Contract> = Vec::new();
        self.skip_newlines();
        proof {
            lemma_contracts_push(seq![], Contract::Pre(Expr::Int(0), 0));
        }
        while self.peek().is(&TokenOf::At)
            invariant
                old(self).wf(),
                self.moved_from(old(self)),
                sp_contract_items(self.tv(), self.st(), contracts_view(contracts@))
                    == sp_contracts(old(self).tv(), old(self).st()),
            decreases self.toks@.len() - self.pos,
        {
            let c = self.parse_contract()?;
            proof {
                lemma_contracts_push(contracts@, c);
            }
            contracts.push(c);
            self.skip_newlines();
        }
        Ok(contracts)
    }

    /// 形参列表
    fn parse_params(&mut self) -> (r: Result<Vec<Param>, ParseError>)
        requires
            old(self).wf(),
        ensures
            final(self).moved_from(old(self)),
            outcome(
                r,
                final(self).st(),
                sp_params(old(self).tv(), old(self).st(), seq![]),
                |x: Vec<Param>| params_view(x@),
            ),
    {
        let mut params: Vec<Param> = Vec::new();
        assert(params_view(params@) =~= Seq::<(Seq<char>, Option<Ty>, bool)>::empty());
        loop
            invariant
                old(self).wf(),
                self.moved_from(old(self)),
                sp_params(self.tv(), self.st(), params_view(params@)) == sp_params(
                    old(self).tv(),
                    old(self).st(),
                    seq![],
                ),
            decreases self.toks@.len() - self.pos,
        {
            let is_borrow = self.peek().is(&TokenOf::Amp);
            if is_borrow {
                self.bump();
            }
            self.last_type_borrow = false;
            let name = self.expect_ident()?;
            let ty = if self.peek().is(&TokenOf::Colon) {
                self.bump();
                Some(self.parse_type()?)
            } else {
                None
            };
            let borrow = is_borrow || self.last_type_borrow;
            let p = Param { name, ty, borrow };
            proof {
                lemma_params_push(params@, p);
            }
            params.push(p);
            if self.peek().is(&TokenOf::Comma) {
                proof {
                    self.lemma_not_last();
                }
                self.bump();
            } else {
                return Ok(params);
            }
        }
    }

    /// 函数签名（f/ 尚未消费）
    fn parse_fn_sig(&mut self) -> (r: Result<(String, Vec<Param>, Option<Ty>), ParseError>)
        requires
            old(self).wf(),
            cur(old(self).tv(), old(self).st()) is Fn,
        ensures
            final(self).moved_from(old(self)),
            r is Ok ==> final(self).pos > old(self).pos,
            r matches Ok((_, _, Some(ty))) ==> ty_ref_ok(ty, final(self).tuples@.len() as int),
            outcome(
                r,
                final(self).st(),
                sp_fn_sig(old(self).tv(), old(self).st()),
                |x: (String, Vec<Param>, Option<Ty>)| (x.0@, params_view(x.1@), x.2),
            ),
    {
        proof {
            self.lemma_not_last();
        }
        self.bump();
        let name = self.expect_ident()?;
        self.expect(&TokenOf::LParen)?;
        let params = if !self.peek().is(&TokenOf::RParen) {
            self.parse_params()?
        } else {
            let v: Vec<Param> = Vec::new();
            assert(params_view(v@) =~= Seq::<(Seq<char>, Option<Ty>, bool)>::empty());
            v
        };
        self.expect(&TokenOf::RParen)?;
        let ret = if self.peek().is(&TokenOf::Colon) {
            self.bump();
            Some(self.parse_type()?)
        } else {
            None
        };
        Ok((name, params, ret))
    }

    /// 函数体（{ 尚未消费）
    fn parse_fn_body(&mut self) -> (r: Result<(Vec<Contract>, Vec<Stmt>), ParseError>)
        requires
            old(self).wf(),
        ensures
            final(self).moved_from(old(self)),
            outcome(
                r,
                final(self).st(),
                sp_fn_body(old(self).tv(), old(self).st()),
                |x: (Vec<Contract>, Vec<Stmt>)| (contracts_view(x.0@), stmts_view(x.1@)),
            ),
    {
        self.expect(&TokenOf::LBrace)?;
        let contracts = self.parse_contracts()?;
        let body = self.parse_block()?;
        Ok((contracts, body))
    }

    /// 把返回类型压入返回类型栈
    fn push_ret(&mut self, t: Ty)
        requires
            old(self).wf(),
            ty_ref_ok(t, old(self).tuples@.len() as int),
        ensures
            final(self).moved_from(old(self)),
            final(self).st() == (PState { ret_stack: old(self).st().ret_stack.push(t), ..old(self).st() }),
    {
        self.ret_stack.push(t);
        assert(self.st().ret_stack =~= old(self).st().ret_stack.push(t));
    }

    /// 弹出返回类型栈顶（栈空时不变）
    fn pop_ret(&mut self)
        requires
            old(self).wf(),
        ensures
            final(self).moved_from(old(self)),
            final(self).st() == (PState { ret_stack: pop_last(old(self).st().ret_stack), ..old(self).st() }),
    {
        if self.ret_stack.len() > 0 {
            self.ret_stack.pop();
        }
        assert(self.st().ret_stack =~= pop_last(old(self).st().ret_stack));
    }

    /// 函数定义（f/ 尚未消费）
    #[verifier::spinoff_prover]
    #[verifier::rlimit(40)]
    fn parse_fn(&mut self) -> (r: Result<FnDef, ParseError>)
        requires
            old(self).wf(),
            cur(old(self).tv(), old(self).st()) is Fn,
        ensures
            final(self).moved_from(old(self)),
            r is Ok ==> final(self).pos > old(self).pos,
            outcome(r, final(self).st(), sp_fn(old(self).tv(), old(self).st()), |x: FnDef| x@),
    {
        let (name, params, ret) = self.parse_fn_sig()?;
        self.push_ret(
            match ret {
                Some(x) => x,
                None => Ty::I64,
            },
        );
        let (contracts, body) = self.parse_fn_body()?;
        self.pop_ret();
        Ok(FnDef { name, params, ret, body, contracts, imported: self.files.len() > 1 })
    }

    /// 结构体的字段声明（直到 }，不消费之）
    fn parse_field_decls(&mut self, sname: &str) -> (r: Result<Vec<FieldDef>, ParseError>)
        requires
            old(self).wf(),
        ensures
            final(self).moved_from(old(self)),
            final(self).structs@ == old(self).structs@,
            outcome(
                r,
                final(self).st(),
                sp_field_decls(old(self).tv(), old(self).st(), sname@, seq![]),
                |x: Vec<FieldDef>| fields_view(x@),
            ),
    {
        let mut fields: Vec<FieldDef> = Vec::new();
        assert(fields_view(fields@) =~= Seq::<(Seq<char>, Ty, usize)>::empty());
        loop
            invariant
                old(self).wf(),
                self.moved_from(old(self)),
                self.structs@ == old(self).structs@,
                sp_field_decls(self.tv(), self.st(), sname@, fields_view(fields@)) == sp_field_decls(
                    old(self).tv(),
                    old(self).st(),
                    sname@,
                    seq![],
                ),
            decreases self.toks@.len() - self.pos,
        {
            if self.peek().is(&TokenOf::RBrace) {
                return Ok(fields);
            }
            if self.peek().is(&TokenOf::Eof) {
                return Err(self.err(String::from_str("结构体未闭合（缺少 }）")));
            }
            let fline = self.line();
            let fname = self.expect_ident()?;
            self.expect(&TokenOf::Colon)?;
            let fty = self.parse_type()?;
            if fty.is_struct() {
                return Err(
                    self.err(
                        cat3(
                            "字段 '",
                            fname.as_str(),
                            "' 不能是结构体类型（v3.0 仅支持 i32/i64/f64/str/bool 字段）",
                        ),
                    ),
                );
            }
            if has_field_named(&fields, fname.as_str()) {
                return Err(self.err(cat5("结构体 '", sname, "' 的字段 '", fname.as_str(), "' 重复")));
            }
            let f = FieldDef { name: fname, ty: fty, line: fline };
            proof {
                lemma_field_decls_push(fields@, f);
            }
            fields.push(f);
            if self.peek().is(&TokenOf::Comma) {
                self.bump();
            }
            self.skip_newlines();
        }
    }

    /// 结构体声明（struct 尚未消费）；声明追加到结构体表
    #[verifier::spinoff_prover]
    #[verifier::rlimit(40)]
    fn parse_struct(&mut self) -> (r: Result<StructDef, ParseError>)
        requires
            old(self).wf(),
            !(cur(old(self).tv(), old(self).st()) is Eof),
        ensures
            final(self).moved_from(old(self)),
            r is Ok ==> final(self).pos > old(self).pos,
            outcome(r, final(self).st(), sp_struct(old(self).tv(), old(self).st()), |x: StructDef| x@),
    {
        proof {
            self.lemma_not_last();
        }
        let line = self.line();
        self.bump();
        let name = self.expect_ident()?;
        if self.find_struct(name.as_str()) < self.structs.len() {
            return Err(self.err(cat3("结构体 '", name.as_str(), "' 重复定义")));
        }
        let ghost s_at = self.structs@;
        proof {
            assert(struct_index(structs_view(s_at), name@, 0) <= structs_view(s_at).len()) by {
                lemma_struct_index_bound(structs_view(s_at), name@, 0);
            }
            lemma_struct_index_absent(structs_view(s_at), name@, 0);
        }
        self.expect(&TokenOf::LBrace)?;
        self.skip_newlines();
        let fields = self.parse_field_decls(name.as_str())?;
        self.bump();
        if self.peek().is(&TokenOf::Newline) {
            self.bump();
        }
        let sd = StructDef { name, fields, line, imported: self.files.len() > 1 };
        let ghost before = self.structs@;
        assert(before == s_at);
        self.structs.push(sd.clone());
        proof {
            assert(structs_view(self.structs@) =~= structs_view(before).push(sd@));
            reveal(struct_names_distinct);
            let w = structs_view(self.structs@);
            let b = structs_view(before);
            assert forall|i: int, j: int| 0 <= i < w.len() && 0 <= j < w.len() && i != j implies w[i].name
                != w[j].name by {
                if i < b.len() && j < b.len() {
                    assert(w[i] == b[i] && w[j] == b[j]);
                } else if i < b.len() {
                    assert(w[i] == b[i] && w[j] == sd@);
                } else {
                    assert(w[j] == b[j] && w[i] == sd@);
                }
            }
        }
        Ok(sd)
    }
}

// ───────────────────────── 顶层：按事件推进的解析 ─────────────────────────
//
// `use 名字` 需要读文件。解析器读到它时交出 `ParseEvent::Import`，由调用方决定是否导入
// （`register_import`）、读入并词法分析该文件（`enter`），再调用 `resume` 继续；导入文件结束时
// `resume` 自行回到导入它的文件并交出 `ParseEvent::Returned`。

/// 解析推进的结果
pub enum ParseEvent {
    /// 入口文件解析完毕
    Done(Program),
    /// 读到 use 名字（use 与名字已消费）
    Import(String),
    /// 导入文件已结束，回到导入它的文件
    Returned,
}

pub open spec fn fns_view(v: Seq<FnDef>) -> Seq<SFnDef> {
    v.map_values(|f: FnDef| f@)
}

/// 解析器类型表的不变式：动态数组表以预先登记的五个类型开头（序号固定），
/// 各类型表（动态数组、固定数组、关联数组、元组）都没有重复项
#[verifier::opaque]
pub open spec fn tables_interned(
    darrs: Seq<DArrDef>,
    arrs: Seq<ArrDef>,
    maps: Seq<MapDef>,
    tuples: Seq<Seq<Ty>>,
) -> bool {
    &&& seed_darrs().is_prefix_of(darrs)
    &&& darrs.no_duplicates()
    &&& arrs.no_duplicates()
    &&& maps.no_duplicates()
    &&& tuples.no_duplicates()
    &&& forall|i: int| 0 <= i < darrs.len() ==> is_elem_ty(#[trigger] darrs[i].elem)
    &&& forall|i: int| 0 <= i < arrs.len() ==> (#[trigger] arrs[i]).len > 0
    &&& forall|i: int| 0 <= i < arrs.len() ==> is_scalar_ty(#[trigger] arrs[i].elem)
    &&& forall|i: int|
        0 <= i < maps.len() ==> (#[trigger] maps[i]).key == Ty::I64 || maps[i].key == Ty::Str
    &&& forall|i: int| 0 <= i < maps.len() ==> is_elem_ty(#[trigger] maps[i].val)
}

/// 定长数组元素可取的类型：i32、i64、f64、bool
pub open spec fn is_scalar_ty(t: Ty) -> bool {
    t == Ty::I32 || t == Ty::I64 || t == Ty::F64 || t == Ty::Bool
}

/// 结构体名两两不同
#[verifier::opaque]
pub open spec fn struct_names_distinct(v: Seq<StructView>) -> bool {
    forall|i: int, j: int| 0 <= i < v.len() && 0 <= j < v.len() && i != j ==> v[i].name != v[j].name
}

proof fn lemma_struct_index_bound(v: Seq<StructView>, name: Seq<char>, i: int)
    requires
        0 <= i <= v.len(),
    ensures
        i <= struct_index(v, name, i) <= v.len(),
    decreases v.len() - i,
{
    if i < v.len() {
        lemma_struct_index_bound(v, name, i + 1);
    }
}

/// 查找落空时表中没有同名结构体
proof fn lemma_struct_index_absent(v: Seq<StructView>, name: Seq<char>, i: int)
    requires
        0 <= i <= v.len(),
        struct_index(v, name, i) == v.len(),
    ensures
        forall|j: int| i <= j < v.len() ==> v[j].name != name,
    decreases v.len() - i,
{
    if i < v.len() {
        lemma_struct_index_absent(v, name, i + 1);
    }
}

/// 动态数组元素与 map 值可取的类型：i32、i64、f64、bool、str
pub open spec fn is_elem_ty(t: Ty) -> bool {
    t == Ty::I32 || t == Ty::I64 || t == Ty::F64 || t == Ty::Bool || t == Ty::Str
}

/// 在无重复的表尾追加一个表中没有的项，表仍无重复，原表是新表的前缀
proof fn lemma_push_fresh<A>(v: Seq<A>, x: A)
    requires
        v.no_duplicates(),
        forall|j: int| 0 <= j < v.len() ==> v[j] != x,
    ensures
        v.push(x).no_duplicates(),
        v.is_prefix_of(v.push(x)),
{
    let w = v.push(x);
    assert forall|i: int, j: int| 0 <= i < w.len() && 0 <= j < w.len() && i != j implies w[i] != w[j] by {
        if i < v.len() && j < v.len() {
            assert(w[i] == v[i] && w[j] == v[j]);
        } else if i < v.len() {
            assert(w[i] == v[i]);
        } else {
            assert(w[j] == v[j]);
        }
    }
    assert(v =~= w.subrange(0, v.len() as int));
}

/// 预先登记的动态数组类型：[]str、[]i64、[]i32、[]f64、[]bool（keys/values 的结果类型恒有效）
pub open spec fn seed_darrs() -> Seq<DArrDef> {
    seq![
        DArrDef { elem: Ty::Str },
        DArrDef { elem: Ty::I64 },
        DArrDef { elem: Ty::I32 },
        DArrDef { elem: Ty::F64 },
        DArrDef { elem: Ty::Bool },
    ]
}

/// 新建预先登记的动态数组类型表
fn seeded_darrs() -> (r: Vec<DArrDef>)
    ensures
        r@ == seed_darrs(),
        seed_darrs().no_duplicates(),
{
    let mut darrs: Vec<DArrDef> = Vec::new();
    darrs.push(DArrDef { elem: Ty::Str });
    darrs.push(DArrDef { elem: Ty::I64 });
    darrs.push(DArrDef { elem: Ty::I32 });
    darrs.push(DArrDef { elem: Ty::F64 });
    darrs.push(DArrDef { elem: Ty::Bool });
    assert(darrs@ =~= seed_darrs());
    darrs
}

/// 入口文件 file 的初始状态
pub open spec fn init_state(file: Seq<char>) -> PState {
    PState {
        pos: 0,
        structs: seq![],
        arrs: seq![],
        darrs: seed_darrs(),
        tuples: seq![],
        maps: seq![],
        ret_stack: seq![],
        last_type_borrow: false,
        files: seq![file],
    }
}

/// 程序 p 由状态 s 的各类型表、导入名 uses、函数 fs 与顶层语句 ts 组成
pub open spec fn program_is(
    p: Program,
    s: PState,
    uses: Seq<Seq<char>>,
    fs: Seq<SFnDef>,
    ts: Seq<SStmt>,
) -> bool {
    &&& structs_view(p.structs@) == s.structs
    &&& p.arrs@ == s.arrs
    &&& p.darrs@ == s.darrs
    &&& tuples_view(p.tuples@) == s.tuples
    &&& p.maps@ == s.maps
    &&& strs_view(p.uses@) == uses
    &&& fns_view(p.funcs@) == fs
    &&& stmts_view(p.top@) == ts
}

/// Token 流合法（可交给解析器）
pub fn is_token_stream(toks: &Vec<(Tok, usize)>) -> (r: bool)
    ensures
        r == (toks_ok(view_spanned(toks@)) && toks@.len() < usize::MAX),
{
    if toks.len() == 0 || toks.len() == usize::MAX {
        return false;
    }
    let last = &toks[toks.len() - 1].0;
    last.is(&TokenOf::Eof)
}

impl Parser {
    pub closed spec fn funcs_v(&self) -> Seq<SFnDef> {
        fns_view(self.funcs@)
    }

    pub closed spec fn top_v(&self) -> Seq<SStmt> {
        stmts_view(self.top@)
    }

    pub closed spec fn uses_v(&self) -> Seq<Seq<char>> {
        strs_view(self.uses@)
    }

    pub closed spec fn visited_v(&self) -> Seq<Seq<char>> {
        strs_view(self.visited@)
    }

    /// 被导入打断的各文件：(Token 流, 回到其中的位置)
    pub closed spec fn saved_v(&self) -> Seq<(TS, int)> {
        self.saved@.map_values(|e: (Vec<(Tok, usize)>, usize)| (view_spanned(e.0@), e.1 as int))
    }

    /// 对外的不变式：当前流合法；每个被打断的文件对应一个保存的合法流与位置
    pub closed spec fn inv(&self) -> bool {
        &&& self.wf()
        &&& self.files@.len() == self.saved@.len() + 1
        &&& forall|i: int|
            0 <= i < self.saved@.len() ==> {
                let e = #[trigger] self.saved@[i];
                &&& toks_ok(view_spanned(e.0@))
                &&& e.1 < e.0@.len()
                &&& e.0@.len() < usize::MAX
            }
    }

    /// 从入口文件 file 的 Token 流开始；visited 为已视为导入过的规范路径
    pub fn new(toks: Vec<(Tok, usize)>, file: String, visited: Vec<String>) -> (r: Parser)
        requires
            toks_ok(view_spanned(toks@)),
            toks@.len() < usize::MAX,
        ensures
            r.inv(),
            r.tv() == view_spanned(toks@),
            r.st() == init_state(file@),
            r.funcs_v() == Seq::<SFnDef>::empty(),
            r.top_v() == Seq::<SStmt>::empty(),
            r.uses_v() == Seq::<Seq<char>>::empty(),
            r.visited_v() == strs_view(visited@),
            r.saved_v() == Seq::<(TS, int)>::empty(),
    {
        let mut files: Vec<String> = Vec::new();
        files.push(file);
        let darrs = seeded_darrs();
        proof {
            reveal(struct_names_distinct);
            reveal(tables_interned);
            assert(Seq::<ArrDef>::empty().no_duplicates());
            assert(Seq::<MapDef>::empty().no_duplicates());
            assert(Seq::<Seq<Ty>>::empty().no_duplicates());
        }
        let p = Parser {
            toks,
            pos: 0,
            structs: Vec::new(),
            arrs: Vec::new(),
            darrs,
            files,
            visited,
            saved: Vec::new(),
            uses: Vec::new(),
            last_type_borrow: false,
            tuples: Vec::new(),
            ret_stack: Vec::new(),
            maps: Vec::new(),
            funcs: Vec::new(),
            top: Vec::new(),
        };
        proof {
            assert(p.st().structs =~= Seq::<StructView>::empty());
            assert(p.st().tuples =~= Seq::<Seq<Ty>>::empty());
            assert(p.st().files =~= seq![file@]);
            assert(p.st().darrs =~= seed_darrs());
            assert(p.funcs_v() =~= Seq::<SFnDef>::empty());
            assert(p.top_v() =~= Seq::<SStmt>::empty());
            assert(p.uses_v() =~= Seq::<Seq<char>>::empty());
            assert(p.saved_v() =~= Seq::<(TS, int)>::empty());
        }
        p
    }

    /// 当前文件（报错与解析 use 的相对路径用）
    pub fn current_file(&self) -> (r: String)
        requires
            self.inv(),
        ensures
            r@ == self.st().files.last(),
    {
        self.files[self.files.len() - 1].clone()
    }

    /// 在当前位置报告错误（导入文件中的错误带文件名前缀）
    pub fn fail(&self, raw: String) -> (r: ParseError)
        requires
            self.inv(),
        ensures
            (r.msg@, r.line as int) == perr(self.tv(), self.st(), raw@),
    {
        self.err(raw)
    }

    /// 登记导入：规范路径 canon 未导入过时记下它与模块名 name 并返回 true；
    /// 已导入过（含循环导入）时什么也不做并返回 false
    pub fn register_import(&mut self, canon: String, name: String) -> (r: bool)
        requires
            old(self).inv(),
        ensures
            final(self).inv(),
            r == !old(self).visited_v().contains(canon@),
            final(self).visited_v() == if r {
                old(self).visited_v().push(canon@)
            } else {
                old(self).visited_v()
            },
            final(self).uses_v() == if r {
                old(self).uses_v().push(name@)
            } else {
                old(self).uses_v()
            },
            final(self).tv() == old(self).tv(),
            final(self).st() == old(self).st(),
            final(self).funcs_v() == old(self).funcs_v(),
            final(self).top_v() == old(self).top_v(),
            final(self).saved_v() == old(self).saved_v(),
    {
        let ghost vv = self.visited_v();
        let mut i: usize = 0;
        while i < self.visited.len()
            invariant
                *self == *old(self),
                self.inv(),
                vv == strs_view(self.visited@),
                i <= self.visited@.len(),
                forall|k: int| 0 <= k < i ==> vv[k] != canon@,
            decreases self.visited@.len() - i,
        {
            if str_eq(self.visited[i].as_str(), canon.as_str()) {
                assert(vv[i as int] == canon@);
                return false;
            }
            i = i + 1;
        }
        proof {
            assert(!vv.contains(canon@));
            lemma_strs_push(self.visited@, canon);
            lemma_strs_push(self.uses@, name);
        }
        self.visited.push(canon);
        self.uses.push(name);
        true
    }

    /// 进入导入文件：保存当前流与位置，从新流（文件 path）的开头继续
    pub fn enter(&mut self, path: String, toks: Vec<(Tok, usize)>)
        requires
            old(self).inv(),
            toks_ok(view_spanned(toks@)),
            toks@.len() < usize::MAX,
        ensures
            final(self).inv(),
            final(self).tv() == view_spanned(toks@),
            final(self).st() == (PState {
                pos: 0,
                files: old(self).st().files.push(path@),
                ..old(self).st()
            }),
            final(self).saved_v() == old(self).saved_v().push((old(self).tv(), old(self).st().pos)),
            final(self).funcs_v() == old(self).funcs_v(),
            final(self).top_v() == old(self).top_v(),
            final(self).uses_v() == old(self).uses_v(),
            final(self).visited_v() == old(self).visited_v(),
    {
        let mut toks = toks;
        std::mem::swap(&mut toks, &mut self.toks);
        self.saved.push((toks, self.pos));
        self.pos = 0;
        let ghost old_files = self.files@;
        self.files.push(path);
        proof {
            lemma_strs_push(old_files, path);
            assert(self.saved_v() =~= old(self).saved_v().push((old(self).tv(), old(self).st().pos)));
        }
    }
}

proof fn lemma_fns_push(v: Seq<FnDef>, x: FnDef)
    ensures
        fns_view(v.push(x)) == fns_view(v).push(x@),
{
    assert(fns_view(v.push(x)) =~= fns_view(v).push(x@));
}

/// resume 的结果与顶层规约一致
pub open spec fn resume_matches(
    t: TS,
    s: PState,
    funcs: Seq<SFnDef>,
    top: Seq<SStmt>,
    uses: Seq<Seq<char>>,
    saved: Seq<(TS, int)>,
    r: Result<ParseEvent, ParseError>,
    t2: TS,
    s2f: PState,
    funcs2: Seq<SFnDef>,
    top2: Seq<SStmt>,
    saved2: Seq<(TS, int)>,
) -> bool {
    match sp_items(t, sp_skip_newlines(t, s), funcs, top) {
        Err((m, l)) => r is Err && r->Err_0.msg@ == m && r->Err_0.line == l,
        Ok((fs, ts, s2, SEnd::Use(name))) => {
            &&& r matches Ok(ParseEvent::Import(n)) && n@ == name
            &&& t2 == t
            &&& s2f == s2
            &&& funcs2 == fs
            &&& top2 == ts
            &&& saved2 == saved
        },
        Ok((fs, ts, s2, SEnd::Eof)) => if s.files.len() > 1 {
            &&& r matches Ok(ParseEvent::Returned)
            &&& t2 == saved.last().0
            &&& s2f == (PState { pos: saved.last().1, files: s.files.drop_last(), ..s2 })
            &&& funcs2 == fs
            &&& top2 == ts
            &&& saved2 == saved.drop_last()
        } else {
            r matches Ok(ParseEvent::Done(p)) && program_is(p, s2, uses, fs, ts)
        },
    }
}

impl Parser {
    /// 推进解析：跳过换行后解析顶层项目（函数、结构体、语句），直到
    /// 入口文件结束（Done，交出程序）、读到 use 名字（Import），
    /// 或导入文件结束（回到导入它的文件，Returned）
    #[verifier::spinoff_prover]
    #[verifier::rlimit(40)]
    pub fn resume(&mut self) -> (r: Result<ParseEvent, ParseError>)
        requires
            old(self).inv(),
        ensures
            final(self).inv(),
            !(r matches Ok(ParseEvent::Done(_))) ==> final(self).uses_v() == old(self).uses_v(),
            r matches Ok(ParseEvent::Done(p)) ==> tuple_table_ok(tuples_view(p.tuples@)),
            r matches Ok(ParseEvent::Done(p)) ==> tables_interned(p.darrs@, p.arrs@, p.maps@, tuples_view(p.tuples@)),
            r matches Ok(ParseEvent::Done(p)) ==> struct_names_distinct(structs_view(p.structs@)),
            final(self).visited_v() == old(self).visited_v(),
            resume_matches(
                old(self).tv(),
                old(self).st(),
                old(self).funcs_v(),
                old(self).top_v(),
                old(self).uses_v(),
                old(self).saved_v(),
                r,
                final(self).tv(),
                final(self).st(),
                final(self).funcs_v(),
                final(self).top_v(),
                final(self).saved_v(),
            ),
    {
        self.skip_newlines();
        let ghost t = self.tv();
        let ghost s0 = self.st();
        while !self.peek().is(&TokenOf::Eof) && !self.peek().is(&TokenOf::Use)
            invariant
                old(self).inv(),
                self.wf(),
                self.toks == old(self).toks,
                self.files == old(self).files,
                self.saved == old(self).saved,
                self.visited == old(self).visited,
                self.uses == old(self).uses,
                t == old(self).tv(),
                s0 == sp_skip_newlines(old(self).tv(), old(self).st()),
                sp_items(t, self.st(), self.funcs_v(), self.top_v()) == sp_items(
                    t,
                    s0,
                    old(self).funcs_v(),
                    old(self).top_v(),
                ),
            decreases self.toks@.len() - self.pos,
        {
            self.parse_item()?;
            self.skip_newlines();
        }
        if self.peek().is(&TokenOf::Eof) {
            return self.finish_stream();
        }
        proof {
            self.lemma_not_last();
        }
        self.bump();
        let name = self.expect_ident()?;
        Ok(ParseEvent::Import(name))
    }

    /// 一个顶层项目：函数、结构体或语句
    fn parse_item(&mut self) -> (r: Result<(), ParseError>)
        requires
            old(self).wf(),
            !(cur(old(self).tv(), old(self).st()) is Eof),
        ensures
            final(self).wf(),
            final(self).toks == old(self).toks,
            final(self).files == old(self).files,
            final(self).saved == old(self).saved,
            final(self).visited == old(self).visited,
            final(self).uses == old(self).uses,
            r is Ok ==> final(self).pos > old(self).pos,
            match sp_item(old(self).tv(), old(self).st(), old(self).funcs_v(), old(self).top_v()) {
                Err((m, l)) => r is Err && r->Err_0.msg@ == m && r->Err_0.line == l,
                Ok((fs, ts, s1)) => r is Ok && final(self).st() == s1 && final(self).funcs_v() == fs
                    && final(self).top_v() == ts,
            },
    {
        if self.peek().is(&TokenOf::Fn) {
            let f = self.parse_fn()?;
            proof {
                lemma_fns_push(self.funcs@, f);
            }
            self.funcs.push(f);
        } else if self.peek().is(&TokenOf::Struct) {
            self.parse_struct()?;
        } else {
            let st = self.parse_stmt()?;
            proof {
                lemma_stmts_push(self.top@, st);
            }
            self.top.push(st);
        }
        Ok(())
    }

    /// 当前流结束：导入文件则回到导入它的文件，入口文件则交出程序
    fn finish_stream(&mut self) -> (r: Result<ParseEvent, ParseError>)
        requires
            old(self).inv(),
        ensures
            final(self).inv(),
            final(self).visited_v() == old(self).visited_v(),
            if old(self).st().files.len() > 1 {
                &&& final(self).uses_v() == old(self).uses_v()
                &&& r matches Ok(ParseEvent::Returned)
                &&& final(self).tv() == old(self).saved_v().last().0
                &&& final(self).st() == (PState {
                    pos: old(self).saved_v().last().1,
                    files: old(self).st().files.drop_last(),
                    ..old(self).st()
                })
                &&& final(self).funcs_v() == old(self).funcs_v()
                &&& final(self).top_v() == old(self).top_v()
                &&& final(self).saved_v() == old(self).saved_v().drop_last()
            } else {
                r matches Ok(ParseEvent::Done(p)) && program_is(
                    p,
                    old(self).st(),
                    old(self).uses_v(),
                    old(self).funcs_v(),
                    old(self).top_v(),
                ) && tuple_table_ok(tuples_view(p.tuples@)) && tables_interned(
                    p.darrs@,
                    p.arrs@,
                    p.maps@,
                    tuples_view(p.tuples@),
                ) && struct_names_distinct(structs_view(p.structs@))
            },
    {
        if self.files.len() > 1 {
            let ghost files0 = self.files@;
            let ghost saved0 = self.saved@;
            self.files.pop();
            match self.saved.pop() {
                Some((toks, pos)) => {
                    self.toks = toks;
                    self.pos = pos;
                },
                None => {
                    proof {
                        assert(false);
                    }
                },
            }
            proof {
                assert(strs_view(self.files@) =~= strs_view(files0).drop_last());
                assert(self.saved_v() =~= old(self).saved_v().drop_last());
                assert(self.saved@ =~= saved0.drop_last());
                assert(old(self).saved_v().last() == (view_spanned(self.toks@), self.pos as int));
            }
            return Ok(ParseEvent::Returned);
        }
        let mut ret_stack: Vec<Ty> = Vec::new();
        std::mem::swap(&mut ret_stack, &mut self.ret_stack);
        let mut structs: Vec<StructDef> = Vec::new();
        std::mem::swap(&mut structs, &mut self.structs);
        let mut arrs: Vec<ArrDef> = Vec::new();
        std::mem::swap(&mut arrs, &mut self.arrs);
        let mut darrs: Vec<DArrDef> = seeded_darrs();
        std::mem::swap(&mut darrs, &mut self.darrs);
        let mut tuples: Vec<TupleDef> = Vec::new();
        std::mem::swap(&mut tuples, &mut self.tuples);
        let mut maps: Vec<MapDef> = Vec::new();
        std::mem::swap(&mut maps, &mut self.maps);
        let mut uses: Vec<String> = Vec::new();
        std::mem::swap(&mut uses, &mut self.uses);
        let mut funcs: Vec<FnDef> = Vec::new();
        std::mem::swap(&mut funcs, &mut self.funcs);
        let mut top: Vec<Stmt> = Vec::new();
        std::mem::swap(&mut top, &mut self.top);
        proof {
            reveal(struct_names_distinct);
            assert(structs_view(self.structs@) =~= Seq::<StructView>::empty());
            reveal(tables_interned);
            assert(seed_darrs().is_prefix_of(self.darrs@));
            assert(Seq::<ArrDef>::empty().no_duplicates());
            assert(Seq::<MapDef>::empty().no_duplicates());
            assert(tuples_view(self.tuples@) =~= Seq::<Seq<Ty>>::empty());
        }
        let prog = Program { structs, arrs, darrs, tuples, maps, uses, funcs, top };
        Ok(ParseEvent::Done(prog))
    }
}


// ───────────────────────── 类型表的定律 ─────────────────────────

/// 类型表去重且只增不改：登记一个类型后，表中恰有它的序号所指的定义；
/// 原表是新表的前缀（已有序号不位移）；原表无重复则新表也无重复；
/// 已登记的类型再次登记得到同一序号、表不变。
pub proof fn law_type_tables_interned(s: PState, elem: Ty, key: Ty, val: Ty, len: u64)
    requires
        s.darrs.len() < u32::MAX,
        s.maps.len() < u32::MAX,
        s.arrs.len() < u32::MAX,
    ensures
        ({
            let (t, s2) = darr_intern(s, elem);
            &&& t matches Ty::DArr(i) && (i as int) < s2.darrs.len() && s2.darrs[i as int] == (DArrDef { elem })
            &&& s.darrs.is_prefix_of(s2.darrs)
            &&& s.darrs.no_duplicates() ==> s2.darrs.no_duplicates()
            &&& darr_intern(s2, elem) == (t, s2)
        }),
        ({
            let (t, s2) = map_intern(s, key, val);
            &&& t matches Ty::MapOf(i) && (i as int) < s2.maps.len() && s2.maps[i as int] == (MapDef { key, val })
            &&& s.maps.is_prefix_of(s2.maps)
            &&& s.maps.no_duplicates() ==> s2.maps.no_duplicates()
            &&& map_intern(s2, key, val) == (t, s2)
        }),
        ({
            let (t, s2) = arr_intern(s, elem, len);
            &&& t matches Ty::Arr(i) && (i as int) < s2.arrs.len() && s2.arrs[i as int] == (ArrDef { elem, len })
            &&& s.arrs.is_prefix_of(s2.arrs)
            &&& s.arrs.no_duplicates() ==> s2.arrs.no_duplicates()
            &&& arr_intern(s2, elem, len) == (t, s2)
        }),
{
    lemma_index_from(s.darrs, DArrDef { elem });
    lemma_index_from(s.maps, MapDef { key, val });
    lemma_index_from(s.arrs, ArrDef { elem, len });
    let d2 = darr_intern(s, elem).1.darrs;
    lemma_index_from(d2, DArrDef { elem });
    let m2 = map_intern(s, key, val).1.maps;
    lemma_index_from(m2, MapDef { key, val });
    let a2 = arr_intern(s, elem, len).1.arrs;
    lemma_index_from(a2, ArrDef { elem, len });
    assert(s.darrs.is_prefix_of(d2));
    assert(s.maps.is_prefix_of(m2));
    assert(s.arrs.is_prefix_of(a2));
}

/// 元组表的同一定律（新元组的元素列表须合法，与解析器一致）
#[verifier::spinoff_prover]
#[verifier::rlimit(30)]
pub proof fn law_tuple_table_interned(s: PState, elems: Seq<Ty>)
    requires
        s.tuples.len() < u32::MAX,
        tuple_table_ok(s.tuples),
        tuple_elems_ok(elems),
    ensures
        ({
            let (t, s2) = tuple_intern(s, elems);
            &&& t matches Ty::Tuple(i) && (i as int) < s2.tuples.len() && s2.tuples[i as int] == elems
            &&& s.tuples.is_prefix_of(s2.tuples)
            &&& s.tuples.no_duplicates() ==> s2.tuples.no_duplicates()
            &&& tuple_table_ok(s2.tuples)
            &&& tuple_intern(s2, elems) == (t, s2)
        }),
{
    lemma_index_from(s.tuples, elems);
    let i = index_from(s.tuples, elems, 0);
    if i < s.tuples.len() {
        assert((i as u32) as int == i);
        assert(s.tuples.is_prefix_of(s.tuples));
    } else {
        let t2 = s.tuples.push(elems);
        lemma_index_from(t2, elems);
        assert(t2[s.tuples.len() as int] == elems);
        assert(index_from(t2, elems, 0) == s.tuples.len());
        assert((s.tuples.len() as u32) as int == s.tuples.len());
        assert forall|j: int| 0 <= j < t2.len() implies tuple_elems_ok(#[trigger] t2[j]) by {
            if j < s.tuples.len() {
                assert(t2[j] == s.tuples[j]);
            }
        }
        if s.tuples.no_duplicates() {
            lemma_push_fresh(s.tuples, elems);
        }
        assert(s.tuples =~= t2.subrange(0, s.tuples.len() as int));
    }
}

/// index_from 的刻画：找到则为第一个相等者的位置，否则为表长
proof fn lemma_index_from<A>(v: Seq<A>, x: A)
    ensures
        0 <= index_from(v, x, 0) <= v.len(),
        index_from(v, x, 0) < v.len() ==> v[index_from(v, x, 0)] == x,
        forall|j: int| 0 <= j < index_from(v, x, 0) ==> v[j] != x,
{
    lemma_index_from_at(v, x, 0);
}

proof fn lemma_index_from_at<A>(v: Seq<A>, x: A, i: int)
    requires
        0 <= i <= v.len(),
    ensures
        i <= index_from(v, x, i) <= v.len(),
        index_from(v, x, i) < v.len() ==> v[index_from(v, x, i)] == x,
        forall|j: int| i <= j < index_from(v, x, i) ==> v[j] != x,
    decreases v.len() - i,
{
    if i < v.len() && v[i] != x {
        lemma_index_from_at(v, x, i + 1);
    }
}

/// 预先登记的动态数组类型序号固定：[]str=0、[]i64=1、[]i32=2、[]f64=3、[]bool=4，
/// 以它们为前缀的任何表上再次登记都得到这些序号且不改表（keys/values 的结果类型恒有效）
pub proof fn law_seeded_darrs_fixed(s: PState)
    requires
        seed_darrs().is_prefix_of(s.darrs),
    ensures
        darr_intern(s, Ty::Str) == (Ty::DArr(0), s),
        darr_intern(s, Ty::I64) == (Ty::DArr(1), s),
        darr_intern(s, Ty::I32) == (Ty::DArr(2), s),
        darr_intern(s, Ty::F64) == (Ty::DArr(3), s),
        darr_intern(s, Ty::Bool) == (Ty::DArr(4), s),
{
    assert(s.darrs[0] == seed_darrs()[0]);
    assert(s.darrs[1] == seed_darrs()[1]);
    assert(s.darrs[2] == seed_darrs()[2]);
    assert(s.darrs[3] == seed_darrs()[3]);
    assert(s.darrs[4] == seed_darrs()[4]);
    reveal_with_fuel(index_from, 6);
}


/// 语法错误的显示文本
pub open spec fn spec_parse_error_display(msg: Seq<char>, line: usize) -> Seq<char> {
    "语法错误（第 "@ + radix_text(line as nat, 10) + " 行）："@ + msg
}

impl ParseError {
    pub fn display(&self) -> (r: String)
        ensures
            r@ == spec_parse_error_display(self.msg@, self.line),
    {
        let mut v: Vec<char> = Vec::new();
        push_str_chars("语法错误（第 ", &mut v);
        push_decimal(self.line as u64, &mut v);
        push_str_chars(" 行）：", &mut v);
        push_str_chars(self.msg.as_str(), &mut v);
        string_of_all(&v)
    }
}

} // verus!
