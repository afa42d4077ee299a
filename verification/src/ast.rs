//! 天语言抽象语法树

use vstd::prelude::*;

verus! {

/// 类型
#[derive(Debug, Clone, Copy, PartialEq, Eq, Structural)]
pub enum Ty {
    I32,
    I64,
    F64,
    Str,
    Bool,
    /// 只读借用（仅 str）；不是所有者
    BorrowStr,
    /// 结构体：按声明序号索引 Program.structs（名义类型：同序号即同类型）
    Struct(u32),
    /// 固定长度数组：索引 Program.arrs（纯值类型）
    Arr(u32),
    /// 动态数组：索引 Program.darrs（堆类型，参与所有权）
    DArr(u32),
    /// 元组：索引 Program.tuples（仅存在于函数返回边界）
    Tuple(u32),
    /// 关联数组：索引 Program.maps（键 i64/str，值为标量或 str）
    MapOf(u32),
}

/// `Ty::c_name` 的结果
pub open spec fn spec_c_name(t: Ty) -> Seq<char> {
    match t {
        Ty::I32 => "int"@,
        Ty::I64 => "long long"@,
        Ty::F64 => "double"@,
        Ty::Str | Ty::BorrowStr => "const char*"@,
        Ty::Bool => "int"@,
        Ty::Struct(_) => "struct"@,
        Ty::Arr(_) => "array"@,
        Ty::DArr(_) => "void*"@,
        Ty::Tuple(_) => "void*"@,
        Ty::MapOf(_) => "void*"@,
    }
}

/// `Ty::label` 的结果
pub open spec fn spec_label(t: Ty) -> Seq<char> {
    match t {
        Ty::I32 => "i32"@,
        Ty::I64 => "i64"@,
        Ty::F64 => "f64"@,
        Ty::Str => "str"@,
        Ty::Bool => "bool"@,
        Ty::BorrowStr => "&str"@,
        Ty::Struct(_) => "struct"@,
        Ty::Arr(_) => "array"@,
        Ty::DArr(_) => "darr"@,
        Ty::Tuple(_) => "tuple"@,
        Ty::MapOf(_) => "map"@,
    }
}

impl Ty {
    /// 对应的 C 类型（结构体与数组的具体 C 类型由 C 后端按类型表给出）
    pub fn c_name(&self) -> (r: &'static str)
        ensures
            r@ == spec_c_name(*self),
    {
        match self {
            Ty::I32 => "int",
            Ty::I64 => "long long",
            Ty::F64 => "double",
            Ty::Str | Ty::BorrowStr => "const char*",
            Ty::Bool => "int",
            Ty::Struct(_) => "struct",
            Ty::Arr(_) => "array",
            Ty::DArr(_) => "void*",
            Ty::Tuple(_) => "void*",
            Ty::MapOf(_) => "void*",
        }
    }

    /// 报错信息用名称（结构体名需经结构体表解析，见 `type_check::ty_label`）
    pub fn label(&self) -> (r: &'static str)
        ensures
            r@ == spec_label(*self),
    {
        match self {
            Ty::I32 => "i32",
            Ty::I64 => "i64",
            Ty::F64 => "f64",
            Ty::Str => "str",
            Ty::Bool => "bool",
            Ty::BorrowStr => "&str",
            Ty::Struct(_) => "struct",
            Ty::Arr(_) => "array",
            Ty::DArr(_) => "darr",
            Ty::Tuple(_) => "tuple",
            Ty::MapOf(_) => "map",
        }
    }

    pub fn is_numeric(&self) -> (r: bool)
        ensures
            r <==> (*self == Ty::I32 || *self == Ty::I64 || *self == Ty::F64),
    {
        match self {
            Ty::I32 | Ty::I64 | Ty::F64 => true,
            _ => false,
        }
    }

    /// 结构体类型（堆值，受所有权约束）
    pub fn is_struct(&self) -> (r: bool)
        ensures
            r <==> *self is Struct,
    {
        match self {
            Ty::Struct(_) => true,
            _ => false,
        }
    }

    /// 固定长度数组类型（纯值类型）
    pub fn is_arr(&self) -> (r: bool)
        ensures
            r <==> *self is Arr,
    {
        match self {
            Ty::Arr(_) => true,
            _ => false,
        }
    }

    /// 动态数组类型（堆类型）
    pub fn is_darr(&self) -> (r: bool)
        ensures
            r <==> *self is DArr,
    {
        match self {
            Ty::DArr(_) => true,
            _ => false,
        }
    }

    /// 元组类型（仅返回边界）
    pub fn is_tuple(&self) -> (r: bool)
        ensures
            r <==> *self is Tuple,
    {
        match self {
            Ty::Tuple(_) => true,
            _ => false,
        }
    }

    /// 关联数组类型（堆类型）
    pub fn is_map(&self) -> (r: bool)
        ensures
            r <==> *self is MapOf,
    {
        match self {
            Ty::MapOf(_) => true,
            _ => false,
        }
    }
}

/// 元组类型定义：元素类型列表（2–4 个）
#[derive(Debug)]
pub struct TupleDef {
    pub elems: Vec<Ty>,
}

impl View for TupleDef {
    type V = Seq<Ty>;

    open spec fn view(&self) -> Seq<Ty> {
        self.elems@
    }
}

impl Clone for TupleDef {
    fn clone(&self) -> (r: Self)
        ensures
            r@ == self@,
    {
        TupleDef { elems: self.elems.clone() }
    }
}

/// 关联数组类型定义：键类型 + 值类型
#[derive(Debug, Clone, Copy, PartialEq, Eq, Structural)]
pub struct MapDef {
    pub key: Ty,
    pub val: Ty,
}

/// 动态数组类型定义：元素类型
#[derive(Debug, Clone, Copy, PartialEq, Eq, Structural)]
pub struct DArrDef {
    pub elem: Ty,
}

/// 固定长度数组类型定义：元素类型 + 长度
#[derive(Debug, Clone, Copy, PartialEq, Eq, Structural)]
pub struct ArrDef {
    pub elem: Ty,
    pub len: u64,
}

/// 结构体字段声明
#[derive(Debug)]
pub struct FieldDef {
    pub name: String,
    pub ty: Ty,
    pub line: usize,
}

impl View for FieldDef {
    type V = (Seq<char>, Ty, usize);

    open spec fn view(&self) -> (Seq<char>, Ty, usize) {
        (self.name@, self.ty, self.line)
    }
}

impl Clone for FieldDef {
    fn clone(&self) -> (r: Self)
        ensures
            r@ == self@,
    {
        FieldDef { name: self.name.clone(), ty: self.ty, line: self.line }
    }
}

/// 结构体定义：值语义的复合堆类型，整体受所有权约束
#[derive(Debug)]
pub struct StructDef {
    pub name: String,
    pub fields: Vec<FieldDef>,
    pub line: usize,
    /// 来自 use 导入的文件
    pub imported: bool,
}

/// 结构体定义的视图：名字、各字段（名字、类型、行号）、行号、是否导入
pub struct StructView {
    pub name: Seq<char>,
    pub fields: Seq<(Seq<char>, Ty, usize)>,
    pub line: usize,
    pub imported: bool,
}

pub open spec fn fields_view(v: Seq<FieldDef>) -> Seq<(Seq<char>, Ty, usize)> {
    v.map_values(|f: FieldDef| f@)
}

impl View for StructDef {
    type V = StructView;

    open spec fn view(&self) -> StructView {
        StructView {
            name: self.name@,
            fields: fields_view(self.fields@),
            line: self.line,
            imported: self.imported,
        }
    }
}

pub fn clone_fields(v: &Vec<FieldDef>) -> (r: Vec<FieldDef>)
    ensures
        fields_view(r@) == fields_view(v@),
{
    let mut r: Vec<FieldDef> = Vec::new();
    let mut i: usize = 0;
    while i < v.len()
        invariant
            i <= v@.len(),
            r@.len() == i,
            forall|k: int| 0 <= k < i ==> #[trigger] r@[k]@ == v@[k]@,
        decreases v@.len() - i,
    {
        r.push(v[i].clone());
        i = i + 1;
    }
    assert(fields_view(r@) =~= fields_view(v@));
    r
}

impl Clone for StructDef {
    fn clone(&self) -> (r: Self)
        ensures
            r@ == self@,
    {
        StructDef {
            name: self.name.clone(),
            fields: clone_fields(&self.fields),
            line: self.line,
            imported: self.imported,
        }
    }
}

#[derive(Debug, Clone, Copy, PartialEq, Eq, Structural)]
pub enum BinOp {
    Add,
    Sub,
    Mul,
    Div,
    Lt,
    Gt,
    Le,
    Ge,
    Eq,
    Ne,
}

/// `BinOp::c_str` 的结果
pub open spec fn spec_binop_str(op: BinOp) -> Seq<char> {
    match op {
        BinOp::Add => "+"@,
        BinOp::Sub => "-"@,
        BinOp::Mul => "*"@,
        BinOp::Div => "/"@,
        BinOp::Lt => "<"@,
        BinOp::Gt => ">"@,
        BinOp::Le => "<="@,
        BinOp::Ge => ">="@,
        BinOp::Eq => "=="@,
        BinOp::Ne => "!="@,
    }
}

impl BinOp {
    pub fn c_str(&self) -> (r: &'static str)
        ensures
            r@ == spec_binop_str(*self),
    {
        match self {
            BinOp::Add => "+",
            BinOp::Sub => "-",
            BinOp::Mul => "*",
            BinOp::Div => "/",
            BinOp::Lt => "<",
            BinOp::Gt => ">",
            BinOp::Le => "<=",
            BinOp::Ge => ">=",
            BinOp::Eq => "==",
            BinOp::Ne => "!=",
        }
    }
}

/// 表达式。浮点字面量以其源码文本保存（十进制数字、小数点、十进制数字）。
#[derive(Debug)]
pub enum Expr {
    Int(i64),
    Float(String),
    Str(String),
    Bool(bool),
    Var(String),
    Neg(Box<Expr>),
    Bin { op: BinOp, lhs: Box<Expr>, rhs: Box<Expr> },
    /// 函数调用
    Call { name: String, args: Vec<Expr> },
    /// toi / tos / tof / copy 转换
    Convert { name: String, arg: Box<Expr> },
    /// 只读借用 &s
    Borrow(Box<Expr>),
    /// 结构体字面量：Point{1,2} 或 Point{x:1,y:2}
    StructLit { name: String, fields: Vec<(Option<String>, Expr)>, line: usize },
    /// 字段访问：p.x
    Field(Box<Expr>, String),
    /// 数组字面量：i64[3]{1,2,3}；arr 为 Program.arrs 索引
    ArrLit { arr: u32, elems: Vec<Expr> },
    /// 下标：a[i]
    Index(Box<Expr>, Box<Expr>),
    /// 动态数组字面量：[]i64{1,2}
    DArrLit { darr: u32, elems: Vec<Expr> },
    /// 追加元素：push(a, v)
    Push { arr: Box<Expr>, value: Box<Expr> },
    /// 移除末元素：pop(a)
    Pop { arr: Box<Expr> },
    /// map 字面量：map[K]V{ k1: v1, ... }
    MapLit { map: u32, entries: Vec<(Expr, Expr)> },
    /// 键存在性：has(m, k)
    Has { map: Box<Expr>, key: Box<Expr> },
    /// 删除键：del(m, k)
    Del { map: Box<Expr>, key: Box<Expr> },
    /// 子串：sub(s, start, n)
    Sub { s: Box<Expr>, start: Box<Expr>, n: Box<Expr> },
    /// 元组表达式：r/e1, e2（仅返回位置与 @example 期望值）
    TupExpr { elems: Vec<Expr>, tup: u32 },
    /// 长度：len(a)
    Len(Box<Expr>),
    /// 条件表达式：sel(条件, a, b)
    Sel { cond: Box<Expr>, a: Box<Expr>, b: Box<Expr> },
    /// map 键快照：keys(m)
    Keys(Box<Expr>),
    /// map 值快照：values(m)
    Values(Box<Expr>),
}

/// 语句（line 用于报错定位）
#[derive(Debug)]
pub enum Stmt {
    Decl { mutable: bool, name: String, ty: Option<Ty>, value: Expr, line: usize },
    /// 多声明解构 //a, b = f(...)
    MultiDecl { mutable: bool, names: Vec<String>, value: Expr, line: usize },
    /// 赋值（左侧可为变量或字段）
    Assign { target: Expr, value: Expr, line: usize },
    Print(Expr, usize),
    While { cond: Expr, body: Vec<Stmt>, line: usize },
    If { cond: Expr, body: Vec<Stmt>, else_body: Option<Vec<Stmt>>, line: usize },
    /// r/ 返回（None = 裸返回）
    Return(Option<Expr>, usize),
    /// 语句级表达式（调用、push、pop、del）
    Expr(Expr, usize),
    Break(usize),
    Continue(usize),
    /// panic(msg)
    Panic(Box<Expr>, usize),
    /// check(cond, msg)
    Check(Box<Expr>, Box<Expr>, usize),
}

#[derive(Debug, Clone)]
pub struct Param {
    pub name: String,
    /// 类型标注，None = 默认 i64
    pub ty: Option<Ty>,
    /// 动态数组 / map 借用形参（只读视图，不移动）
    pub borrow: bool,
}

/// 语义锚点：嵌入函数的机器可验证契约
#[derive(Debug)]
pub enum Contract {
    /// @pre: 函数入口必须成立的 bool 表达式
    Pre(Expr, usize),
    /// @post: 函数出口必须成立的 bool 表达式（ret 指返回值）
    Post(Expr, usize),
    /// @example: f(args) -> expected
    Example { call: Expr, expected: Expr, line: usize },
}

#[derive(Debug)]
pub struct FnDef {
    pub name: String,
    pub params: Vec<Param>,
    /// 返回类型标注，None = 默认 i64
    pub ret: Option<Ty>,
    pub body: Vec<Stmt>,
    /// 语义锚点：仅允许出现在函数体首部
    pub contracts: Vec<Contract>,
    /// 来自 use 导入的文件
    pub imported: bool,
}

#[derive(Debug)]
pub struct Program {
    /// 结构体声明（顺序即 Ty::Struct 的索引）
    pub structs: Vec<StructDef>,
    /// 数组类型表（顺序即 Ty::Arr 的索引）
    pub arrs: Vec<ArrDef>,
    /// 动态数组类型表（顺序即 Ty::DArr 的索引）
    pub darrs: Vec<DArrDef>,
    /// 元组类型表（顺序即 Ty::Tuple 的索引）
    pub tuples: Vec<TupleDef>,
    /// 关联数组类型表（顺序即 Ty::Map 的索引）
    pub maps: Vec<MapDef>,
    /// use 导入的模块名（按出现顺序）
    pub uses: Vec<String>,
    pub funcs: Vec<FnDef>,
    pub top: Vec<Stmt>,
}


// ───────────────────────── 规约视图 ─────────────────────────

/// 表达式的规约形态（字符串为字符序列，列表为序列）
pub enum SExpr {
    Int(i64),
    Float(Seq<char>),
    Str(Seq<char>),
    Bool(bool),
    Var(Seq<char>),
    Neg(Box<SExpr>),
    Bin { op: BinOp, lhs: Box<SExpr>, rhs: Box<SExpr> },
    Call { name: Seq<char>, args: Seq<SExpr> },
    Convert { name: Seq<char>, arg: Box<SExpr> },
    Borrow(Box<SExpr>),
    StructLit { name: Seq<char>, fields: Seq<(Option<Seq<char>>, SExpr)>, line: usize },
    Field(Box<SExpr>, Seq<char>),
    ArrLit { arr: u32, elems: Seq<SExpr> },
    Index(Box<SExpr>, Box<SExpr>),
    DArrLit { darr: u32, elems: Seq<SExpr> },
    Push { arr: Box<SExpr>, value: Box<SExpr> },
    Pop { arr: Box<SExpr> },
    MapLit { map: u32, entries: Seq<(SExpr, SExpr)> },
    Has { map: Box<SExpr>, key: Box<SExpr> },
    Del { map: Box<SExpr>, key: Box<SExpr> },
    Sub { s: Box<SExpr>, start: Box<SExpr>, n: Box<SExpr> },
    TupExpr { elems: Seq<SExpr>, tup: u32 },
    Len(Box<SExpr>),
    Sel { cond: Box<SExpr>, a: Box<SExpr>, b: Box<SExpr> },
    Keys(Box<SExpr>),
    Values(Box<SExpr>),
}

pub open spec fn opt_str_view(o: Option<String>) -> Option<Seq<char>> {
    match o {
        Some(s) => Some(s@),
        None => None,
    }
}

pub open spec fn expr_view(e: Expr) -> SExpr
    decreases e,
{
    match e {
        Expr::Int(n) => SExpr::Int(n),
        Expr::Float(s) => SExpr::Float(s@),
        Expr::Str(s) => SExpr::Str(s@),
        Expr::Bool(b) => SExpr::Bool(b),
        Expr::Var(s) => SExpr::Var(s@),
        Expr::Neg(a) => SExpr::Neg(Box::new(expr_view(*a))),
        Expr::Bin { op, lhs, rhs } => SExpr::Bin {
            op,
            lhs: Box::new(expr_view(*lhs)),
            rhs: Box::new(expr_view(*rhs)),
        },
        Expr::Call { name, args } => {
            proof {
                broadcast use vstd::std_specs::vec::axiom_vec_decreases_to_view;
            }
            SExpr::Call { name: name@, args: exprs_view(args@) }
        },
        Expr::Convert { name, arg } => SExpr::Convert { name: name@, arg: Box::new(expr_view(*arg)) },
        Expr::Borrow(a) => SExpr::Borrow(Box::new(expr_view(*a))),
        Expr::StructLit { name, fields, line } => {
            proof {
                broadcast use vstd::std_specs::vec::axiom_vec_decreases_to_view;
            }
            SExpr::StructLit { name: name@, fields: field_inits_view(fields@), line }
        },
        Expr::Field(a, f) => SExpr::Field(Box::new(expr_view(*a)), f@),
        Expr::ArrLit { arr, elems } => {
            proof {
                broadcast use vstd::std_specs::vec::axiom_vec_decreases_to_view;
            }
            SExpr::ArrLit { arr, elems: exprs_view(elems@) }
        },
        Expr::Index(a, i) => SExpr::Index(Box::new(expr_view(*a)), Box::new(expr_view(*i))),
        Expr::DArrLit { darr, elems } => {
            proof {
                broadcast use vstd::std_specs::vec::axiom_vec_decreases_to_view;
            }
            SExpr::DArrLit { darr, elems: exprs_view(elems@) }
        },
        Expr::Push { arr, value } => SExpr::Push {
            arr: Box::new(expr_view(*arr)),
            value: Box::new(expr_view(*value)),
        },
        Expr::Pop { arr } => SExpr::Pop { arr: Box::new(expr_view(*arr)) },
        Expr::MapLit { map, entries } => {
            proof {
                broadcast use vstd::std_specs::vec::axiom_vec_decreases_to_view;
            }
            SExpr::MapLit { map, entries: entries_view(entries@) }
        },
        Expr::Has { map, key } => SExpr::Has {
            map: Box::new(expr_view(*map)),
            key: Box::new(expr_view(*key)),
        },
        Expr::Del { map, key } => SExpr::Del {
            map: Box::new(expr_view(*map)),
            key: Box::new(expr_view(*key)),
        },
        Expr::Sub { s, start, n } => SExpr::Sub {
            s: Box::new(expr_view(*s)),
            start: Box::new(expr_view(*start)),
            n: Box::new(expr_view(*n)),
        },
        Expr::TupExpr { elems, tup } => {
            proof {
                broadcast use vstd::std_specs::vec::axiom_vec_decreases_to_view;
            }
            SExpr::TupExpr { elems: exprs_view(elems@), tup }
        },
        Expr::Len(a) => SExpr::Len(Box::new(expr_view(*a))),
        Expr::Sel { cond, a, b } => SExpr::Sel {
            cond: Box::new(expr_view(*cond)),
            a: Box::new(expr_view(*a)),
            b: Box::new(expr_view(*b)),
        },
        Expr::Keys(a) => SExpr::Keys(Box::new(expr_view(*a))),
        Expr::Values(a) => SExpr::Values(Box::new(expr_view(*a))),
    }
}

pub open spec fn exprs_view(v: Seq<Expr>) -> Seq<SExpr>
    decreases v,
{
    Seq::new(
        v.len(),
        |i: int|
            if 0 <= i < v.len() {
                expr_view(v[i])
            } else {
                SExpr::Int(0)
            },
    )
}

pub open spec fn field_inits_view(v: Seq<(Option<String>, Expr)>) -> Seq<(Option<Seq<char>>, SExpr)>
    decreases v,
{
    Seq::new(
        v.len(),
        |i: int|
            if 0 <= i < v.len() {
                (opt_str_view(v[i].0), expr_view(v[i].1))
            } else {
                (None, SExpr::Int(0))
            },
    )
}

pub open spec fn entries_view(v: Seq<(Expr, Expr)>) -> Seq<(SExpr, SExpr)>
    decreases v,
{
    Seq::new(
        v.len(),
        |i: int|
            if 0 <= i < v.len() {
                (expr_view(v[i].0), expr_view(v[i].1))
            } else {
                (SExpr::Int(0), SExpr::Int(0))
            },
    )
}

impl View for Expr {
    type V = SExpr;

    open spec fn view(&self) -> SExpr {
        expr_view(*self)
    }
}

/// 语句的规约形态
pub enum SStmt {
    Decl { mutable: bool, name: Seq<char>, ty: Option<Ty>, value: SExpr, line: usize },
    MultiDecl { mutable: bool, names: Seq<Seq<char>>, value: SExpr, line: usize },
    Assign { target: SExpr, value: SExpr, line: usize },
    Print(SExpr, usize),
    While { cond: SExpr, body: Seq<SStmt>, line: usize },
    If { cond: SExpr, body: Seq<SStmt>, else_body: Option<Seq<SStmt>>, line: usize },
    Return(Option<SExpr>, usize),
    Expr(SExpr, usize),
    Break(usize),
    Continue(usize),
    Panic(SExpr, usize),
    Check(SExpr, SExpr, usize),
}

pub open spec fn strs_view(v: Seq<String>) -> Seq<Seq<char>> {
    v.map_values(|s: String| s@)
}

pub open spec fn stmt_view(s: Stmt) -> SStmt
    decreases s,
{
    match s {
        Stmt::Decl { mutable, name, ty, value, line } => SStmt::Decl {
            mutable,
            name: name@,
            ty,
            value: expr_view(value),
            line,
        },
        Stmt::MultiDecl { mutable, names, value, line } => SStmt::MultiDecl {
            mutable,
            names: strs_view(names@),
            value: expr_view(value),
            line,
        },
        Stmt::Assign { target, value, line } => SStmt::Assign {
            target: expr_view(target),
            value: expr_view(value),
            line,
        },
        Stmt::Print(e, line) => SStmt::Print(expr_view(e), line),
        Stmt::While { cond, body, line } => {
            proof {
                broadcast use vstd::std_specs::vec::axiom_vec_decreases_to_view;
            }
            SStmt::While { cond: expr_view(cond), body: stmts_view(body@), line }
        },
        Stmt::If { cond, body, else_body, line } => {
            proof {
                broadcast use vstd::std_specs::vec::axiom_vec_decreases_to_view;
            }
            SStmt::If {
                cond: expr_view(cond),
                body: stmts_view(body@),
                else_body: match else_body {
                    Some(b) => Some(stmts_view(b@)),
                    None => None,
                },
                line,
            }
        },
        Stmt::Return(e, line) => SStmt::Return(
            match e {
                Some(x) => Some(expr_view(x)),
                None => None,
            },
            line,
        ),
        Stmt::Expr(e, line) => SStmt::Expr(expr_view(e), line),
        Stmt::Break(line) => SStmt::Break(line),
        Stmt::Continue(line) => SStmt::Continue(line),
        Stmt::Panic(e, line) => SStmt::Panic(expr_view(*e), line),
        Stmt::Check(c, m, line) => SStmt::Check(expr_view(*c), expr_view(*m), line),
    }
}

pub open spec fn stmts_view(v: Seq<Stmt>) -> Seq<SStmt>
    decreases v,
{
    Seq::new(
        v.len(),
        |i: int|
            if 0 <= i < v.len() {
                stmt_view(v[i])
            } else {
                SStmt::Break(0)
            },
    )
}

impl View for Stmt {
    type V = SStmt;

    open spec fn view(&self) -> SStmt {
        stmt_view(*self)
    }
}

/// 语义锚点的规约形态
pub enum SContract {
    Pre(SExpr, usize),
    Post(SExpr, usize),
    Example { call: SExpr, expected: SExpr, line: usize },
}

impl View for Contract {
    type V = SContract;

    open spec fn view(&self) -> SContract {
        match *self {
            Contract::Pre(e, l) => SContract::Pre(expr_view(e), l),
            Contract::Post(e, l) => SContract::Post(expr_view(e), l),
            Contract::Example { call, expected, line } => SContract::Example {
                call: expr_view(call),
                expected: expr_view(expected),
                line,
            },
        }
    }
}

pub open spec fn contracts_view(v: Seq<Contract>) -> Seq<SContract> {
    v.map_values(|c: Contract| c@)
}

impl View for Param {
    type V = (Seq<char>, Option<Ty>, bool);

    open spec fn view(&self) -> (Seq<char>, Option<Ty>, bool) {
        (self.name@, self.ty, self.borrow)
    }
}

pub open spec fn params_view(v: Seq<Param>) -> Seq<(Seq<char>, Option<Ty>, bool)> {
    v.map_values(|p: Param| p@)
}

/// 函数定义的规约形态
pub struct SFnDef {
    pub name: Seq<char>,
    pub params: Seq<(Seq<char>, Option<Ty>, bool)>,
    pub ret: Option<Ty>,
    pub body: Seq<SStmt>,
    pub contracts: Seq<SContract>,
    pub imported: bool,
}

impl View for FnDef {
    type V = SFnDef;

    open spec fn view(&self) -> SFnDef {
        SFnDef {
            name: self.name@,
            params: params_view(self.params@),
            ret: self.ret,
            body: stmts_view(self.body@),
            contracts: contracts_view(self.contracts@),
            imported: self.imported,
        }
    }
}

} // verus!
