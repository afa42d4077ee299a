//! 词法分析器
//!
//! 核心难点：区分 `/a`（只读声明）、`//b`（可变声明）与 `a/2`（除法）。
//! 读到 `/` 后：前一 Token 结束了一个表达式时恒为除号；否则向前看一个字符：
//!   1. `//` + 字母/下划线 → 可变声明前缀
//!   2. `/` + 字母/下划线   → 只读声明前缀
//!   3. 其余               → 除号

use vstd::prelude::*;
use crate::text::{
    unicode_alphabetic, unicode_alphanumeric, is_digit, is_alphabetic, is_alphanumeric,
    is_ascii_digit, chars_of, string_of, int_text, push_int, push_str_chars, string_of_all,
    debug_text, debug_string,
};
use vstd::string::{StrSliceExecFns, StringExecFns};

verus! {

/// Token。字符串类负载的类型为 `S`：运行时为 `String`，规约中为 `Seq<char>`。
#[derive(Debug, Clone, PartialEq)]
pub enum TokenOf<S> {
    /// `/` 只读声明前缀（紧贴标识符）
    ReadOnlyDecl,
    /// `//` 可变声明前缀（紧贴标识符）
    MutableDecl,
    /// `w/` while
    While,
    /// `i/` if
    If,
    /// `e/` else
    Else,
    /// `f/` 函数定义
    Fn,
    /// `r/` 函数返回
    Return,
    /// 结构体声明
    Struct,
    /// 模块导入
    Use,
    /// 跳出循环
    Break,
    /// 进入下一轮循环
    Continue,
    /// 标识符（含中文）
    Ident(S),
    /// 整数字面量
    Int(i64),
    /// 浮点字面量（源码文本：数字串、小数点、数字串）
    Float(S),
    /// 字符串字面量（已解转义）
    Str(S),
    /// true / false
    Bool(bool),
    /// `` ` `` 打印前缀
    Backtick,
    /// 内建函数名（toi tos copy len sel panic check push pop sub tof has del keys）
    ConvertFn(S),
    /// =
    Assign,
    Plus,
    Minus,
    Star,
    Slash,
    Le,
    Ge,
    Eq,
    Ne,
    Lt,
    Gt,
    LParen,
    RParen,
    LBrace,
    RBrace,
    Comma,
    Colon,
    /// 借用前缀 &
    Amp,
    /// 语义锚点前缀 @
    At,
    /// @example 中的 ->
    Arrow,
    /// 字段访问 .
    Dot,
    LBracket,
    RBracket,
    /// 换行（语句结束符）
    Newline,
    /// 文件结束
    Eof,
}

pub type Tok = TokenOf<String>;

pub type SpecTok = TokenOf<Seq<char>>;

impl View for TokenOf<String> {
    type V = TokenOf<Seq<char>>;

    open spec fn view(&self) -> TokenOf<Seq<char>> {
        match self {
            TokenOf::ReadOnlyDecl => TokenOf::ReadOnlyDecl,
            TokenOf::MutableDecl => TokenOf::MutableDecl,
            TokenOf::While => TokenOf::While,
            TokenOf::If => TokenOf::If,
            TokenOf::Else => TokenOf::Else,
            TokenOf::Fn => TokenOf::Fn,
            TokenOf::Return => TokenOf::Return,
            TokenOf::Struct => TokenOf::Struct,
            TokenOf::Use => TokenOf::Use,
            TokenOf::Break => TokenOf::Break,
            TokenOf::Continue => TokenOf::Continue,
            TokenOf::Ident(s) => TokenOf::Ident(s@),
            TokenOf::Int(n) => TokenOf::Int(*n),
            TokenOf::Float(s) => TokenOf::Float(s@),
            TokenOf::Str(s) => TokenOf::Str(s@),
            TokenOf::Bool(b) => TokenOf::Bool(*b),
            TokenOf::Backtick => TokenOf::Backtick,
            TokenOf::ConvertFn(s) => TokenOf::ConvertFn(s@),
            TokenOf::Assign => TokenOf::Assign,
            TokenOf::Plus => TokenOf::Plus,
            TokenOf::Minus => TokenOf::Minus,
            TokenOf::Star => TokenOf::Star,
            TokenOf::Slash => TokenOf::Slash,
            TokenOf::Le => TokenOf::Le,
            TokenOf::Ge => TokenOf::Ge,
            TokenOf::Eq => TokenOf::Eq,
            TokenOf::Ne => TokenOf::Ne,
            TokenOf::Lt => TokenOf::Lt,
            TokenOf::Gt => TokenOf::Gt,
            TokenOf::LParen => TokenOf::LParen,
            TokenOf::RParen => TokenOf::RParen,
            TokenOf::LBrace => TokenOf::LBrace,
            TokenOf::RBrace => TokenOf::RBrace,
            TokenOf::Comma => TokenOf::Comma,
            TokenOf::Colon => TokenOf::Colon,
            TokenOf::Amp => TokenOf::Amp,
            TokenOf::At => TokenOf::At,
            TokenOf::Arrow => TokenOf::Arrow,
            TokenOf::Dot => TokenOf::Dot,
            TokenOf::LBracket => TokenOf::LBracket,
            TokenOf::RBracket => TokenOf::RBracket,
            TokenOf::Newline => TokenOf::Newline,
            TokenOf::Eof => TokenOf::Eof,
        }
    }
}

/// 词法错误，附带行号
#[derive(Debug, Clone, PartialEq)]
pub struct LexError {
    pub msg: String,
    pub line: usize,
}

// ───────────────────────── 规约 ─────────────────────────

pub open spec fn char_at(s: Seq<char>, i: int) -> Option<char> {
    if 0 <= i < s.len() {
        Some(s[i])
    } else {
        None
    }
}

/// 行内空白（空格、制表符、回车）
pub open spec fn is_blank(c: char) -> bool {
    c == ' ' || c == '\t' || c == '\r'
}

/// 从 p 起跳过行内空白后的位置
pub open spec fn skip_blanks(s: Seq<char>, p: int) -> int
    decreases s.len() - p,
{
    if 0 <= p < s.len() && is_blank(s[p]) {
        skip_blanks(s, p + 1)
    } else {
        p
    }
}

/// 换行后被合并吞掉的字符：换行、回车、空格、制表符
pub open spec fn is_newline_run(c: char) -> bool {
    c == '\n' || c == '\r' || c == ' ' || c == '\t'
}

pub open spec fn skip_newline_run(s: Seq<char>, p: int) -> int
    decreases s.len() - p,
{
    if 0 <= p < s.len() && is_newline_run(s[p]) {
        skip_newline_run(s, p + 1)
    } else {
        p
    }
}

/// 注释的结束位置：p 起第一个换行符的位置（无换行则为末尾）
pub open spec fn comment_end(s: Seq<char>, p: int) -> int
    decreases s.len() - p,
{
    if 0 <= p < s.len() && s[p] != '\n' {
        comment_end(s, p + 1)
    } else {
        p
    }
}

/// p 起连续十进制数字的结束位置
pub open spec fn digits_end(s: Seq<char>, p: int) -> int
    decreases s.len() - p,
{
    if 0 <= p < s.len() && is_digit(s[p]) {
        digits_end(s, p + 1)
    } else {
        p
    }
}

/// 标识符的首字符：字母（Unicode Alphabetic）或下划线
pub open spec fn ident_start(c: char) -> bool {
    unicode_alphabetic(c) || c == '_'
}

/// 标识符的后续字符：字母数字（Unicode）或下划线
pub open spec fn word_char(c: char) -> bool {
    unicode_alphanumeric(c) || c == '_'
}

pub open spec fn word_end(s: Seq<char>, p: int) -> int
    decreases s.len() - p,
{
    if 0 <= p < s.len() && word_char(s[p]) {
        word_end(s, p + 1)
    } else {
        p
    }
}

/// `/` 之后的字符能否开始一个声明（字母或下划线）
pub open spec fn decl_start(o: Option<char>) -> bool {
    match o {
        Some(c) => ident_start(c),
        None => false,
    }
}

/// 该 Token 是否为“表达式结尾”（其后出现的 / 恒为除号）
pub open spec fn ends_expr(t: SpecTok) -> bool {
    t is Ident || t is Int || t is Float || t is Str || t is Bool || t is RParen
}

/// 换行符个数
pub open spec fn newline_count(s: Seq<char>) -> nat
    decreases s.len(),
{
    if s.len() == 0 {
        0
    } else {
        newline_count(s.drop_last()) + if s.last() == '\n' { 1nat } else { 0nat }
    }
}

/// 位置 p 所在的行号（从 1 开始）
pub open spec fn line_at(s: Seq<char>, p: int) -> int {
    1 + newline_count(s.take(p)) as int
}

/// 十进制数字串的值
pub open spec fn decimal_value(d: Seq<char>) -> int
    decreases d.len(),
{
    if d.len() == 0 {
        0
    } else {
        10 * decimal_value(d.drop_last()) + (d.last() as int - '0' as int)
    }
}

/// 一步词法分析的结果：Token 及其后的位置，或错误消息及出错时所在位置
pub enum Step {
    Token(SpecTok, int),
    Fail(Seq<char>, int),
}

/// 单字符符号
pub open spec fn single_tok(c: char) -> Option<SpecTok> {
    if c == '`' {
        Some(TokenOf::Backtick)
    } else if c == '+' {
        Some(TokenOf::Plus)
    } else if c == '-' {
        Some(TokenOf::Minus)
    } else if c == '*' {
        Some(TokenOf::Star)
    } else if c == '&' {
        Some(TokenOf::Amp)
    } else if c == '@' {
        Some(TokenOf::At)
    } else if c == '.' {
        Some(TokenOf::Dot)
    } else if c == '(' {
        Some(TokenOf::LParen)
    } else if c == ')' {
        Some(TokenOf::RParen)
    } else if c == '[' {
        Some(TokenOf::LBracket)
    } else if c == ']' {
        Some(TokenOf::RBracket)
    } else if c == '{' {
        Some(TokenOf::LBrace)
    } else if c == '}' {
        Some(TokenOf::RBrace)
    } else if c == ',' {
        Some(TokenOf::Comma)
    } else if c == ':' {
        Some(TokenOf::Colon)
    } else {
        None
    }
}

pub open spec fn msg_unclosed_line() -> Seq<char> {
    "字符串未闭合（字符串不可跨行）"@
}

pub open spec fn msg_unclosed() -> Seq<char> {
    "字符串未闭合"@
}

/// 字符串字面量体的扫描：i 为当前位置，acc 为已解转义的内容
pub open spec fn scan_string(s: Seq<char>, i: int, acc: Seq<char>) -> Step
    decreases s.len() - i,
{
    if !(0 <= i < s.len()) {
        Step::Fail(msg_unclosed_line(), i)
    } else if s[i] == '\n' {
        Step::Fail(msg_unclosed_line(), i + 1)
    } else if s[i] == '"' {
        Step::Token(TokenOf::Str(acc), i + 1)
    } else if s[i] == '\\' {
        if i + 1 >= s.len() {
            Step::Fail(msg_unclosed(), i + 1)
        } else {
            let e = s[i + 1];
            if e == '"' {
                scan_string(s, i + 2, acc.push('"'))
            } else if e == '\\' {
                scan_string(s, i + 2, acc.push('\\'))
            } else if e == 'n' {
                scan_string(s, i + 2, acc.push('\n'))
            } else if e == 't' {
                scan_string(s, i + 2, acc.push('\t'))
            } else {
                Step::Fail("未知转义 '\\"@ + seq![e] + "'"@, i + 2)
            }
        }
    } else {
        scan_string(s, i + 1, acc.push(s[i]))
    }
}

pub open spec fn msg_ident_after_number(text: Seq<char>) -> Seq<char> {
    "数字 '"@ + text + "' 后不能直接跟标识符字符"@
}

/// 数字字面量（q 处为数字）
pub open spec fn lex_number(s: Seq<char>, q: int) -> Step {
    let e = digits_end(s, q);
    if char_at(s, e) == Some('.') {
        if e + 1 < s.len() && is_digit(s[e + 1]) {
            let f = digits_end(s, e + 1);
            let text = s.subrange(q, f);
            if f < s.len() && ident_start(s[f]) {
                Step::Fail(msg_ident_after_number(text), f)
            } else {
                Step::Token(TokenOf::Float(text), f)
            }
        } else {
            Step::Fail(
                "非法数字 '"@ + s.subrange(q, e + 1)
                    + "'（浮点小数点后必须有数字，若为整数请去掉小数点）"@,
                e,
            )
        }
    } else if e < s.len() && ident_start(s[e]) {
        Step::Fail(msg_ident_after_number(s.subrange(q, e)), e)
    } else if decimal_value(s.subrange(q, e)) <= i64::MAX {
        Step::Token(TokenOf::Int(decimal_value(s.subrange(q, e)) as i64), e)
    } else {
        Step::Fail("整数超出 i64 范围 '"@ + s.subrange(q, e) + "'"@, e)
    }
}

/// 内建函数名
pub open spec fn is_builtin_word(w: Seq<char>) -> bool {
    w == "toi"@ || w == "tos"@ || w == "copy"@ || w == "len"@ || w == "sel"@ || w == "panic"@
        || w == "check"@ || w == "push"@ || w == "pop"@ || w == "sub"@ || w == "tof"@
        || w == "has"@ || w == "del"@ || w == "keys"@
}

/// 流程标记字 w i f r e
pub open spec fn is_marker_word(w: Seq<char>) -> bool {
    w == "w"@ || w == "i"@ || w == "f"@ || w == "r"@ || w == "e"@
}

pub open spec fn marker_tok(w: Seq<char>) -> SpecTok {
    if w == "w"@ {
        TokenOf::While
    } else if w == "i"@ {
        TokenOf::If
    } else if w == "e"@ {
        TokenOf::Else
    } else if w == "r"@ {
        TokenOf::Return
    } else {
        TokenOf::Fn
    }
}

/// 标识符 / 保留字（q 处为标识符首字符；div 为“表达式内”标志）
pub open spec fn lex_word(s: Seq<char>, q: int, div: bool) -> Step {
    let w = word_end(s, q);
    let word = s.subrange(q, w);
    if !div && is_marker_word(word) && char_at(s, w) == Some('/') {
        Step::Token(marker_tok(word), w + 1)
    } else if word == "true"@ {
        Step::Token(TokenOf::Bool(true), w)
    } else if word == "false"@ {
        Step::Token(TokenOf::Bool(false), w)
    } else if word == "struct"@ {
        Step::Token(TokenOf::Struct, w)
    } else if word == "use"@ {
        Step::Token(TokenOf::Use, w)
    } else if word == "break"@ {
        Step::Token(TokenOf::Break, w)
    } else if word == "continue"@ {
        Step::Token(TokenOf::Continue, w)
    } else if is_builtin_word(word) {
        Step::Token(TokenOf::ConvertFn(word), w)
    } else {
        Step::Token(TokenOf::Ident(word), w)
    }
}

/// 斜杠判定（q 处为 '/'）
pub open spec fn lex_slash(s: Seq<char>, q: int, div: bool) -> Step {
    if char_at(s, q + 1) == Some('/') {
        if !div && decl_start(char_at(s, q + 2)) {
            Step::Token(TokenOf::MutableDecl, q + 2)
        } else {
            Step::Token(TokenOf::Slash, q + 1)
        }
    } else if !div && decl_start(char_at(s, q + 1)) {
        Step::Token(TokenOf::ReadOnlyDecl, q + 1)
    } else {
        Step::Token(TokenOf::Slash, q + 1)
    }
}

/// 比较运算符 < > != 及 =（q 处为 '<' '>' '!' 或 '='）
pub open spec fn lex_compare(s: Seq<char>, q: int, c: char) -> Step {
    if c == '=' {
        if char_at(s, q + 1) == Some('=') {
            Step::Token(TokenOf::Eq, q + 2)
        } else {
            Step::Token(TokenOf::Assign, q + 1)
        }
    } else if char_at(s, q + 1) == Some('=') {
        Step::Token(
            if c == '<' {
                TokenOf::Le
            } else if c == '>' {
                TokenOf::Ge
            } else {
                TokenOf::Ne
            },
            q + 2,
        )
    } else if c == '!' {
        Step::Fail("孤立的 '!'（期望 != ）"@, q + 1)
    } else {
        Step::Token(
            if c == '<' {
                TokenOf::Lt
            } else {
                TokenOf::Gt
            },
            q + 1,
        )
    }
}

/// 从位置 p 读出下一个 Token（div：前一 Token 结束了一个表达式）
pub open spec fn next_token_at(s: Seq<char>, p: int, div: bool) -> Step
    decreases s.len() - p,
{
    let q = skip_blanks(s, p);
    if !(0 <= q < s.len()) {
        Step::Token(TokenOf::Eof, q)
    } else {
        let c = s[q];
        if c == '\n' {
            Step::Token(TokenOf::Newline, skip_newline_run(s, q + 1))
        } else if c == '#' {
            let r = comment_end(s, q);
            if p < r <= s.len() {
                next_token_at(s, r, div)
            } else {
                Step::Fail(seq![], r)
            }
        } else if c == '/' {
            lex_slash(s, q, div)
        } else if c == '-' && char_at(s, q + 1) == Some('>') {
            Step::Token(TokenOf::Arrow, q + 2)
        } else if single_tok(c) is Some {
            Step::Token(single_tok(c)->0, q + 1)
        } else if c == '<' || c == '>' || c == '!' || c == '=' {
            lex_compare(s, q, c)
        } else if is_digit(c) {
            lex_number(s, q)
        } else if c == '"' {
            scan_string(s, q + 1, seq![])
        } else if ident_start(c) {
            lex_word(s, q, div)
        } else {
            Step::Fail("无法识别的字符 '"@ + seq![c] + "'"@, q)
        }
    }
}

/// 整个源码的词法分析：从位置 p 起的 (Token, 起始行号) 序列，或 (错误消息, 行号)
pub open spec fn lex_from(s: Seq<char>, p: int, div: bool) -> Result<
    Seq<(SpecTok, int)>,
    (Seq<char>, int),
>
    decreases s.len() - p,
{
    match next_token_at(s, p, div) {
        Step::Fail(m, e) => Err((m, line_at(s, e))),
        Step::Token(t, np) => {
            if t is Eof {
                Ok(seq![(t, line_at(s, p))])
            } else if p < np <= s.len() {
                match lex_from(s, np, ends_expr(t)) {
                    Ok(rest) => Ok(seq![(t, line_at(s, p))] + rest),
                    Err(e) => Err(e),
                }
            } else {
                Err((seq![], 0))
            }
        },
    }
}

/// `lex_spanned` 的规约
pub open spec fn spec_lex_spanned(s: Seq<char>) -> Result<Seq<(SpecTok, int)>, (Seq<char>, int)> {
    lex_from(s, 0, false)
}

/// 带行号 Token 流的视图
pub open spec fn view_spanned(v: Seq<(Tok, usize)>) -> Seq<(SpecTok, int)> {
    Seq::new(v.len(), |i: int| (v[i].0@, v[i].1 as int))
}

/// Token 流的视图
pub open spec fn view_toks(v: Seq<Tok>) -> Seq<SpecTok> {
    Seq::new(v.len(), |i: int| v[i]@)
}


// ───────────────────────── 实现 ─────────────────────────

/// 一步的运行结果与规约一致：Token 与其后位置，或错误消息与出错位置的行号
pub open spec fn step_matches(s: Seq<char>, r: Result<Tok, LexError>, pos: int, st: Step) -> bool {
    match st {
        Step::Token(t, np) => r is Ok && r->Ok_0@ == t && pos == np,
        Step::Fail(m, e) => r is Err && r->Err_0.msg@ == m && r->Err_0.line == line_at(s, e),
    }
}

proof fn lemma_newline_count_step(s: Seq<char>, p: int)
    requires
        0 <= p < s.len(),
    ensures
        newline_count(s.take(p + 1)) == newline_count(s.take(p)) + if s[p] == '\n' {
            1nat
        } else {
            0nat
        },
{
    assert(s.take(p + 1).drop_last() =~= s.take(p));
}

proof fn lemma_newline_count_bound(s: Seq<char>)
    ensures
        newline_count(s) <= s.len(),
    decreases s.len(),
{
    if s.len() > 0 {
        lemma_newline_count_bound(s.drop_last());
    }
}

/// 字符切片 v[lo..hi] 是否等于字面量 lit
fn slice_is(v: &Vec<char>, lo: usize, hi: usize, lit: &str) -> (r: bool)
    requires
        lo <= hi <= v@.len(),
    ensures
        r == (v@.subrange(lo as int, hi as int) == lit@),
{
    let n = lit.unicode_len();
    if hi - lo != n {
        proof {
            if v@.subrange(lo as int, hi as int) == lit@ {
                assert(v@.subrange(lo as int, hi as int).len() == lit@.len());
            }
        }
        return false;
    }
    let mut i: usize = 0;
    while i < n
        invariant
            lo <= hi <= v@.len(),
            hi - lo == n,
            n == lit@.len(),
            i <= n,
            forall|j: int| 0 <= j < i ==> v@[lo + j] == lit@[j],
        decreases n - i,
    {
        if v[lo + i] != lit.get_char(i) {
            proof {
                if v@.subrange(lo as int, hi as int) == lit@ {
                    assert(v@.subrange(lo as int, hi as int)[i as int] == v@[lo + i]);
                }
            }
            return false;
        }
        i = i + 1;
    }
    assert(v@.subrange(lo as int, hi as int) =~= lit@);
    true
}

/// 消息 a + v[lo..hi] + b
fn msg_with(a: &str, v: &Vec<char>, lo: usize, hi: usize, b: &str) -> (r: String)
    requires
        lo <= hi <= v@.len(),
    ensures
        r@ == a@ + v@.subrange(lo as int, hi as int) + b@,
{
    let mut r = String::from_str(a);
    let mid = string_of(v, lo, hi);
    r.append(mid.as_str());
    r.append(b);
    r
}

/// 该 Token 是否为表达式结尾
fn tok_ends_expr(t: &Tok) -> (r: bool)
    ensures
        r == ends_expr(t@),
{
    match t {
        TokenOf::Ident(_) | TokenOf::Int(_) | TokenOf::Float(_) | TokenOf::Str(_)
        | TokenOf::Bool(_) | TokenOf::RParen => true,
        _ => false,
    }
}

struct Lexer {
    chars: Vec<char>,
    pos: usize,
    line: usize,
    /// 前一 Token 是否结束了一个表达式
    div: bool,
}

impl Lexer {
    spec fn wf(&self) -> bool {
        &&& self.pos <= self.chars@.len()
        &&& self.chars@.len() < usize::MAX
        &&& self.line == line_at(self.chars@, self.pos as int)
    }

    fn new(src: &str) -> (r: Lexer)
        requires
            src@.len() < usize::MAX,
        ensures
            r.wf(),
            r.chars@ == src@,
            r.pos == 0,
            !r.div,
    {
        let chars = chars_of(src);
        assert(chars@.take(0) =~= Seq::<char>::empty());
        Lexer { chars, pos: 0, line: 1, div: false }
    }

    /// 位置 pos + k 处的字符
    fn peek_at(&self, k: usize) -> (r: Option<char>)
        requires
            self.wf(),
        ensures
            r == char_at(self.chars@, self.pos + k),
    {
        if k < self.chars.len() - self.pos {
            Some(self.chars[self.pos + k])
        } else {
            None
        }
    }

    fn peek(&self) -> (r: Option<char>)
        requires
            self.wf(),
        ensures
            r == char_at(self.chars@, self.pos as int),
    {
        self.peek_at(0)
    }

    fn bump(&mut self) -> (r: Option<char>)
        requires
            old(self).wf(),
        ensures
            final(self).wf(),
            final(self).chars == old(self).chars,
            final(self).div == old(self).div,
            r == char_at(old(self).chars@, old(self).pos as int),
            final(self).pos == old(self).pos + if r is Some { 1int } else { 0int },
    {
        let c = self.peek();
        if self.pos < self.chars.len() {
            proof {
                lemma_newline_count_step(self.chars@, self.pos as int);
                lemma_newline_count_bound(self.chars@.take(self.pos as int));
            }
            self.pos = self.pos + 1;
            if self.chars[self.pos - 1] == '\n' {
                self.line = self.line + 1;
            }
        }
        c
    }

    fn err(&self, msg: String) -> (r: LexError)
        ensures
            r.msg@ == msg@,
            r.line == self.line,
    {
        LexError { msg, line: self.line }
    }
}


pub(crate) proof fn lemma_decimal_prefix(d: Seq<char>, k: int)
    requires
        0 <= k <= d.len(),
        forall|i: int| 0 <= i < d.len() ==> is_digit(#[trigger] d[i]),
    ensures
        0 <= decimal_value(d.take(k)) <= decimal_value(d),
    decreases d.len(),
{
    if k == d.len() {
        assert(d.take(k) =~= d);
        lemma_decimal_nonneg(d);
    } else {
        lemma_decimal_prefix(d.drop_last(), k);
        assert(d.drop_last().take(k) =~= d.take(k));
        lemma_decimal_nonneg(d.drop_last());
    }
}

proof fn lemma_decimal_nonneg(d: Seq<char>)
    requires
        forall|i: int| 0 <= i < d.len() ==> is_digit(#[trigger] d[i]),
    ensures
        decimal_value(d) >= 0,
    decreases d.len(),
{
    if d.len() > 0 {
        lemma_decimal_nonneg(d.drop_last());
    }
}

impl Lexer {
    /// 跳过当前位置起满足条件的字符：行内空白
    fn skip_blanks(&mut self)
        requires
            old(self).wf(),
        ensures
            final(self).wf(),
            final(self).chars == old(self).chars,
            final(self).div == old(self).div,
            final(self).pos == skip_blanks(old(self).chars@, old(self).pos as int),
    {
        while self.pos < self.chars.len() && (self.chars[self.pos] == ' ' || self.chars[self.pos]
            == '\t' || self.chars[self.pos] == '\r')
            invariant
                self.wf(),
                self.chars == old(self).chars,
                self.div == old(self).div,
                skip_blanks(self.chars@, self.pos as int) == skip_blanks(
                    old(self).chars@,
                    old(self).pos as int,
                ),
            decreases self.chars@.len() - self.pos,
        {
            self.bump();
        }
    }

    /// 跳过连续十进制数字
    fn skip_digits(&mut self)
        requires
            old(self).wf(),
        ensures
            final(self).wf(),
            final(self).chars == old(self).chars,
            final(self).div == old(self).div,
            final(self).pos == digits_end(old(self).chars@, old(self).pos as int),
    {
        while self.pos < self.chars.len() && is_ascii_digit(self.chars[self.pos])
            invariant
                self.wf(),
                self.chars == old(self).chars,
                self.div == old(self).div,
                digits_end(self.chars@, self.pos as int) == digits_end(
                    old(self).chars@,
                    old(self).pos as int,
                ),
            decreases self.chars@.len() - self.pos,
        {
            self.bump();
        }
    }

    /// 数字字面量（含浮点）
    fn lex_number(&mut self) -> (r: Result<Tok, LexError>)
        requires
            old(self).wf(),
            old(self).pos < old(self).chars@.len(),
            is_digit(old(self).chars@[old(self).pos as int]),
        ensures
            final(self).wf(),
            final(self).chars == old(self).chars,
            final(self).div == old(self).div,
            old(self).pos < final(self).pos,
            step_matches(
                old(self).chars@,
                r,
                final(self).pos as int,
                lex_number(old(self).chars@, old(self).pos as int),
            ),
    {
        let ghost s = self.chars@;
        let start = self.pos;
        self.skip_digits();
        proof {
            lemma_digits_end(s, start as int);
        }
        let e = self.pos;
        if self.peek() == Some('.') {
            match self.peek_at(1) {
                Some(n) => {
                    if is_ascii_digit(n) {
                        self.bump();
                        self.skip_digits();
                        proof {
                            lemma_digits_end(s, e + 1);
                        }
                        match self.peek() {
                            Some(c) => {
                                if is_alphabetic(c) || c == '_' {
                                    let m = msg_with(
                                        "数字 '",
                                        &self.chars,
                                        start,
                                        self.pos,
                                        "' 后不能直接跟标识符字符",
                                    );
                                    return Err(self.err(m));
                                }
                            },
                            None => {},
                        }
                        return Ok(TokenOf::Float(string_of(&self.chars, start, self.pos)));
                    }
                },
                None => {},
            }
            let m = msg_with(
                "非法数字 '",
                &self.chars,
                start,
                self.pos + 1,
                "'（浮点小数点后必须有数字，若为整数请去掉小数点）",
            );
            return Err(self.err(m));
        }
        match self.peek() {
            Some(c) => {
                if is_alphabetic(c) || c == '_' {
                    let m = msg_with("数字 '", &self.chars, start, self.pos, "' 后不能直接跟标识符字符");
                    return Err(self.err(m));
                }
            },
            None => {},
        }
        // 十进制值（溢出 i64 即报错）
        let ghost d = s.subrange(start as int, e as int);
        let mut v: i64 = 0;
        let mut i: usize = start;
        let mut overflow = false;
        while i < e
            invariant
                start <= i <= e <= s.len(),
                s == self.chars@,
                d == s.subrange(start as int, e as int),
                forall|j: int| start <= j < e ==> is_digit(#[trigger] s[j]),
                !overflow ==> v == decimal_value(d.take(i - start)),
                overflow ==> decimal_value(d) > i64::MAX,
            decreases e - i,
        {
            let dg = (self.chars[i] as u32 - '0' as u32) as i64;
            proof {
                assert forall|j: int| 0 <= j < d.len() implies is_digit(#[trigger] d[j]) by {
                    assert(d[j] == s[start + j]);
                }
                assert(d.take(i + 1 - start).drop_last() =~= d.take(i - start));
                assert(d.take(i + 1 - start).last() == s[i as int]);
                lemma_decimal_prefix(d, i + 1 - start);
            }
            if !overflow {
                match v.checked_mul(10) {
                    Some(t) => match t.checked_add(dg) {
                        Some(u) => {
                            v = u;
                        },
                        None => {
                            overflow = true;
                        },
                    },
                    None => {
                        overflow = true;
                    },
                }
            }
            i = i + 1;
        }
        if overflow {
            let m = msg_with("整数超出 i64 范围 '", &self.chars, start, self.pos, "'");
            return Err(self.err(m));
        }
        assert(d.take(e - start) =~= d);
        Ok(TokenOf::Int(v))
    }
}

proof fn lemma_digits_end(s: Seq<char>, p: int)
    requires
        0 <= p <= s.len(),
    ensures
        p <= digits_end(s, p) <= s.len(),
        forall|j: int| p <= j < digits_end(s, p) ==> is_digit(#[trigger] s[j]),
        digits_end(s, p) < s.len() ==> !is_digit(s[digits_end(s, p)]),
    decreases s.len() - p,
{
    if p < s.len() && is_digit(s[p]) {
        lemma_digits_end(s, p + 1);
    }
}


impl Lexer {
    /// 字符串字面量（当前位置为开引号）
    fn lex_string(&mut self) -> (r: Result<Tok, LexError>)
        requires
            old(self).wf(),
            old(self).pos < old(self).chars@.len(),
            old(self).chars@[old(self).pos as int] == '"',
        ensures
            final(self).wf(),
            final(self).chars == old(self).chars,
            final(self).div == old(self).div,
            old(self).pos < final(self).pos,
            step_matches(
                old(self).chars@,
                r,
                final(self).pos as int,
                scan_string(old(self).chars@, old(self).pos + 1, seq![]),
            ),
    {
        let ghost s = self.chars@;
        let ghost p0 = self.pos;
        self.bump();
        let mut acc: Vec<char> = Vec::new();
        loop
            invariant
                self.wf(),
                self.chars == old(self).chars,
                self.div == old(self).div,
                s == self.chars@,
                p0 == old(self).pos,
                p0 < self.pos,
                scan_string(s, self.pos as int, acc@) == scan_string(s, p0 + 1, seq![]),
            decreases s.len() - self.pos,
        {
            let ghost i = self.pos as int;
            match self.bump() {
                None => {
                    return Err(self.err(String::from_str("字符串未闭合（字符串不可跨行）")));
                },
                Some(c) => {
                    if c == '\n' {
                        return Err(self.err(String::from_str("字符串未闭合（字符串不可跨行）")));
                    } else if c == '"' {
                        let text = string_of(&acc, 0, acc.len());
                        assert(acc@.subrange(0, acc@.len() as int) =~= acc@);
                        return Ok(TokenOf::Str(text));
                    } else if c == '\\' {
                        match self.bump() {
                            None => {
                                return Err(self.err(String::from_str("字符串未闭合")));
                            },
                            Some(e) => {
                                if e == '"' {
                                    acc.push('"');
                                } else if e == '\\' {
                                    acc.push('\\');
                                } else if e == 'n' {
                                    acc.push('\n');
                                } else if e == 't' {
                                    acc.push('\t');
                                } else {
                                    let m = msg_with(
                                        "未知转义 '\\",
                                        &self.chars,
                                        self.pos - 1,
                                        self.pos,
                                        "'",
                                    );
                                    assert(s.subrange(i + 1, i + 2) =~= seq![e]);
                                    return Err(self.err(m));
                                }
                            },
                        }
                    } else {
                        acc.push(c);
                    }
                },
            }
        }
    }

    /// 当前位置起的标识符字符的结束位置（标识符首字符已确认）
    fn skip_word(&mut self)
        requires
            old(self).wf(),
        ensures
            final(self).wf(),
            final(self).chars == old(self).chars,
            final(self).div == old(self).div,
            final(self).pos == word_end(old(self).chars@, old(self).pos as int),
            old(self).pos < old(self).chars@.len() && ident_start(
                old(self).chars@[old(self).pos as int],
            ) ==> old(self).pos < final(self).pos,
    {
        let ghost p0 = self.pos;
        while self.pos < self.chars.len() && (is_alphanumeric(self.chars[self.pos])
            || self.chars[self.pos] == '_')
            invariant
                self.wf(),
                self.chars == old(self).chars,
                self.div == old(self).div,
                p0 == old(self).pos,
                p0 <= self.pos,
                word_end(self.chars@, self.pos as int) == word_end(old(self).chars@, p0 as int),
            decreases self.chars@.len() - self.pos,
        {
            self.bump();
        }
    }

    /// 标识符 / 保留标记字（当前位置为字母或下划线）
    fn lex_ident(&mut self) -> (r: Result<Tok, LexError>)
        requires
            old(self).wf(),
            old(self).pos < old(self).chars@.len(),
            ident_start(old(self).chars@[old(self).pos as int]),
            unicode_alphabetic(old(self).chars@[old(self).pos as int])
                || old(self).chars@[old(self).pos as int] == '_',
        ensures
            final(self).wf(),
            final(self).chars == old(self).chars,
            final(self).div == old(self).div,
            old(self).pos < final(self).pos,
            step_matches(
                old(self).chars@,
                r,
                final(self).pos as int,
                lex_word(old(self).chars@, old(self).pos as int, old(self).div),
            ),
    {
        let ghost s = self.chars@;
        let start = self.pos;
        self.skip_word();
        proof {
            lemma_word_end(s, start as int);
        }
        let w = self.pos;
        let word_chars = &self.chars;
        let is_marker = slice_is(word_chars, start, w, "w") || slice_is(word_chars, start, w, "i")
            || slice_is(word_chars, start, w, "f") || slice_is(word_chars, start, w, "r")
            || slice_is(word_chars, start, w, "e");
        if !self.div && is_marker && self.peek() == Some('/') {
            let t = if slice_is(&self.chars, start, w, "w") {
                TokenOf::While
            } else if slice_is(&self.chars, start, w, "i") {
                TokenOf::If
            } else if slice_is(&self.chars, start, w, "e") {
                TokenOf::Else
            } else if slice_is(&self.chars, start, w, "r") {
                TokenOf::Return
            } else {
                TokenOf::Fn
            };
            self.bump();
            return Ok(t);
        }
        if slice_is(&self.chars, start, w, "true") {
            return Ok(TokenOf::Bool(true));
        }
        if slice_is(&self.chars, start, w, "false") {
            return Ok(TokenOf::Bool(false));
        }
        if slice_is(&self.chars, start, w, "struct") {
            return Ok(TokenOf::Struct);
        }
        if slice_is(&self.chars, start, w, "use") {
            return Ok(TokenOf::Use);
        }
        if slice_is(&self.chars, start, w, "break") {
            return Ok(TokenOf::Break);
        }
        if slice_is(&self.chars, start, w, "continue") {
            return Ok(TokenOf::Continue);
        }
        let c = &self.chars;
        if slice_is(c, start, w, "toi") || slice_is(c, start, w, "tos") || slice_is(
            c,
            start,
            w,
            "copy",
        ) || slice_is(c, start, w, "len") || slice_is(c, start, w, "sel") || slice_is(
            c,
            start,
            w,
            "panic",
        ) || slice_is(c, start, w, "check") || slice_is(c, start, w, "push") || slice_is(
            c,
            start,
            w,
            "pop",
        ) || slice_is(c, start, w, "sub") || slice_is(c, start, w, "tof") || slice_is(
            c,
            start,
            w,
            "has",
        ) || slice_is(c, start, w, "del") || slice_is(c, start, w, "keys") {
            return Ok(TokenOf::ConvertFn(string_of(&self.chars, start, w)));
        }
        Ok(TokenOf::Ident(string_of(&self.chars, start, w)))
    }
}

proof fn lemma_word_end(s: Seq<char>, p: int)
    requires
        0 <= p <= s.len(),
    ensures
        p <= word_end(s, p) <= s.len(),
    decreases s.len() - p,
{
    if p < s.len() && word_char(s[p]) {
        lemma_word_end(s, p + 1);
    }
}


proof fn lemma_skip_blanks(s: Seq<char>, p: int)
    requires
        0 <= p <= s.len(),
    ensures
        p <= skip_blanks(s, p) <= s.len(),
    decreases s.len() - p,
{
    if p < s.len() && is_blank(s[p]) {
        lemma_skip_blanks(s, p + 1);
    }
}

proof fn lemma_comment_end(s: Seq<char>, p: int)
    requires
        0 <= p <= s.len(),
    ensures
        p <= comment_end(s, p) <= s.len(),
    decreases s.len() - p,
{
    if p < s.len() && s[p] != '\n' {
        lemma_comment_end(s, p + 1);
    }
}

impl Lexer {
    fn next_token_inner(&mut self) -> (r: Result<Tok, LexError>)
        requires
            old(self).wf(),
        ensures
            final(self).wf(),
            final(self).chars == old(self).chars,
            final(self).div == old(self).div,
            step_matches(
                old(self).chars@,
                r,
                final(self).pos as int,
                next_token_at(old(self).chars@, old(self).pos as int, old(self).div),
            ),
            r is Ok && !(r->Ok_0 is Eof) ==> old(self).pos < final(self).pos,
    {
        let ghost s = self.chars@;
        let ghost p0 = self.pos as int;
        let div = self.div;
        loop
            invariant
                self.wf(),
                self.chars == old(self).chars,
                self.div == old(self).div,
                div == self.div,
                s == self.chars@,
                p0 == old(self).pos,
                p0 <= self.pos,
                next_token_at(s, self.pos as int, div) == next_token_at(s, p0, div),
            decreases s.len() - self.pos,
        {
            let ghost p = self.pos as int;
            self.skip_blanks();
            proof {
                lemma_skip_blanks(s, p);
            }
            let c = match self.peek() {
                None => {
                    return Ok(TokenOf::Eof);
                },
                Some(c) => c,
            };
            let q = self.pos;
            // 换行：语句结束符（连续换行合并为一个）
            if c == '\n' {
                self.bump();
                while self.pos < self.chars.len() && (self.chars[self.pos] == '\n'
                    || self.chars[self.pos] == '\r' || self.chars[self.pos] == ' '
                    || self.chars[self.pos] == '\t')
                    invariant
                        self.wf(),
                        self.chars == old(self).chars,
                        self.div == old(self).div,
                        s == self.chars@,
                        q < self.pos,
                        skip_newline_run(s, self.pos as int) == skip_newline_run(s, q + 1),
                    decreases s.len() - self.pos,
                {
                    self.bump();
                }
                return Ok(TokenOf::Newline);
            }
            // 注释：# 到行尾
            if c == '#' {
                while self.pos < self.chars.len() && self.chars[self.pos] != '\n'
                    invariant
                        self.wf(),
                        self.chars == old(self).chars,
                        self.div == old(self).div,
                        s == self.chars@,
                        q <= self.pos,
                        comment_end(s, self.pos as int) == comment_end(s, q as int),
                    decreases s.len() - self.pos,
                {
                    self.bump();
                }
                proof {
                    lemma_comment_end(s, q as int);
                }
                continue;
            }
            // 斜杠歧义判定
            if c == '/' {
                if self.peek_at(1) == Some('/') {
                    let third = self.peek_at(2);
                    let decl = match third {
                        Some(t) => is_alphabetic(t) || t == '_',
                        None => false,
                    };
                    if !div && decl {
                        self.bump();
                        self.bump();
                        return Ok(TokenOf::MutableDecl);
                    }
                    self.bump();
                    return Ok(TokenOf::Slash);
                }
                let second = self.peek_at(1);
                let decl = match second {
                    Some(t) => is_alphabetic(t) || t == '_',
                    None => false,
                };
                if !div && decl {
                    self.bump();
                    return Ok(TokenOf::ReadOnlyDecl);
                }
                self.bump();
                return Ok(TokenOf::Slash);
            }
            // -> 箭头
            if c == '-' && self.peek_at(1) == Some('>') {
                self.bump();
                self.bump();
                return Ok(TokenOf::Arrow);
            }
            // 单字符符号
            let single = if c == '`' {
                Some(TokenOf::Backtick)
            } else if c == '+' {
                Some(TokenOf::Plus)
            } else if c == '-' {
                Some(TokenOf::Minus)
            } else if c == '*' {
                Some(TokenOf::Star)
            } else if c == '&' {
                Some(TokenOf::Amp)
            } else if c == '@' {
                Some(TokenOf::At)
            } else if c == '.' {
                Some(TokenOf::Dot)
            } else if c == '(' {
                Some(TokenOf::LParen)
            } else if c == ')' {
                Some(TokenOf::RParen)
            } else if c == '[' {
                Some(TokenOf::LBracket)
            } else if c == ']' {
                Some(TokenOf::RBracket)
            } else if c == '{' {
                Some(TokenOf::LBrace)
            } else if c == '}' {
                Some(TokenOf::RBrace)
            } else if c == ',' {
                Some(TokenOf::Comma)
            } else if c == ':' {
                Some(TokenOf::Colon)
            } else {
                None
            };
            match single {
                Some(t) => {
                    self.bump();
                    return Ok(t);
                },
                None => {},
            }
            // 双字符比较运算符与单字符 < > 及 = / ==
            if c == '<' || c == '>' || c == '!' {
                self.bump();
                if self.peek() == Some('=') {
                    self.bump();
                    return Ok(
                        if c == '<' {
                            TokenOf::Le
                        } else if c == '>' {
                            TokenOf::Ge
                        } else {
                            TokenOf::Ne
                        },
                    );
                }
                if c == '!' {
                    return Err(self.err(String::from_str("孤立的 '!'（期望 != ）")));
                }
                return Ok(
                    if c == '<' {
                        TokenOf::Lt
                    } else {
                        TokenOf::Gt
                    },
                );
            }
            if c == '=' {
                self.bump();
                if self.peek() == Some('=') {
                    self.bump();
                    return Ok(TokenOf::Eq);
                }
                return Ok(TokenOf::Assign);
            }
            // 数字字面量（含浮点）
            if is_ascii_digit(c) {
                return self.lex_number();
            }
            // 字符串字面量
            if c == '"' {
                return self.lex_string();
            }
            // 标识符 / 保留标记字
            if is_alphabetic(c) || c == '_' {
                return self.lex_ident();
            }
            let m = msg_with("无法识别的字符 '", &self.chars, self.pos, self.pos + 1, "'");
            assert(s.subrange(q as int, q + 1) =~= seq![c]);
            return Err(self.err(m));
        }
    }

    fn next_token(&mut self) -> (r: Result<Tok, LexError>)
        requires
            old(self).wf(),
        ensures
            final(self).wf(),
            final(self).chars == old(self).chars,
            step_matches(
                old(self).chars@,
                r,
                final(self).pos as int,
                next_token_at(old(self).chars@, old(self).pos as int, old(self).div),
            ),
            r is Ok ==> final(self).div == ends_expr(r->Ok_0@),
            r is Ok && !(r->Ok_0 is Eof) ==> old(self).pos < final(self).pos,
    {
        let tok = self.next_token_inner()?;
        self.div = tok_ends_expr(&tok);
        Ok(tok)
    }
}

/// 词法分析入口：源码 → (Token, 起始行号) 流（以 Eof 结尾）
pub fn lex_spanned(src: &str) -> (r: Result<Vec<(Tok, usize)>, LexError>)
    requires
        src@.len() < usize::MAX,
    ensures
        match spec_lex_spanned(src@) {
            Ok(v) => r is Ok && view_spanned(r->Ok_0@) == v,
            Err((m, l)) => r is Err && r->Err_0.msg@ == m && r->Err_0.line == l,
        },
{
    let mut lexer = Lexer::new(src);
    let mut toks: Vec<(Tok, usize)> = Vec::new();
    let ghost s = src@;
    loop
        invariant
            lexer.wf(),
            lexer.chars@ == s,
            s == src@,
            spec_lex_spanned(s) == (match lex_from(s, lexer.pos as int, lexer.div) {
                Ok(rest) => Ok(view_spanned(toks@) + rest),
                Err(e) => Err(e),
            }),
        decreases s.len() - lexer.pos,
    {
        let ghost p = lexer.pos as int;
        let ghost div = lexer.div;
        let line = lexer.line;
        let tok = match lexer.next_token() {
            Ok(t) => t,
            Err(e) => {
                return Err(e);
            },
        };
        let is_eof = match tok {
            TokenOf::Eof => true,
            _ => false,
        };
        let ghost t = tok@;
        let ghost old_toks = toks@;
        toks.push((tok, line));
        proof {
            assert(view_spanned(toks@) =~= view_spanned(old_toks) + seq![(t, line as int)]);
            if !is_eof {
                let head = seq![(t, line as int)];
                assert(lex_from(s, p, div) == (match lex_from(s, lexer.pos as int, lexer.div) {
                    Ok(rest) => Ok(head + rest),
                    Err(e) => Err(e),
                }));
                match lex_from(s, lexer.pos as int, lexer.div) {
                    Ok(rest) => {
                        assert(view_spanned(old_toks) + (head + rest) =~= view_spanned(toks@)
                            + rest);
                    },
                    Err(e) => {},
                }
            }
        }
        if is_eof {
            return Ok(toks);
        }
    }
}


/// 词法分析入口：源码 → Token 流（以 Eof 结尾）
pub fn lex(src: &str) -> (r: Result<Vec<Tok>, LexError>)
    requires
        src@.len() < usize::MAX,
    ensures
        match spec_lex_spanned(src@) {
            Ok(v) => r is Ok && view_toks(r->Ok_0@) == v.map_values(|p: (SpecTok, int)| p.0),
            Err((m, l)) => r is Err && r->Err_0.msg@ == m && r->Err_0.line == l,
        },
{
    let spanned = lex_spanned(src)?;
    let ghost sv = spanned@;
    let mut out: Vec<Tok> = Vec::new();
    for pair in it: spanned.into_iter()
        invariant
            it.seq() == sv,
            out@.len() == it.index(),
            forall|j: int| 0 <= j < out@.len() ==> #[trigger] out@[j]@ == sv[j].0@,
    {
        out.push(pair.0);
    }
    assert(view_toks(out@) =~= view_spanned(sv).map_values(|p: (SpecTok, int)| p.0));
    Ok(out)
}


// ───────────────────────── 定律 ─────────────────────────

/// 声明前缀或流程标记字
pub open spec fn is_decl_or_marker(t: SpecTok) -> bool {
    t is ReadOnlyDecl || t is MutableDecl || t is While || t is If || t is Else || t is Fn
        || t is Return
}

/// 表达式内（前一 Token 结束了一个表达式）读出的下一个 Token 不会是声明前缀或流程标记字：
/// 此时 `/` 恒为除号，`w/` 等也只是标识符加除号。
pub proof fn law_expression_context_step(s: Seq<char>, p: int)
    ensures
        next_token_at(s, p, true) matches Step::Token(t, _) ==> !is_decl_or_marker(t),
    decreases s.len() - p,
{
    let q = skip_blanks(s, p);
    if 0 <= q < s.len() {
        if s[q] == '#' {
            let r = comment_end(s, q);
            if p < r <= s.len() {
                law_expression_context_step(s, r);
            }
        }
        assert(lex_word(s, q, true) matches Step::Token(t, _) ==> !is_decl_or_marker(t));
        assert(lex_slash(s, q, true) matches Step::Token(t, _) ==> !is_decl_or_marker(t));
        assert(lex_number(s, q) matches Step::Token(t, _) ==> !is_decl_or_marker(t));
        assert(lex_compare(s, q, s[q]) matches Step::Token(t, _) ==> !is_decl_or_marker(t));
        lemma_scan_string_tok(s, q + 1, seq![]);
    }
}

/// 规律（斜杠判定）：语句开头（前一 Token 未结束表达式）的 `/名字` 读作只读声明前缀、`//名字` 读作
/// 可变声明前缀；表达式之后同样的文本读作除号
pub proof fn law_slash_rule(s: Seq<char>, p: int)
    requires
        0 <= p,
        p + 1 < s.len(),
        s[p] == '/',
        s[p + 1] != '/',
        ident_start(s[p + 1]),
    ensures
        next_token_at(s, p, false) == Step::Token(TokenOf::ReadOnlyDecl, p + 1),
        next_token_at(s, p, true) == Step::Token(TokenOf::Slash, p + 1),
        p + 2 < s.len() && ident_start(s[p + 2]) ==> next_token_at(s.update(p + 1, '/'), p, false) == Step::Token(
            TokenOf::MutableDecl,
            p + 2,
        ),
{
    assert(skip_blanks(s, p) == p);
    let s2 = s.update(p + 1, '/');
    assert(skip_blanks(s2, p) == p);
    assert(single_tok('/') is None);
}

proof fn lemma_scan_string_tok(s: Seq<char>, i: int, acc: Seq<char>)
    ensures
        scan_string(s, i, acc) matches Step::Token(t, _) ==> t is Str,
    decreases s.len() - i,
{
    if 0 <= i < s.len() && s[i] != '\n' && s[i] != '"' {
        if s[i] == '\\' {
            if i + 1 < s.len() {
                let e = s[i + 1];
                lemma_scan_string_tok(s, i + 2, acc.push(if e == '"' { '"' } else if e == '\\' { '\\' } else if e == 'n' { '\n' } else { '\t' }));
            }
        } else {
            lemma_scan_string_tok(s, i + 1, acc.push(s[i]));
        }
    }
}

proof fn lemma_line_monotone(s: Seq<char>, p: int, q: int)
    requires
        0 <= p <= q <= s.len(),
    ensures
        line_at(s, p) <= line_at(s, q),
    decreases q - p,
{
    if p < q {
        lemma_line_monotone(s, p, q - 1);
        lemma_newline_count_step(s, q - 1);
    }
}

/// lex_from 的成功结果：以 Eof 结尾且仅在结尾出现 Eof；行号不小于起点行号且单调不减；
/// 表达式结尾之后的 Token 不是声明前缀或流程标记字。
proof fn lemma_lex_from(s: Seq<char>, p: int, div: bool)
    requires
        0 <= p <= s.len(),
    ensures
        lex_from(s, p, div) matches Ok(v) ==> {
            &&& v.len() >= 1
            &&& v.last().0 is Eof
            &&& forall|i: int| 0 <= i < v.len() - 1 ==> !(#[trigger] v[i].0 is Eof)
            &&& forall|i: int| 0 <= i < v.len() ==> line_at(s, p) <= #[trigger] v[i].1
            &&& forall|i: int, j: int| 0 <= i <= j < v.len() ==> #[trigger] v[i].1 <= #[trigger] v[j].1
            &&& forall|i: int|
                0 < i < v.len() && ends_expr(#[trigger] v[i - 1].0) ==> !is_decl_or_marker(v[i].0)
            &&& div ==> !is_decl_or_marker(v[0].0)
        },
    decreases s.len() - p,
{
    if div {
        law_expression_context_step(s, p);
    }
    match next_token_at(s, p, div) {
        Step::Fail(m, e) => {},
        Step::Token(t, np) => {
            if !(t is Eof) && p < np <= s.len() {
                lemma_lex_from(s, np, ends_expr(t));
                lemma_line_monotone(s, p, np);
                match lex_from(s, np, ends_expr(t)) {
                    Ok(rest) => {
                        let v = seq![(t, line_at(s, p))] + rest;
                        assert forall|i: int| 0 < i < v.len() && ends_expr(#[trigger] v[i - 1].0)
                            implies !is_decl_or_marker(v[i].0) by {
                            if i > 1 {
                                assert(v[i - 1] == rest[i - 2]);
                                assert(v[i] == rest[i - 1]);
                            }
                        }
                        assert forall|i: int, j: int| 0 <= i <= j < v.len() implies #[trigger] v[i].1
                            <= #[trigger] v[j].1 by {
                            if i > 0 {
                                assert(v[i] == rest[i - 1]);
                                assert(v[j] == rest[j - 1]);
                            } else if j > 0 {
                                assert(v[j] == rest[j - 1]);
                            }
                        }
                        assert forall|i: int| 0 <= i < v.len() implies line_at(s, p)
                            <= #[trigger] v[i].1 by {
                            if i > 0 {
                                assert(v[i] == rest[i - 1]);
                            }
                        }
                        assert forall|i: int| 0 <= i < v.len() - 1 implies !(#[trigger] v[i].0 is Eof) by {
                            if i > 0 {
                                assert(v[i] == rest[i - 1]);
                            }
                        }
                    },
                    Err(_) => {},
                }
            }
        },
    }
}

/// 词法分析成功时：Token 流以 Eof 结尾且 Eof 只出现在结尾；行号从 1 起单调不减；
/// 表达式结尾（标识符、字面量、右括号）之后的 Token 从不是声明前缀或流程标记字
/// （斜杠判定：表达式内 `/` 恒为除号）。
pub proof fn law_lex_stream(s: Seq<char>)
    ensures
        spec_lex_spanned(s) matches Ok(v) ==> {
            &&& v.len() >= 1
            &&& v.last().0 is Eof
            &&& forall|i: int| 0 <= i < v.len() - 1 ==> !(#[trigger] v[i].0 is Eof)
            &&& forall|i: int| 0 <= i < v.len() ==> 1 <= #[trigger] v[i].1
            &&& forall|i: int, j: int| 0 <= i <= j < v.len() ==> #[trigger] v[i].1 <= #[trigger] v[j].1
            &&& forall|i: int|
                0 < i < v.len() && (#[trigger] v[i - 1].0 is Ident || v[i - 1].0 is Int || v[i - 1].0 is Float
                    || v[i - 1].0 is Str || v[i - 1].0 is Bool || v[i - 1].0 is RParen) ==> !is_decl_or_marker(v[i].0)
        },
{
    lemma_lex_from(s, 0, false);
}


// ───────────────────────── Token 的显示文本 ─────────────────────────

/// Token 的显示文本（报错信息用）
pub open spec fn spec_tok_display(t: SpecTok) -> Seq<char> {
    match t {
        TokenOf::ReadOnlyDecl => "/"@,
        TokenOf::MutableDecl => "//"@,
        TokenOf::While => "w/"@,
        TokenOf::If => "i/"@,
        TokenOf::Else => "e/"@,
        TokenOf::Fn => "f/"@,
        TokenOf::Return => "r/"@,
        TokenOf::Struct => "struct"@,
        TokenOf::Use => "use"@,
        TokenOf::Break => "break"@,
        TokenOf::Continue => "continue"@,
        TokenOf::Ident(s) => "标识符:"@ + s,
        TokenOf::Int(n) => "整数:"@ + int_text(n as int),
        TokenOf::Float(s) => "浮点:"@ + s,
        TokenOf::Str(s) => "字符串:"@ + debug_text(s),
        TokenOf::Bool(b) => "布尔:"@ + if b {
            "true"@
        } else {
            "false"@
        },
        TokenOf::Backtick => "`"@,
        TokenOf::ConvertFn(s) => "转换函数:"@ + s,
        TokenOf::Assign => "="@,
        TokenOf::Plus => "+"@,
        TokenOf::Minus => "-"@,
        TokenOf::Star => "*"@,
        TokenOf::Slash => "/ (除号)"@,
        TokenOf::Le => "<="@,
        TokenOf::Ge => ">="@,
        TokenOf::Eq => "=="@,
        TokenOf::Ne => "!="@,
        TokenOf::Lt => "<"@,
        TokenOf::Gt => ">"@,
        TokenOf::LParen => "("@,
        TokenOf::RParen => ")"@,
        TokenOf::LBrace => "{"@,
        TokenOf::RBrace => "}"@,
        TokenOf::Comma => ","@,
        TokenOf::Colon => ":"@,
        TokenOf::Amp => "&"@,
        TokenOf::At => "@"@,
        TokenOf::Arrow => "->"@,
        TokenOf::Dot => "."@,
        TokenOf::LBracket => "["@,
        TokenOf::RBracket => "]"@,
        TokenOf::Newline => "⏎"@,
        TokenOf::Eof => "EOF"@,
    }
}

/// 变体编号（不含负载）
pub open spec fn spec_tok_code(t: SpecTok) -> u8 {
    match t {
        TokenOf::ReadOnlyDecl => 0,
        TokenOf::MutableDecl => 1,
        TokenOf::While => 2,
        TokenOf::If => 3,
        TokenOf::Else => 4,
        TokenOf::Fn => 5,
        TokenOf::Return => 6,
        TokenOf::Struct => 7,
        TokenOf::Use => 8,
        TokenOf::Break => 9,
        TokenOf::Continue => 10,
        TokenOf::Ident(_) => 11,
        TokenOf::Int(_) => 12,
        TokenOf::Float(_) => 13,
        TokenOf::Str(_) => 14,
        TokenOf::Bool(_) => 15,
        TokenOf::Backtick => 16,
        TokenOf::ConvertFn(_) => 17,
        TokenOf::Assign => 18,
        TokenOf::Plus => 19,
        TokenOf::Minus => 20,
        TokenOf::Star => 21,
        TokenOf::Slash => 22,
        TokenOf::Le => 23,
        TokenOf::Ge => 24,
        TokenOf::Eq => 25,
        TokenOf::Ne => 26,
        TokenOf::Lt => 27,
        TokenOf::Gt => 28,
        TokenOf::LParen => 29,
        TokenOf::RParen => 30,
        TokenOf::LBrace => 31,
        TokenOf::RBrace => 32,
        TokenOf::Comma => 33,
        TokenOf::Colon => 34,
        TokenOf::Amp => 35,
        TokenOf::At => 36,
        TokenOf::Arrow => 37,
        TokenOf::Dot => 38,
        TokenOf::LBracket => 39,
        TokenOf::RBracket => 40,
        TokenOf::Newline => 41,
        TokenOf::Eof => 42,
    }
}

/// 不带负载的 Token
pub open spec fn is_plain(t: SpecTok) -> bool {
    !(t is Ident || t is Int || t is Float || t is Str || t is Bool || t is ConvertFn)
}

proof fn lemma_plain_code(a: SpecTok, b: SpecTok)
    requires
        is_plain(b),
    ensures
        (spec_tok_code(a) == spec_tok_code(b)) == (a == b),
{
}

impl TokenOf<String> {
    /// 变体编号
    pub fn code(&self) -> (r: u8)
        ensures
            r == spec_tok_code(self@),
    {
        match self {
            TokenOf::ReadOnlyDecl => 0,
            TokenOf::MutableDecl => 1,
            TokenOf::While => 2,
            TokenOf::If => 3,
            TokenOf::Else => 4,
            TokenOf::Fn => 5,
            TokenOf::Return => 6,
            TokenOf::Struct => 7,
            TokenOf::Use => 8,
            TokenOf::Break => 9,
            TokenOf::Continue => 10,
            TokenOf::Ident(_) => 11,
            TokenOf::Int(_) => 12,
            TokenOf::Float(_) => 13,
            TokenOf::Str(_) => 14,
            TokenOf::Bool(_) => 15,
            TokenOf::Backtick => 16,
            TokenOf::ConvertFn(_) => 17,
            TokenOf::Assign => 18,
            TokenOf::Plus => 19,
            TokenOf::Minus => 20,
            TokenOf::Star => 21,
            TokenOf::Slash => 22,
            TokenOf::Le => 23,
            TokenOf::Ge => 24,
            TokenOf::Eq => 25,
            TokenOf::Ne => 26,
            TokenOf::Lt => 27,
            TokenOf::Gt => 28,
            TokenOf::LParen => 29,
            TokenOf::RParen => 30,
            TokenOf::LBrace => 31,
            TokenOf::RBrace => 32,
            TokenOf::Comma => 33,
            TokenOf::Colon => 34,
            TokenOf::Amp => 35,
            TokenOf::At => 36,
            TokenOf::Arrow => 37,
            TokenOf::Dot => 38,
            TokenOf::LBracket => 39,
            TokenOf::RBracket => 40,
            TokenOf::Newline => 41,
            TokenOf::Eof => 42,
        }
    }

    /// 与不带负载的 Token 比较
    pub fn is(&self, want: &Tok) -> (r: bool)
        requires
            is_plain(want@),
        ensures
            r == (self@ == want@),
    {
        proof {
            lemma_plain_code(self@, want@);
        }
        self.code() == want.code()
    }

    /// 显示文本（报错信息用）
    pub fn display(&self) -> (r: String)
        ensures
            r@ == spec_tok_display(self@),
    {
        let lit = match self {
            TokenOf::ReadOnlyDecl => "/",
            TokenOf::MutableDecl => "//",
            TokenOf::While => "w/",
            TokenOf::If => "i/",
            TokenOf::Else => "e/",
            TokenOf::Fn => "f/",
            TokenOf::Return => "r/",
            TokenOf::Struct => "struct",
            TokenOf::Use => "use",
            TokenOf::Break => "break",
            TokenOf::Continue => "continue",
            TokenOf::Ident(s) => {
                let mut out = String::from_str("标识符:");
                out.append(s.as_str());
                return out;
            },
            TokenOf::Int(n) => {
                let mut v: Vec<char> = Vec::new();
                push_str_chars("整数:", &mut v);
                push_int(*n, &mut v);
                return string_of_all(&v);
            },
            TokenOf::Float(s) => {
                let mut out = String::from_str("浮点:");
                out.append(s.as_str());
                return out;
            },
            TokenOf::Str(s) => {
                let mut out = String::from_str("字符串:");
                let d = debug_string(s.as_str());
                out.append(d.as_str());
                return out;
            },
            TokenOf::Bool(b) => {
                let mut out = String::from_str("布尔:");
                out.append(
                    if *b {
                        "true"
                    } else {
                        "false"
                    },
                );
                return out;
            },
            TokenOf::Backtick => "`",
            TokenOf::ConvertFn(s) => {
                let mut out = String::from_str("转换函数:");
                out.append(s.as_str());
                return out;
            },
            TokenOf::Assign => "=",
            TokenOf::Plus => "+",
            TokenOf::Minus => "-",
            TokenOf::Star => "*",
            TokenOf::Slash => "/ (除号)",
            TokenOf::Le => "<=",
            TokenOf::Ge => ">=",
            TokenOf::Eq => "==",
            TokenOf::Ne => "!=",
            TokenOf::Lt => "<",
            TokenOf::Gt => ">",
            TokenOf::LParen => "(",
            TokenOf::RParen => ")",
            TokenOf::LBrace => "{",
            TokenOf::RBrace => "}",
            TokenOf::Comma => ",",
            TokenOf::Colon => ":",
            TokenOf::Amp => "&",
            TokenOf::At => "@",
            TokenOf::Arrow => "->",
            TokenOf::Dot => ".",
            TokenOf::LBracket => "[",
            TokenOf::RBracket => "]",
            TokenOf::Newline => "⏎",
            TokenOf::Eof => "EOF",
        };
        String::from_str(lit)
    }

    /// 复制（负载字符串逐一复制）
    pub fn copy(&self) -> (r: Tok)
        ensures
            r@ == self@,
    {
        match self {
            TokenOf::Ident(s) => TokenOf::Ident(s.clone()),
            TokenOf::Int(n) => TokenOf::Int(*n),
            TokenOf::Float(s) => TokenOf::Float(s.clone()),
            TokenOf::Str(s) => TokenOf::Str(s.clone()),
            TokenOf::Bool(b) => TokenOf::Bool(*b),
            TokenOf::ConvertFn(s) => TokenOf::ConvertFn(s.clone()),
            TokenOf::ReadOnlyDecl => TokenOf::ReadOnlyDecl,
            TokenOf::MutableDecl => TokenOf::MutableDecl,
            TokenOf::While => TokenOf::While,
            TokenOf::If => TokenOf::If,
            TokenOf::Else => TokenOf::Else,
            TokenOf::Fn => TokenOf::Fn,
            TokenOf::Return => TokenOf::Return,
            TokenOf::Struct => TokenOf::Struct,
            TokenOf::Use => TokenOf::Use,
            TokenOf::Break => TokenOf::Break,
            TokenOf::Continue => TokenOf::Continue,
            TokenOf::Backtick => TokenOf::Backtick,
            TokenOf::Assign => TokenOf::Assign,
            TokenOf::Plus => TokenOf::Plus,
            TokenOf::Minus => TokenOf::Minus,
            TokenOf::Star => TokenOf::Star,
            TokenOf::Slash => TokenOf::Slash,
            TokenOf::Le => TokenOf::Le,
            TokenOf::Ge => TokenOf::Ge,
            TokenOf::Eq => TokenOf::Eq,
            TokenOf::Ne => TokenOf::Ne,
            TokenOf::Lt => TokenOf::Lt,
            TokenOf::Gt => TokenOf::Gt,
            TokenOf::LParen => TokenOf::LParen,
            TokenOf::RParen => TokenOf::RParen,
            TokenOf::LBrace => TokenOf::LBrace,
            TokenOf::RBrace => TokenOf::RBrace,
            TokenOf::Comma => TokenOf::Comma,
            TokenOf::Colon => TokenOf::Colon,
            TokenOf::Amp => TokenOf::Amp,
            TokenOf::At => TokenOf::At,
            TokenOf::Arrow => TokenOf::Arrow,
            TokenOf::Dot => TokenOf::Dot,
            TokenOf::LBracket => TokenOf::LBracket,
            TokenOf::RBracket => TokenOf::RBracket,
            TokenOf::Newline => TokenOf::Newline,
            TokenOf::Eof => TokenOf::Eof,
        }
    }
}

/// 词法错误的显示文本
pub open spec fn spec_lex_error_display(msg: Seq<char>, line: usize) -> Seq<char> {
    "词法错误（第 "@ + int_text(line as int) + " 行）："@ + msg
}

impl LexError {
    pub fn display(&self) -> (r: String)
        ensures
            r@ == spec_lex_error_display(self.msg@, self.line),
    {
        let mut v: Vec<char> = Vec::new();
        push_str_chars("词法错误（第 ", &mut v);
        crate::text::push_decimal(self.line as u64, &mut v);
        push_str_chars(" 行）：", &mut v);
        push_str_chars(self.msg.as_str(), &mut v);
        string_of_all(&v)
    }
}

} // verus!
