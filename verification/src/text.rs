//! 字符与字符串的基础操作：Unicode 字符分类、字符序列与 String 的互转。

use vstd::prelude::*;
use vstd::string::StringExecFns;

verus! {

/// Unicode `Alphabetic` 属性（`char::is_alphabetic` 的结果）
pub uninterp spec fn unicode_alphabetic(c: char) -> bool;

/// `char::is_alphanumeric` 的结果（Alphabetic 或 Numeric 属性）
pub uninterp spec fn unicode_alphanumeric(c: char) -> bool;

/// ASCII 字符（码位 0..=0x7F，即 `char::is_ascii`）
pub open spec fn is_ascii_char(c: char) -> bool {
    c <= '\x7f'
}

/// ASCII 拉丁字母 a..=z、A..=Z（即 `char::is_ascii_alphabetic`）
pub open spec fn is_ascii_letter(c: char) -> bool {
    ('a' <= c && c <= 'z') || ('A' <= c && c <= 'Z')
}

/// 调用 `char::is_alphabetic`。其文档：当且仅当字符具有 Unicode Alphabetic 属性时为真。
/// 该属性表在此以名字 `unicode_alphabetic` 出现；陈述的只有它在 ASCII 范围内的部分：
/// ASCII 字符中恰是拉丁字母 a..=z、A..=Z 具有该属性（数字、标点、空白都不是）。
/// ASCII 以外各字符的属性值未被陈述。
#[verifier::external_body]
pub fn is_alphabetic(c: char) -> (r: bool)
    ensures
        r == unicode_alphabetic(c),
        is_ascii_char(c) ==> (r <==> is_ascii_letter(c)),
{
    c.is_alphabetic()
}

/// 调用 `char::is_alphanumeric`。其文档：字符满足 is_alphabetic 或 is_numeric 时为真。
/// 结果以名字 `unicode_alphanumeric` 出现；陈述的是文档给出的两点：字母必为字母数字；
/// ASCII 字符中恰是拉丁字母与数字 0..=9 为字母数字。ASCII 以外的 Numeric 属性未被陈述。
#[verifier::external_body]
pub fn is_alphanumeric(c: char) -> (r: bool)
    ensures
        r == unicode_alphanumeric(c),
        unicode_alphabetic(c) ==> r,
        is_ascii_char(c) ==> (r <==> (is_ascii_letter(c) || is_digit(c))),
{
    c.is_alphanumeric()
}

/// 调用 `str::chars` 并收集：结果是字符串的字符序列（即 `str` 的视图）。
/// 字符数不超过 `isize::MAX`：`str` 的字节数受分配上限 `isize::MAX` 约束，每个字符至少占一字节。
#[verifier::external_body]
pub fn chars_of(s: &str) -> (r: Vec<char>)
    ensures
        r@ == s@,
        r@.len() <= isize::MAX,
{
    s.chars().collect()
}

/// 调用 `Iterator::collect` 把字符切片 `v[lo..hi]` 收集为 `String`：结果的视图即该子序列。
#[verifier::external_body]
pub fn string_of(v: &Vec<char>, lo: usize, hi: usize) -> (r: String)
    requires
        lo <= hi <= v@.len(),
    ensures
        r@ == v@.subrange(lo as int, hi as int),
{
    v[lo..hi].iter().collect()
}

/// ASCII 十进制数字 '0'..='9'（与 `char::is_ascii_digit` 相同）
pub open spec fn is_digit(c: char) -> bool {
    '0' <= c && c <= '9'
}

pub fn is_ascii_digit(c: char) -> (r: bool)
    ensures
        r == is_digit(c),
{
    '0' <= c && c <= '9'
}


/// 数位 d（0..16）的字符：0-9 与小写 a-f
pub open spec fn digit_char(d: nat) -> char {
    if d < 10 {
        (48 + d) as char
    } else {
        (87 + d) as char
    }
}

/// 非负整数 n 的 b 进制文本（无前导零；0 为 "0"）
pub open spec fn radix_text(n: nat, b: nat) -> Seq<char>
    decreases n,
{
    if b < 2 || n < b {
        seq![digit_char(n)]
    } else {
        proof {
            assert(n / b < n) by (nonlinear_arith)
                requires
                    b >= 2,
                    n >= b,
            ;
        }
        radix_text(n / b, b).push(digit_char(n % b))
    }
}

fn push_radix(n: u64, b: u64, out: &mut Vec<char>)
    requires
        2 <= b <= 16,
    ensures
        final(out)@ == old(out)@ + radix_text(n as nat, b as nat),
    decreases n,
{
    if n >= b {
        assert(n / b < n) by (nonlinear_arith)
            requires
                b >= 2,
                n >= b,
        ;
        push_radix(n / b, b, out);
    }
    let d = n % b;
    let c: char = if d < 10 {
        ((48 + d) as u8) as char
    } else {
        ((87 + d) as u8) as char
    };
    out.push(c);
    proof {
        if n >= b {
            assert(radix_text(n as nat, b as nat) == radix_text((n / b) as nat, b as nat).push(
                digit_char((n % b) as nat),
            ));
        } else {
            assert(n % b == n) by (nonlinear_arith)
                requires
                    n < b,
                    b >= 2,
            ;
        }
    }
}

/// 追加 n 的十进制文本
pub fn push_decimal(n: u64, out: &mut Vec<char>)
    ensures
        final(out)@ == old(out)@ + radix_text(n as nat, 10),
{
    push_radix(n, 10, out);
}

/// 追加 n 的小写十六进制文本
pub fn push_hex(n: u64, out: &mut Vec<char>)
    ensures
        final(out)@ == old(out)@ + radix_text(n as nat, 16),
{
    push_radix(n, 16, out);
}

/// 把字符串 s 的字符追加到 out
pub fn push_str_chars(s: &str, out: &mut Vec<char>)
    ensures
        final(out)@ == old(out)@ + s@,
{
    let mut cs = chars_of(s);
    out.append(&mut cs);
}

/// 整个字符向量收集为 String
pub fn string_of_all(v: &Vec<char>) -> (r: String)
    ensures
        r@ == v@,
{
    let r = string_of(v, 0, v.len());
    assert(v@.subrange(0, v@.len() as int) =~= v@);
    r
}


/// 有符号整数的十进制文本
pub open spec fn int_text(n: int) -> Seq<char> {
    if n < 0 {
        seq!['-'] + radix_text((-n) as nat, 10)
    } else {
        radix_text(n as nat, 10)
    }
}

/// 追加 i64 的十进制文本
pub fn push_int(n: i64, out: &mut Vec<char>)
    ensures
        final(out)@ == old(out)@ + int_text(n as int),
{
    if n < 0 {
        out.push('-');
        let m: u64 = (0i128 - (n as i128)) as u64;
        push_decimal(m, out);
        assert(old(out)@ + seq!['-'] + radix_text(m as nat, 10) =~= old(out)@ + int_text(n as int));
    } else {
        push_decimal(n as u64, out);
    }
}

/// Rust 字符串的 Debug 表示（`format!("{:?}", s)`：加双引号并按 `char::escape_debug` 转义）
pub uninterp spec fn debug_text(s: Seq<char>) -> Seq<char>;

/// 调用 `format!("{:?}", s)`：结果只以名字 `debug_text` 出现，转义表的细节未被陈述。
#[verifier::external_body]
pub fn debug_string(s: &str) -> (r: String)
    ensures
        r@ == debug_text(s@),
{
    format!("{:?}", s)
}


/// 两个字符串是否相等
pub fn str_eq(a: &str, b: &str) -> (r: bool)
    ensures
        r == (a@ == b@),
{
    let x = String::from_str(a);
    let y = String::from_str(b);
    x == y
}

} // verus!
