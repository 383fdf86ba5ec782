//! The character classes that every rewrite rule is written over.
use vstd::prelude::*;

verus! {

/// CJK ideographs, kana, bopomofo and their enclosed forms.
pub open spec fn is_cjk_spec(c: char) -> bool {
    let u = c as u32;
    (0x2e80 <= u <= 0x2eff) || (0x2f00 <= u <= 0x2fdf) || (0x3040 <= u <= 0x309f) || (0x30a0
        <= u <= 0x30ff) || (0x3100 <= u <= 0x312f) || (0x3200 <= u <= 0x32ff) || (0x3400 <= u
        <= 0x4dbf) || (0x4e00 <= u <= 0x9fff) || (0xf900 <= u <= 0xfaff)
}

/// Half-width alphabets, numerals and symbols.
pub open spec fn is_ans_spec(c: char) -> bool {
    let u = c as u32;
    ('A' <= c <= 'Z') || ('a' <= c <= 'z') || ('0' <= c <= '9') || c == '`' || c == '$' || c
        == '%' || c == '^' || c == '&' || c == '*' || c == '-' || c == '=' || c == '+' || c
        == '\\' || c == '|' || c == '/' || (0xa1 <= u <= 0xff) || u == 0x2022 || u == 0x2027
        || (0x2150 <= u <= 0x218f)
}

/// ASCII letters and digits.
pub open spec fn is_alnum_spec(c: char) -> bool {
    ('A' <= c <= 'Z') || ('a' <= c <= 'z') || ('0' <= c <= '9')
}

/// ASCII letters.
pub open spec fn is_alpha_spec(c: char) -> bool {
    ('A' <= c <= 'Z') || ('a' <= c <= 'z')
}

/// Unicode `White_Space`.
pub open spec fn is_space_spec(c: char) -> bool {
    let u = c as u32;
    (0x09 <= u <= 0x0d) || u == 0x20 || u == 0x85 || u == 0xa0 || u == 0x1680 || (0x2000 <= u
        <= 0x200a) || u == 0x2028 || u == 0x2029 || u == 0x202f || u == 0x205f || u == 0x3000
}

/// The quotes that meet CJK text: `"` and `'`.
pub open spec fn is_quote_spec(c: char) -> bool {
    c == '"' || c == '\''
}

/// What opens a quoted span: quotes and opening brackets.
pub open spec fn is_quote_open_spec(c: char) -> bool {
    c == '"' || c == '\'' || c == '(' || c == '[' || c == '{' || c == '<' || c == '\u{201c}'
}

/// What closes a quoted span: quotes and closing brackets.
pub open spec fn is_quote_close_spec(c: char) -> bool {
    c == '"' || c == '\'' || c == ')' || c == ']' || c == '}' || c == '>' || c == '\u{201d}'
}

/// Opening brackets.
pub open spec fn is_open_spec(c: char) -> bool {
    c == '(' || c == '[' || c == '{' || c == '<' || c == '\u{201c}'
}

/// Closing brackets.
pub open spec fn is_close_spec(c: char) -> bool {
    c == ')' || c == ']' || c == '}' || c == '>' || c == '\u{201d}'
}

/// Operators that get a space on both sides between CJK and letters or digits.
pub open spec fn is_operator_spec(c: char) -> bool {
    c == '+' || c == '-' || c == '*' || c == '/' || c == '=' || c == '&' || c == '|' || c
        == '<' || c == '>'
}

/// Punctuation that stays attached to the CJK character before it.
pub open spec fn is_symbol_spec(c: char) -> bool {
    c == '~' || c == '!' || c == ';' || c == ':' || c == ',' || c == '.' || c == '?' || c
        == '\u{2026}'
}

pub fn is_cjk(c: char) -> (r: bool)
    ensures
        r == is_cjk_spec(c),
{
    let u = c as u32;
    (0x2e80 <= u && u <= 0x2eff) || (0x2f00 <= u && u <= 0x2fdf) || (0x3040 <= u && u <= 0x309f)
        || (0x30a0 <= u && u <= 0x30ff) || (0x3100 <= u && u <= 0x312f) || (0x3200 <= u && u
        <= 0x32ff) || (0x3400 <= u && u <= 0x4dbf) || (0x4e00 <= u && u <= 0x9fff) || (0xf900
        <= u && u <= 0xfaff)
}

pub fn is_ans(c: char) -> (r: bool)
    ensures
        r == is_ans_spec(c),
{
    let u = c as u32;
    ('A' <= c && c <= 'Z') || ('a' <= c && c <= 'z') || ('0' <= c && c <= '9') || c == '`' || c
        == '$' || c == '%' || c == '^' || c == '&' || c == '*' || c == '-' || c == '=' || c
        == '+' || c == '\\' || c == '|' || c == '/' || (0xa1 <= u && u <= 0xff) || u == 0x2022
        || u == 0x2027 || (0x2150 <= u && u <= 0x218f)
}

pub fn is_alnum(c: char) -> (r: bool)
    ensures
        r == is_alnum_spec(c),
{
    ('A' <= c && c <= 'Z') || ('a' <= c && c <= 'z') || ('0' <= c && c <= '9')
}

pub fn is_alpha(c: char) -> (r: bool)
    ensures
        r == is_alpha_spec(c),
{
    ('A' <= c && c <= 'Z') || ('a' <= c && c <= 'z')
}

pub fn is_space(c: char) -> (r: bool)
    ensures
        r == is_space_spec(c),
{
    let u = c as u32;
    (0x09 <= u && u <= 0x0d) || u == 0x20 || u == 0x85 || u == 0xa0 || u == 0x1680 || (0x2000
        <= u && u <= 0x200a) || u == 0x2028 || u == 0x2029 || u == 0x202f || u == 0x205f || u
        == 0x3000
}

pub fn is_quote(c: char) -> (r: bool)
    ensures
        r == is_quote_spec(c),
{
    c == '"' || c == '\''
}

pub fn is_quote_open(c: char) -> (r: bool)
    ensures
        r == is_quote_open_spec(c),
{
    c == '"' || c == '\'' || c == '(' || c == '[' || c == '{' || c == '<' || c == '\u{201c}'
}

pub fn is_quote_close(c: char) -> (r: bool)
    ensures
        r == is_quote_close_spec(c),
{
    c == '"' || c == '\'' || c == ')' || c == ']' || c == '}' || c == '>' || c == '\u{201d}'
}

pub fn is_open(c: char) -> (r: bool)
    ensures
        r == is_open_spec(c),
{
    c == '(' || c == '[' || c == '{' || c == '<' || c == '\u{201c}'
}

pub fn is_close(c: char) -> (r: bool)
    ensures
        r == is_close_spec(c),
{
    c == ')' || c == ']' || c == '}' || c == '>' || c == '\u{201d}'
}

pub fn is_operator(c: char) -> (r: bool)
    ensures
        r == is_operator_spec(c),
{
    c == '+' || c == '-' || c == '*' || c == '/' || c == '=' || c == '&' || c == '|' || c == '<'
        || c == '>'
}

pub fn is_symbol(c: char) -> (r: bool)
    ensures
        r == is_symbol_spec(c),
{
    c == '~' || c == '!' || c == ';' || c == ':' || c == ',' || c == '.' || c == '?' || c
        == '\u{2026}'
}

} // verus!
