//! Paranoid text spacing: insert whitespace between CJK (Chinese, Japanese,
//! Korean) characters and half-width characters (letters, digits, symbols).

pub mod classes;
pub mod laws;
pub mod model;
pub mod scan;

use std::borrow::Cow;
use vstd::prelude::*;
use crate::model::{bracket_stage, rewrite, spaced, Rule};
use crate::scan::rewrite_exec;

verus! {

/// Relies on `String::push`: the character is appended at the end.
pub assume_specification[ String::push ](s: &mut String, ch: char)
    ensures
        final(s)@ == old(s)@.push(ch),
;

/// The characters of `text`, in order.
fn to_chars(text: &str) -> (v: Vec<char>)
    ensures
        v@ == text@,
{
    let mut v: Vec<char> = Vec::new();
    for c in it: text.chars()
        invariant
            v@ == it.seq().subrange(0, it.index() as int),
    {
        v.push(c);
    }
    v
}

/// A string of the characters of `v`, in order.
fn from_chars(v: &Vec<char>) -> (s: String)
    ensures
        s@ == v@,
{
    let mut s = String::new();
    let mut i: usize = 0;
    while i < v.len()
        invariant
            i <= v.len(),
            s@ == v@.subrange(0, i as int),
        decreases v.len() - i,
    {
        s.push(v[i]);
        i = i + 1;
        assert(s@ =~= v@.subrange(0, i as int));
    }
    assert(v@ =~= v@.subrange(0, i as int));
    s
}

/// Whether `a` and `b` hold the same characters.
fn same_chars(a: &Vec<char>, b: &Vec<char>) -> (r: bool)
    ensures
        r == (a@ == b@),
{
    if a.len() != b.len() {
        return false;
    }
    let mut i: usize = 0;
    while i < a.len()
        invariant
            i <= a.len() == b.len(),
            forall|k: int| 0 <= k < i ==> a@[k] == b@[k],
        decreases a.len() - i,
    {
        if a[i] != b[i] {
            return false;
        }
        i = i + 1;
    }
    assert(a@ =~= b@);
    true
}

/// The bracket stage on `v`.
fn bracket_stage_exec(v: &Vec<char>) -> (r: Vec<char>)
    ensures
        r@ == bracket_stage(v@),
{
    let t = rewrite_exec(Rule::CjkBracketCjk, v);
    if same_chars(&t, v) {
        let u = rewrite_exec(Rule::CjkBracket, v);
        rewrite_exec(Rule::BracketCjk, &u)
    } else {
        t
    }
}

/// The whole pipeline on characters.
fn spaced_exec(v: &Vec<char>) -> (r: Vec<char>)
    ensures
        r@ == spaced(v@),
{
    let t1 = rewrite_exec(Rule::CjkQuote, v);
    let t2 = rewrite_exec(Rule::QuoteCjk, &t1);
    let t3 = rewrite_exec(Rule::FixQuote, &t2);
    let t4 = rewrite_exec(Rule::FixSingleQuote, &t3);
    let t5 = rewrite_exec(Rule::CjkHash, &t4);
    let t6 = rewrite_exec(Rule::HashCjk, &t5);
    let t7 = rewrite_exec(Rule::CjkOperatorAns, &t6);
    let t8 = rewrite_exec(Rule::AnsOperatorCjk, &t7);
    let t9 = bracket_stage_exec(&t8);
    let t10 = rewrite_exec(Rule::FixBracket, &t9);
    let t11 = rewrite_exec(Rule::FixSymbol, &t10);
    let t12 = rewrite_exec(Rule::CjkAns, &t11);
    rewrite_exec(Rule::AnsCjk, &t12)
}

/// Insert whitespace between CJK and half-width characters.
///
/// Where nothing changes, the input itself is handed back, borrowed.
pub fn spacing(text: &str) -> (r: Cow<str>)
    ensures
        r@ == spaced(text@),
        r is Borrowed <==> spaced(text@) == text@,
        r matches Cow::Borrowed(b) ==> b == text,
{
    let v = to_chars(text);
    let w = spaced_exec(&v);
    if same_chars(&w, &v) {
        Cow::Borrowed(text)
    } else {
        Cow::Owned(from_chars(&w))
    }
}

} // verus!
