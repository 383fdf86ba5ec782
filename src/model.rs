//! The mathematical model of the spacing pipeline: each rule says where a
//! match starting at a position ends and what replaces it, and a pass
//! rewrites every non-overlapping match from left to right.
use vstd::prelude::*;
use crate::classes::{
    is_alnum_spec, is_alpha_spec, is_ans_spec, is_cjk_spec, is_close_spec, is_open_spec,
    is_operator_spec, is_quote_close_spec, is_quote_open_spec, is_quote_spec, is_space_spec,
    is_symbol_spec,
};

verus! {

/// A class of characters that a run is made of.
#[derive(Clone, Copy, PartialEq, Eq, Structural)]
pub enum Class {
    Space,
    NonSpace,
    Open,
    Close,
}

pub open spec fn in_class(cls: Class, c: char) -> bool {
    match cls {
        Class::Space => is_space_spec(c),
        Class::NonSpace => !is_space_spec(c),
        Class::Open => is_open_spec(c),
        Class::Close => is_close_spec(c),
    }
}

/// The end of the longest run of `cls` characters that starts at `j`.
pub open spec fn run_end(cls: Class, s: Seq<char>, j: int) -> int
    decreases s.len() - j,
{
    if 0 <= j < s.len() && in_class(cls, s[j]) {
        run_end(cls, s, j + 1)
    } else {
        j
    }
}

/// One rewrite rule of the pipeline.
#[derive(Clone, Copy, PartialEq, Eq, Structural)]
pub enum Rule {
    /// CJK then a quote: a space between them.
    CjkQuote,
    /// A quote then CJK: a space between them.
    QuoteCjk,
    /// A quoted or bracketed span loses the whitespace just inside it.
    FixQuote,
    /// CJK, a space, an apostrophe and a letter: the space goes.
    FixSingleQuote,
    /// CJK then a hashtag: a space before the `#`.
    CjkHash,
    /// A non-blank run ending in `#` then CJK: a space after the `#`.
    HashCjk,
    /// CJK, an operator, a letter or digit: spaces round the operator.
    CjkOperatorAns,
    /// A letter or digit, an operator, CJK: spaces round the operator.
    AnsOperatorCjk,
    /// CJK, a bracketed span, CJK: spaces round the span.
    CjkBracketCjk,
    /// CJK then an opening bracket: a space between them.
    CjkBracket,
    /// A closing bracket then CJK: a space between them.
    BracketCjk,
    /// A run of brackets loses the whitespace just inside it.
    FixBracket,
    /// CJK, punctuation, a letter or digit: a space after the punctuation.
    FixSymbol,
    /// CJK then a half-width character: a space between them.
    CjkAns,
    /// A half-width character or punctuation then CJK: a space between them.
    AnsCjk,
}

/// Whether the two characters `a`, `b` form a match of a rule that puts a space between them.
pub open spec fn pair_spec(rule: Rule, a: char, b: char) -> bool {
    match rule {
        Rule::CjkQuote => is_cjk_spec(a) && is_quote_spec(b),
        Rule::QuoteCjk => is_quote_spec(a) && is_cjk_spec(b),
        Rule::CjkBracket => is_cjk_spec(a) && (is_open_spec(b) || b == '>'),
        Rule::BracketCjk => (is_close_spec(a) || a == '<') && is_cjk_spec(b),
        Rule::CjkAns => is_cjk_spec(a) && (is_ans_spec(b) || b == '@'),
        Rule::AnsCjk => (is_ans_spec(a) || is_symbol_spec(a)) && is_cjk_spec(b),
        _ => false,
    }
}

/// Whether the three characters form a match of a rule that spaces the middle one.
pub open spec fn triple_spec(rule: Rule, a: char, b: char, c: char) -> bool {
    match rule {
        Rule::CjkOperatorAns => is_cjk_spec(a) && is_operator_spec(b) && is_alnum_spec(c),
        Rule::AnsOperatorCjk => is_alnum_spec(a) && is_operator_spec(b) && is_cjk_spec(c),
        Rule::FixSymbol => is_cjk_spec(a) && is_symbol_spec(b) && is_alnum_spec(c),
        _ => false,
    }
}

/// Whether the closer of a padded span (after optional whitespace) stands at `q`.
pub open spec fn closes_at(bracket: bool, s: Seq<char>, q: int) -> bool {
    let q2 = run_end(Class::Space, s, q);
    0 <= q2 < s.len() && if bracket {
        is_close_spec(s[q2])
    } else {
        is_quote_close_spec(s[q2])
    }
}

/// The end of the shortest inner span that takes in `q - 1`, ends at `q` or later, holds
/// no line break, and is followed by optional whitespace and a closer.
pub open spec fn find_close(bracket: bool, s: Seq<char>, q: int) -> Option<int>
    decreases s.len() + 1 - q,
{
    if q < 1 || q > s.len() || s[q - 1] == '\n' {
        None
    } else if closes_at(bracket, s, q) {
        Some(q)
    } else {
        find_close(bracket, s, q + 1)
    }
}

/// The inner span of a padded span, as (start, end): the start is the latest of
/// `p, p - 1, ..., lo` from which an inner span reaches a closer.
pub open spec fn pick_inner(bracket: bool, s: Seq<char>, lo: int, p: int) -> Option<(int, int)>
    decreases p - lo + 1,
{
    if p < lo {
        None
    } else {
        match find_close(bracket, s, p + 1) {
            Some(q) => Some((p, q)),
            None => pick_inner(bracket, s, lo, p - 1),
        }
    }
}

/// The end of the opening delimiter of a padded span that starts at `i`.
pub open spec fn opener_end(bracket: bool, s: Seq<char>, i: int) -> int {
    if bracket {
        run_end(Class::Open, s, i)
    } else {
        i + 1
    }
}

/// Whether a padded span can start at `i`.
pub open spec fn opens_at(bracket: bool, s: Seq<char>, i: int) -> bool {
    0 <= i < s.len() && if bracket {
        is_open_spec(s[i])
    } else {
        is_quote_open_spec(s[i])
    }
}

/// The inner span `(p, q)` of a padded span starting at `i`.
pub open spec fn fix_inner(bracket: bool, s: Seq<char>, i: int) -> Option<(int, int)> {
    if opens_at(bracket, s, i) {
        let m = opener_end(bracket, s, i);
        pick_inner(bracket, s, i + 1, run_end(Class::Space, s, m))
    } else {
        None
    }
}

/// The end of the closing delimiter whose whitespace ends at `q2`.
pub open spec fn closer_end(bracket: bool, s: Seq<char>, q2: int) -> int {
    if bracket {
        run_end(Class::Close, s, q2)
    } else {
        q2 + 1
    }
}

/// The position of a `#` that, after the non-blank run from `i`, is followed by CJK:
/// the last of `j, j - 1, ..., i + 1`.
pub open spec fn last_hash(s: Seq<char>, i: int, j: int) -> Option<int>
    decreases j - i,
{
    if j <= i {
        None
    } else if 0 <= j && j + 1 < s.len() && s[j] == '#' && is_cjk_spec(s[j + 1]) {
        Some(j)
    } else {
        last_hash(s, i, j - 1)
    }
}

/// The first closing bracket at `q` or later, on one line, whose run of closers is
/// followed by CJK.
pub open spec fn bracket_close(s: Seq<char>, q: int) -> Option<int>
    decreases s.len() - q,
{
    if q < 0 || q >= s.len() {
        None
    } else if is_close_spec(s[q]) && run_end(Class::Close, s, q) < s.len() && is_cjk_spec(
        s[run_end(Class::Close, s, q)],
    ) {
        Some(q)
    } else if s[q] == '\n' {
        None
    } else {
        bracket_close(s, q + 1)
    }
}

/// The closing bracket of a CJK-bracket-CJK match starting at `i`.
pub open spec fn span_close(s: Seq<char>, i: int) -> Option<int> {
    if 0 <= i && i + 1 < s.len() && is_cjk_spec(s[i]) && is_open_spec(s[i + 1]) {
        bracket_close(s, run_end(Class::Open, s, i + 1))
    } else {
        None
    }
}

/// Where a match of `rule` that starts at `i` ends, if one starts there.
pub open spec fn match_end(rule: Rule, s: Seq<char>, i: int) -> Option<int> {
    match rule {
        Rule::FixQuote | Rule::FixBracket => {
            let br = rule == Rule::FixBracket;
            match fix_inner(br, s, i) {
                Some((p, q)) => Some(closer_end(br, s, run_end(Class::Space, s, q))),
                None => None,
            }
        },
        Rule::FixSingleQuote => if 0 <= i && i + 4 <= s.len() && is_cjk_spec(s[i]) && s[i + 1]
            == ' ' && s[i + 2] == '\'' && is_alpha_spec(s[i + 3]) {
            Some(i + 4)
        } else {
            None
        },
        Rule::CjkHash => if 0 <= i && i + 3 <= s.len() && is_cjk_spec(s[i]) && s[i + 1] == '#'
            && !is_space_spec(s[i + 2]) {
            Some(run_end(Class::NonSpace, s, i + 2))
        } else {
            None
        },
        Rule::HashCjk => match last_hash(s, i, run_end(Class::NonSpace, s, i) - 1) {
            Some(j) => Some(j + 2),
            None => None,
        },
        Rule::CjkBracketCjk => match span_close(s, i) {
            Some(q) => Some(run_end(Class::Close, s, q) + 1),
            None => None,
        },
        Rule::CjkOperatorAns | Rule::AnsOperatorCjk | Rule::FixSymbol => if 0 <= i && i + 3
            <= s.len() && triple_spec(rule, s[i], s[i + 1], s[i + 2]) {
            Some(i + 3)
        } else {
            None
        },
        _ => if 0 <= i && i + 2 <= s.len() && pair_spec(rule, s[i], s[i + 1]) {
            Some(i + 2)
        } else {
            None
        },
    }
}

/// What replaces the match of `rule` that starts at `i` and ends at `e`.
pub open spec fn replacement(rule: Rule, s: Seq<char>, i: int, e: int) -> Seq<char> {
    match rule {
        Rule::FixQuote | Rule::FixBracket => {
            let br = rule == Rule::FixBracket;
            let (p, q) = fix_inner(br, s, i)->0;
            let k = if p < opener_end(br, s, i) { p } else { opener_end(br, s, i) };
            s.subrange(i, k) + s.subrange(p, q) + s.subrange(run_end(Class::Space, s, q), e)
        },
        Rule::FixSingleQuote => seq![s[i], s[i + 2], s[i + 3]],
        Rule::CjkHash => seq![s[i], ' '] + s.subrange(i + 1, e),
        Rule::HashCjk => s.subrange(i, e - 1) + seq![' ', s[e - 1]],
        Rule::CjkBracketCjk => seq![s[i], ' '] + s.subrange(i + 1, e - 1) + seq![' ', s[e - 1]],
        Rule::CjkOperatorAns | Rule::AnsOperatorCjk => seq![s[i], ' ', s[i + 1], ' ', s[i + 2]],
        Rule::FixSymbol => seq![s[i], s[i + 1], ' ', s[i + 2]],
        _ => seq![s[i], ' ', s[i + 1]],
    }
}

/// Whether a match of `rule` starts at `i` (and ends within the text).
pub open spec fn matches_at(rule: Rule, s: Seq<char>, i: int) -> bool {
    match match_end(rule, s, i) {
        Some(e) => i < e <= s.len(),
        None => false,
    }
}

/// Where the scan goes on after position `i`.
pub open spec fn next_pos(rule: Rule, s: Seq<char>, i: int) -> int {
    if matches_at(rule, s, i) {
        match_end(rule, s, i)->0
    } else {
        i + 1
    }
}

/// What the scan writes for position `i`: the replacement of a match that starts there,
/// or the character itself.
pub open spec fn step_out(rule: Rule, s: Seq<char>, i: int) -> Seq<char> {
    if matches_at(rule, s, i) {
        replacement(rule, s, i, match_end(rule, s, i)->0)
    } else {
        seq![s[i]]
    }
}

/// The text from position `i` on, with every match of `rule` replaced, leftmost first.
pub open spec fn rewrite_from(rule: Rule, s: Seq<char>, i: int) -> Seq<char>
    decreases s.len() - i,
{
    if 0 <= i < s.len() {
        step_out(rule, s, i) + rewrite_from(rule, s, next_pos(rule, s, i))
    } else {
        Seq::empty()
    }
}

/// The text with every match of `rule` replaced, leftmost first.
pub open spec fn rewrite(rule: Rule, s: Seq<char>) -> Seq<char> {
    rewrite_from(rule, s, 0)
}

/// The bracket stage: spaces round a whole CJK-bracket-CJK span where there is one,
/// else a space on each side of single brackets next to CJK.
pub open spec fn bracket_stage(s: Seq<char>) -> Seq<char> {
    let t = rewrite(Rule::CjkBracketCjk, s);
    if t == s {
        rewrite(Rule::BracketCjk, rewrite(Rule::CjkBracket, s))
    } else {
        t
    }
}

/// Where no match starts in `[a, b)`, a pass copies that part as it is.
pub proof fn lemma_rewrite_skip(rule: Rule, s: Seq<char>, a: int, b: int)
    requires
        0 <= a <= b <= s.len(),
        forall|j: int| a <= j < b ==> !matches_at(rule, s, j),
    ensures
        rewrite_from(rule, s, a) == s.subrange(a, b) + rewrite_from(rule, s, b),
    decreases b - a,
{
    if a < b {
        lemma_rewrite_skip(rule, s, a + 1, b);
        assert(rewrite_from(rule, s, a) == seq![s[a]] + rewrite_from(rule, s, a + 1));
        assert(s.subrange(a, b) =~= seq![s[a]] + s.subrange(a + 1, b));
    } else {
        assert(s.subrange(a, b) =~= Seq::<char>::empty());
    }
}

/// A run ends within the text, and every character before its end belongs to it.
pub proof fn lemma_run_end_bounds(cls: Class, s: Seq<char>, j: int)
    requires
        0 <= j <= s.len(),
    ensures
        j <= run_end(cls, s, j) <= s.len(),
        forall|k: int| j <= k < run_end(cls, s, j) ==> in_class(cls, #[trigger] s[k]),
    decreases s.len() - j,
{
    if j < s.len() && in_class(cls, s[j]) {
        lemma_run_end_bounds(cls, s, j + 1);
    }
}

/// A run seen from a later point of it ends where it ends.
pub proof fn lemma_run_end_inside(cls: Class, s: Seq<char>, j: int, k: int)
    requires
        0 <= j <= k <= run_end(cls, s, j),
    ensures
        run_end(cls, s, k) == run_end(cls, s, j),
    decreases k - j,
{
    if j < k {
        assert(j < s.len() && in_class(cls, s[j]));
        lemma_run_end_inside(cls, s, j + 1, k);
    }
}

/// A run stops at the first character outside it.
pub proof fn lemma_run_end_before(cls: Class, s: Seq<char>, j: int, t: int)
    requires
        0 <= j <= t <= s.len(),
        t < s.len() ==> !in_class(cls, s[t]),
    ensures
        run_end(cls, s, j) <= t,
    decreases t - j,
{
    if j < t {
        lemma_run_end_before(cls, s, j + 1, t);
    }
}

/// The whole pipeline.
pub open spec fn spaced(s: Seq<char>) -> Seq<char> {
    let t1 = rewrite(Rule::CjkQuote, s);
    let t2 = rewrite(Rule::QuoteCjk, t1);
    let t3 = rewrite(Rule::FixQuote, t2);
    let t4 = rewrite(Rule::FixSingleQuote, t3);
    let t5 = rewrite(Rule::CjkHash, t4);
    let t6 = rewrite(Rule::HashCjk, t5);
    let t7 = rewrite(Rule::CjkOperatorAns, t6);
    let t8 = rewrite(Rule::AnsOperatorCjk, t7);
    let t9 = bracket_stage(t8);
    let t10 = rewrite(Rule::FixBracket, t9);
    let t11 = rewrite(Rule::FixSymbol, t10);
    let t12 = rewrite(Rule::CjkAns, t11);
    rewrite(Rule::AnsCjk, t12)
}

} // verus!
