//! Executable scanners for the rules of the model, one per kind of rule.
use vstd::prelude::*;
use crate::classes::{
    is_alnum, is_alpha, is_ans, is_cjk, is_cjk_spec, is_close, is_open, is_open_spec,
    is_operator, is_quote, is_quote_close, is_quote_open, is_space, is_symbol,
};
use crate::model::{
    bracket_close, closes_at, find_close, fix_inner, in_class, last_hash, lemma_rewrite_skip,
    lemma_run_end_before, lemma_run_end_bounds, lemma_run_end_inside, matches_at,
    next_pos, opener_end, opens_at, pair_spec, pick_inner, rewrite, rewrite_from, run_end,
    step_out, triple_spec, Class, Rule,
};

verus! {

fn in_class_exec(cls: Class, c: char) -> (r: bool)
    ensures
        r == in_class(cls, c),
{
    match cls {
        Class::Space => is_space(c),
        Class::NonSpace => !is_space(c),
        Class::Open => is_open(c),
        Class::Close => is_close(c),
    }
}

/// The end of the longest run of `cls` characters from `j`.
pub fn run_end_exec(cls: Class, v: &Vec<char>, j: usize) -> (r: usize)
    requires
        j <= v.len(),
    ensures
        r as int == run_end(cls, v@, j as int),
        j <= r <= v.len(),
{
    let mut k = j;
    while k < v.len() && in_class_exec(cls, v[k])
        invariant
            j <= k <= v.len(),
            run_end(cls, v@, k as int) == run_end(cls, v@, j as int),
        decreases v.len() - k,
    {
        k = k + 1;
    }
    k
}

/// Appends `v[a..b]` to `out`.
fn push_range(out: &mut Vec<char>, v: &Vec<char>, a: usize, b: usize)
    requires
        a <= b <= v.len(),
    ensures
        final(out)@ == old(out)@ + v@.subrange(a as int, b as int),
{
    let mut k = a;
    while k < b
        invariant
            a <= k <= b,
            b <= v.len(),
            out@ == old(out)@ + v@.subrange(a as int, k as int),
        decreases b - k,
    {
        out.push(v[k]);
        k = k + 1;
        assert(out@ =~= old(out)@ + v@.subrange(a as int, k as int));
    }
    assert(out@ =~= old(out)@ + v@.subrange(a as int, b as int));
}

fn pair_exec(rule: Rule, a: char, b: char) -> (r: bool)
    ensures
        r == pair_spec(rule, a, b),
{
    match rule {
        Rule::CjkQuote => is_cjk(a) && is_quote(b),
        Rule::QuoteCjk => is_quote(a) && is_cjk(b),
        Rule::CjkBracket => is_cjk(a) && (is_open(b) || b == '>'),
        Rule::BracketCjk => (is_close(a) || a == '<') && is_cjk(b),
        Rule::CjkAns => is_cjk(a) && (is_ans(b) || b == '@'),
        Rule::AnsCjk => (is_ans(a) || is_symbol(a)) && is_cjk(b),
        _ => false,
    }
}

fn triple_exec(rule: Rule, a: char, b: char, c: char) -> (r: bool)
    ensures
        r == triple_spec(rule, a, b, c),
{
    match rule {
        Rule::CjkOperatorAns => is_cjk(a) && is_operator(b) && is_alnum(c),
        Rule::AnsOperatorCjk => is_alnum(a) && is_operator(b) && is_cjk(c),
        Rule::FixSymbol => is_cjk(a) && is_symbol(b) && is_alnum(c),
        _ => false,
    }
}

fn last_hash_exec(v: &Vec<char>, i: usize, j0: usize) -> (r: Option<usize>)
    requires
        j0 < v.len(),
    ensures
        r matches Some(j) ==> last_hash(v@, i as int, j0 as int) == Some(j as int) && i < j
            && j + 1 < v.len(),
        r is None ==> last_hash(v@, i as int, j0 as int) is None,
{
    let mut j = j0;
    loop
        invariant
            j <= j0 < v.len(),
            last_hash(v@, i as int, j as int) == last_hash(v@, i as int, j0 as int),
        decreases j,
    {
        if j <= i {
            return None;
        }
        if j + 1 < v.len() && v[j] == '#' && is_cjk(v[j + 1]) {
            return Some(j);
        }
        j = j - 1;
    }
}

fn bracket_close_exec(v: &Vec<char>, q0: usize) -> (r: Result<usize, usize>)
    requires
        q0 <= v.len(),
    ensures
        r matches Ok(q) ==> bracket_close(v@, q0 as int) == Some(q as int) && q0 <= q
            < run_end(Class::Close, v@, q as int) < v.len(),
        r matches Err(t) ==> q0 <= t <= v.len() && (t < v.len() ==> v@[t as int] == '\n') && (
        forall|k: int| q0 <= k <= t ==> #[trigger] bracket_close(v@, k) is None),
{
    let mut q = q0;
    while q < v.len()
        invariant
            q0 <= q <= v.len(),
            bracket_close(v@, q as int) == bracket_close(v@, q0 as int),
            forall|k: int| q0 <= k <= q ==> #[trigger] bracket_close(v@, k) == bracket_close(
                v@,
                q0 as int,
            ),
        decreases v.len() - q,
    {
        if is_close(v[q]) {
            let c = run_end_exec(Class::Close, v, q + 1);
            if c < v.len() && is_cjk(v[c]) {
                return Ok(q);
            }
        }
        if v[q] == '\n' {
            return Err(q);
        }
        q = q + 1;
        assert(bracket_close(v@, q as int) == bracket_close(v@, q0 as int));
    }
    Err(q)
}

/// One step of the hashtag-then-CJK rule at `i`. Where no match starts at `i`, none starts
/// anywhere in the non-blank run from `i` either, and the step goes past that run.
fn hash_step(v: &Vec<char>, i: usize, out: &mut Vec<char>) -> (next: usize)
    requires
        i < v.len(),
    ensures
        i < next <= v.len(),
        final(out)@ + rewrite_from(Rule::HashCjk, v@, next as int) == old(out)@ + rewrite_from(
            Rule::HashCjk,
            v@,
            i as int,
        ),
{
    let ghost s = v@;
    let r = run_end_exec(Class::NonSpace, v, i);
    if r > i + 1 {
        match last_hash_exec(v, i, r - 1) {
            Some(j) => {
                push_range(out, v, i, j + 1);
                out.push(' ');
                out.push(v[j + 1]);
                proof {
                    let rule = Rule::HashCjk;
                    assert(rewrite_from(rule, s, i as int) == step_out(rule, s, i as int)
                        + rewrite_from(rule, s, j + 2));
                    assert(final(out)@ + rewrite_from(rule, s, j + 2) =~= old(out)@ + rewrite_from(
                        rule,
                        s,
                        i as int,
                    ));
                }
                return j + 2;
            },
            None => {},
        }
    }
    let stop = if r > i {
        r
    } else {
        i + 1
    };
    push_range(out, v, i, stop);
    proof {
        let rule = Rule::HashCjk;
        assert forall|k: int| i <= k < stop implies !matches_at(rule, s, k) by {
            if r > i {
                lemma_run_end_inside(Class::NonSpace, s, i as int, k);
                if r > i + 1 {
                    lemma_last_hash_later(s, i as int, k, r - 1);
                }
            }
        }
        lemma_rewrite_skip(rule, s, i as int, stop as int);
        assert(final(out)@ + rewrite_from(rule, s, stop as int) =~= old(out)@ + rewrite_from(
            rule,
            s,
            i as int,
        ));
    }
    stop
}

proof fn lemma_last_hash_later(s: Seq<char>, i: int, i2: int, j: int)
    requires
        i <= i2,
        last_hash(s, i, j) is None,
    ensures
        last_hash(s, i2, j) is None,
    decreases j - i,
{
    if j > i2 {
        lemma_last_hash_later(s, i, i2, j - 1);
    }
}

/// One step of the CJK-bracket-CJK rule at `i`. Where a bracket opened after CJK at `i`
/// finds no closer before the end of its line, no match starts before that end either,
/// and the step goes there.
fn span_step(v: &Vec<char>, i: usize, out: &mut Vec<char>) -> (next: usize)
    requires
        i < v.len(),
    ensures
        i < next <= v.len(),
        final(out)@ + rewrite_from(Rule::CjkBracketCjk, v@, next as int) == old(out)@
            + rewrite_from(Rule::CjkBracketCjk, v@, i as int),
{
    let ghost s = v@;
    let rule = Rule::CjkBracketCjk;
    let n = v.len();
    if n - i >= 2 && is_cjk(v[i]) && is_open(v[i + 1]) {
        let m = run_end_exec(Class::Open, v, i + 2);
        match bracket_close_exec(v, m) {
            Ok(q) => {
                let c = run_end_exec(Class::Close, v, q + 1);
                out.push(v[i]);
                out.push(' ');
                push_range(out, v, i + 1, c);
                out.push(' ');
                out.push(v[c]);
                proof {
                    assert(rewrite_from(rule, s, i as int) == step_out(rule, s, i as int)
                        + rewrite_from(rule, s, c + 1));
                    assert(final(out)@ + rewrite_from(rule, s, c + 1) =~= old(out)@ + rewrite_from(
                        rule,
                        s,
                        i as int,
                    ));
                }
                return c + 1;
            },
            Err(t) => {
                push_range(out, v, i, t);
                proof {
                    lemma_run_end_bounds(Class::Open, s, i + 1);
                    assert forall|k: int| i <= k < t implies !matches_at(rule, s, k) by {
                        if k > i && k + 1 < s.len() && is_cjk_spec(s[k]) && is_open_spec(s[k + 1]) {
                            assert(k >= m);
                            lemma_run_end_bounds(Class::Open, s, k + 1);
                            lemma_run_end_before(Class::Open, s, k + 1, t as int);
                            assert(bracket_close(s, run_end(Class::Open, s, k + 1)) is None);
                        }
                    }
                    lemma_rewrite_skip(rule, s, i as int, t as int);
                    assert(final(out)@ + rewrite_from(rule, s, t as int) =~= old(out)@
                        + rewrite_from(rule, s, i as int));
                }
                return t;
            },
        }
    }
    out.push(v[i]);
    proof {
        assert(rewrite_from(rule, s, i as int) == seq![s[i as int]] + rewrite_from(
            rule,
            s,
            i + 1,
        ));
        assert(final(out)@ + rewrite_from(rule, s, i + 1) =~= old(out)@ + rewrite_from(
            rule,
            s,
            i as int,
        ));
    }
    i + 1
}

/// One step of `rule` from position `i`: writes what the pass makes of the text from `i`
/// up to the position it returns.
fn step(rule: Rule, v: &Vec<char>, i: usize, out: &mut Vec<char>) -> (next: usize)
    requires
        i < v.len(),
        rule != Rule::FixQuote,
        rule != Rule::FixBracket,
    ensures
        i < next <= v.len(),
        final(out)@ + rewrite_from(rule, v@, next as int) == old(out)@ + rewrite_from(
            rule,
            v@,
            i as int,
        ),
{
    match rule {
        Rule::HashCjk => hash_step(v, i, out),
        Rule::CjkBracketCjk => span_step(v, i, out),
        _ => {
            let ghost before = out@;
            let next = step_one(rule, v, i, out);
            proof {
                let s = v@;
                assert(rewrite_from(rule, s, i as int) == step_out(rule, s, i as int)
                    + rewrite_from(rule, s, next as int));
                assert(out@ + rewrite_from(rule, s, next as int) =~= before + rewrite_from(
                    rule,
                    s,
                    i as int,
                ));
            }
            next
        },
    }
}

/// One step of `rule` at position `i`: writes the replacement of a match that starts
/// there, or the character itself, and says where the scan goes on.
fn step_one(rule: Rule, v: &Vec<char>, i: usize, out: &mut Vec<char>) -> (next: usize)
    requires
        i < v.len(),
        rule != Rule::HashCjk,
        rule != Rule::CjkBracketCjk,
        rule != Rule::FixQuote,
        rule != Rule::FixBracket,
    ensures
        final(out)@ == old(out)@ + step_out(rule, v@, i as int),
        next == next_pos(rule, v@, i as int),
{
    let n = v.len();
    match rule {
        Rule::FixSingleQuote => {
            if n - i >= 4 && is_cjk(v[i]) && v[i + 1] == ' ' && v[i + 2] == '\'' && is_alpha(
                v[i + 3],
            ) {
                out.push(v[i]);
                out.push(v[i + 2]);
                out.push(v[i + 3]);
                return i + 4;
            }
        },
        Rule::CjkHash => {
            if n - i >= 3 && is_cjk(v[i]) && v[i + 1] == '#' && !is_space(v[i + 2]) {
                let e = run_end_exec(Class::NonSpace, v, i + 3);
                out.push(v[i]);
                out.push(' ');
                push_range(out, v, i + 1, e);
                return e;
            }
        },
        Rule::CjkOperatorAns | Rule::AnsOperatorCjk => {
            if n - i >= 3 && triple_exec(rule, v[i], v[i + 1], v[i + 2]) {
                out.push(v[i]);
                out.push(' ');
                out.push(v[i + 1]);
                out.push(' ');
                out.push(v[i + 2]);
                return i + 3;
            }
        },
        Rule::FixSymbol => {
            if n - i >= 3 && triple_exec(rule, v[i], v[i + 1], v[i + 2]) {
                out.push(v[i]);
                out.push(v[i + 1]);
                out.push(' ');
                out.push(v[i + 2]);
                return i + 3;
            }
        },
        _ => {
            if n - i >= 2 && pair_exec(rule, v[i], v[i + 1]) {
                out.push(v[i]);
                out.push(' ');
                out.push(v[i + 1]);
                return i + 2;
            }
        },
    }
    out.push(v[i]);
    i + 1
}

/// Rewrites every match of `rule` in `v`, leftmost first, without overlaps.
pub fn rewrite_exec(rule: Rule, v: &Vec<char>) -> (r: Vec<char>)
    ensures
        r@ == rewrite(rule, v@),
{
    match rule {
        Rule::FixQuote => {
            return rewrite_fix(false, v);
        },
        Rule::FixBracket => {
            return rewrite_fix(true, v);
        },
        _ => {},
    }
    let mut out: Vec<char> = Vec::new();
    let mut i: usize = 0;
    while i < v.len()
        invariant
            i <= v.len(),
            rule != Rule::FixQuote,
            rule != Rule::FixBracket,
            out@ + rewrite_from(rule, v@, i as int) == rewrite(rule, v@),
        decreases v.len() - i,
    {
        let next = step(rule, v, i, &mut out);
        i = next;
    }
    assert(out@ =~= out@ + rewrite_from(rule, v@, i as int));
    out
}

/// What a padded-span rule's table holds for `x`: 0 where `find_close` from `x` finds
/// nothing, else the position it finds.
pub open spec fn close_entry(bracket: bool, s: Seq<char>, x: int, e: usize) -> bool {
    &&& e == 0 ==> find_close(bracket, s, x) is None
    &&& e != 0 ==> find_close(bracket, s, x) == Some(e as int) && x <= e <= s.len() && closes_at(
        bracket,
        s,
        e as int,
    )
}

/// For each position, where the whitespace run from it ends.
fn space_table(v: &Vec<char>) -> (t: Vec<usize>)
    ensures
        t.len() == v.len(),
        forall|x: int| 0 <= x < v.len() ==> #[trigger] t@[x] as int == run_end(Class::Space, v@, x),
{
    let n = v.len();
    let mut t: Vec<usize> = vec![0; n];
    let mut x = n;
    while x > 0
        invariant
            x <= n == v.len(),
            t.len() == n,
            forall|y: int| x <= y < n ==> #[trigger] t@[y] as int == run_end(Class::Space, v@, y),
        decreases x,
    {
        x = x - 1;
        let e = if is_space(v[x]) {
            if x + 1 < n {
                t[x + 1]
            } else {
                assert(run_end(Class::Space, v@, n as int) == n);
                n
            }
        } else {
            x
        };
        assert(e as int == run_end(Class::Space, v@, x as int));
        t[x] = e;
        assert(forall|y: int| x <= y < n ==> #[trigger] t@[y] as int == run_end(Class::Space, v@, y));
    }
    t
}

/// For each `x` in `1..=v.len()`, at index `x - 1`, what `find_close` finds from `x`.
fn close_table(bracket: bool, v: &Vec<char>, se: &Vec<usize>) -> (t: Vec<usize>)
    requires
        se.len() == v.len(),
        forall|x: int| 0 <= x < v.len() ==> #[trigger] se@[x] as int == run_end(Class::Space, v@, x),
    ensures
        t.len() == v.len(),
        forall|k: int| 0 <= k < v.len() ==> close_entry(bracket, v@, k + 1, #[trigger] t@[k]),
{
    let n = v.len();
    let mut t: Vec<usize> = vec![0; n];
    let mut k = n;
    while k > 0
        invariant
            k <= n == v.len(),
            t.len() == n,
            se.len() == n,
            forall|x: int| 0 <= x < n ==> #[trigger] se@[x] as int == run_end(Class::Space, v@, x),
            forall|j: int| k <= j < n ==> close_entry(bracket, v@, j + 1, #[trigger] t@[j]),
        decreases k,
    {
        k = k - 1;
        let x = k + 1;
        let q2 = if x < n {
            se[x]
        } else {
            n
        };
        let closes = q2 < n && if bracket {
            is_close(v[q2])
        } else {
            is_quote_close(v[q2])
        };
        let e = if v[k] == '\n' {
            0
        } else if closes {
            x
        } else if x < n {
            t[x]
        } else {
            0
        };
        proof {
            assert(closes == closes_at(bracket, v@, x as int));
            if x == n {
                assert(find_close(bracket, v@, x + 1) is None);
            } else {
                assert(close_entry(bracket, v@, x + 1, t@[x as int]));
            }
        }
        t[k] = e;
    }
    t
}

/// Searches the inner span of a padded span from `p0` down to `lo`, by the table.
fn pick_inner_by(bracket: bool, v: &Vec<char>, fc: &Vec<usize>, lo: usize, p0: usize) -> (r:
    Option<(usize, usize)>)
    requires
        1 <= lo,
        p0 <= v.len(),
        fc.len() == v.len(),
        forall|k: int| 0 <= k < v.len() ==> close_entry(bracket, v@, k + 1, #[trigger] fc@[k]),
    ensures
        r matches Some((p, q)) ==> pick_inner(bracket, v@, lo as int, p0 as int) == Some(
            (p as int, q as int),
        ) && lo <= p < q <= v.len() && closes_at(bracket, v@, q as int),
        r is None ==> pick_inner(bracket, v@, lo as int, p0 as int) is None,
{
    let mut p = p0;
    loop
        invariant
            1 <= lo,
            p <= p0 <= v.len(),
            fc.len() == v.len(),
            forall|k: int| 0 <= k < v.len() ==> close_entry(bracket, v@, k + 1, #[trigger] fc@[k]),
            pick_inner(bracket, v@, lo as int, p as int) == pick_inner(
                bracket,
                v@,
                lo as int,
                p0 as int,
            ),
        decreases p,
    {
        if p < lo {
            return None;
        }
        if p < v.len() {
            let q = fc[p];
            assert(close_entry(bracket, v@, p + 1, fc@[p as int]));
            if q != 0 {
                return Some((p, q));
            }
        } else {
            assert(find_close(bracket, v@, p + 1) is None);
        }
        p = p - 1;
    }
}

proof fn lemma_pick_inner_later(bracket: bool, s: Seq<char>, lo: int, lo2: int, p: int)
    requires
        lo <= lo2,
        pick_inner(bracket, s, lo, p) is None,
    ensures
        pick_inner(bracket, s, lo2, p) is None,
    decreases p - lo + 1,
{
    if p >= lo2 {
        lemma_pick_inner_later(bracket, s, lo, lo2, p - 1);
    }
}

/// A padded span found at `i` is what the pass writes there.
proof fn lemma_fix_match(bracket: bool, s: Seq<char>, i: int, p: int, q: int)
    requires
        0 <= i < s.len(),
        fix_inner(bracket, s, i) == Some((p, q)),
        i + 1 <= p < q <= s.len(),
        closes_at(bracket, s, q),
    ensures
        ({
            let rule = if bracket {
                Rule::FixBracket
            } else {
                Rule::FixQuote
            };
            let q2 = run_end(Class::Space, s, q);
            let e = if bracket {
                run_end(Class::Close, s, q2 + 1)
            } else {
                q2 + 1
            };
            let m = opener_end(bracket, s, i);
            let k = if p < m {
                p
            } else {
                m
            };
            &&& q <= q2 < e <= s.len()
            &&& i <= k <= p
            &&& rewrite_from(rule, s, i) == s.subrange(i, k) + s.subrange(p, q) + s.subrange(q2, e)
                + rewrite_from(rule, s, e)
        }),
{
    let rule = if bracket {
        Rule::FixBracket
    } else {
        Rule::FixQuote
    };
    let q2 = run_end(Class::Space, s, q);
    lemma_run_end_bounds(Class::Space, s, q);
    if bracket {
        assert(run_end(Class::Close, s, q2) == run_end(Class::Close, s, q2 + 1));
        lemma_run_end_bounds(Class::Close, s, q2 + 1);
        assert(run_end(Class::Open, s, i) == run_end(Class::Open, s, i + 1));
        lemma_run_end_bounds(Class::Open, s, i + 1);
    }
    assert(matches_at(rule, s, i));
}

/// Where no padded span starts at `i`, none starts before the end of its opening run.
proof fn lemma_fix_skip(bracket: bool, s: Seq<char>, i: int)
    requires
        0 <= i < s.len(),
        opens_at(bracket, s, i),
        fix_inner(bracket, s, i) is None,
    ensures
        ({
            let rule = if bracket {
                Rule::FixBracket
            } else {
                Rule::FixQuote
            };
            let m = opener_end(bracket, s, i);
            &&& i < m <= s.len()
            &&& rewrite_from(rule, s, i) == s.subrange(i, m) + rewrite_from(rule, s, m)
        }),
{
    let rule = if bracket {
        Rule::FixBracket
    } else {
        Rule::FixQuote
    };
    let m = opener_end(bracket, s, i);
    if bracket {
        assert(run_end(Class::Open, s, i) == run_end(Class::Open, s, i + 1));
        lemma_run_end_bounds(Class::Open, s, i + 1);
    }
    let w = run_end(Class::Space, s, m);
    assert forall|j: int| i <= j < m implies !matches_at(rule, s, j) by {
        if j > i {
            lemma_run_end_inside(Class::Open, s, i, j);
            lemma_pick_inner_later(bracket, s, i + 1, j + 1, w);
            assert(opens_at(bracket, s, j));
            assert(fix_inner(bracket, s, j) is None);
        }
    }
    lemma_rewrite_skip(rule, s, i, m);
}

/// One step of a padded-span rule from `i`. Where no span starts at an opening bracket,
/// none starts at the brackets that follow it in the same run either.
fn fix_step(
    bracket: bool,
    v: &Vec<char>,
    se: &Vec<usize>,
    fc: &Vec<usize>,
    i: usize,
    out: &mut Vec<char>,
) -> (next: usize)
    requires
        i < v.len(),
        se.len() == v.len(),
        forall|x: int| 0 <= x < v.len() ==> #[trigger] se@[x] as int == run_end(Class::Space, v@, x),
        fc.len() == v.len(),
        forall|k: int| 0 <= k < v.len() ==> close_entry(bracket, v@, k + 1, #[trigger] fc@[k]),
    ensures
        ({
            let rule = if bracket {
                Rule::FixBracket
            } else {
                Rule::FixQuote
            };
            &&& i < next <= v.len()
            &&& final(out)@ + rewrite_from(rule, v@, next as int) == old(out)@ + rewrite_from(
                rule,
                v@,
                i as int,
            )
        }),
{
    let ghost s = v@;
    let ghost rule = if bracket {
        Rule::FixBracket
    } else {
        Rule::FixQuote
    };
    let n = v.len();
    let opens = if bracket {
        is_open(v[i])
    } else {
        is_quote_open(v[i])
    };
    if opens {
        let m = if bracket {
            run_end_exec(Class::Open, v, i + 1)
        } else {
            i + 1
        };
        proof {
            if bracket {
                assert(run_end(Class::Open, s, i as int) == run_end(Class::Open, s, i + 1));
            }
            assert(m as int == opener_end(bracket, s, i as int));
            assert(run_end(Class::Space, s, n as int) == n);
            lemma_run_end_bounds(Class::Space, s, m as int);
        }
        let w = if m < n {
            se[m]
        } else {
            n
        };
        match pick_inner_by(bracket, v, fc, i + 1, w) {
            Some((p, q)) => {
                proof {
                    lemma_fix_match(bracket, s, i as int, p as int, q as int);
                }
                let q2 = if q < n {
                    se[q]
                } else {
                    n
                };
                let e = if bracket {
                    run_end_exec(Class::Close, v, q2 + 1)
                } else {
                    q2 + 1
                };
                let k = if p < m {
                    p
                } else {
                    m
                };
                push_range(out, v, i, k);
                push_range(out, v, p, q);
                push_range(out, v, q2, e);
                proof {
                    assert(final(out)@ + rewrite_from(rule, s, e as int) =~= old(out)@
                        + rewrite_from(rule, s, i as int));
                }
                return e;
            },
            None => {
                proof {
                    lemma_fix_skip(bracket, s, i as int);
                }
                push_range(out, v, i, m);
                proof {
                    assert(final(out)@ + rewrite_from(rule, s, m as int) =~= old(out)@
                        + rewrite_from(rule, s, i as int));
                }
                return m;
            },
        }
    }
    out.push(v[i]);
    proof {
        assert(fix_inner(bracket, s, i as int) is None);
        assert(rewrite_from(rule, s, i as int) == seq![s[i as int]] + rewrite_from(
            rule,
            s,
            i + 1,
        ));
        assert(final(out)@ + rewrite_from(rule, s, i + 1) =~= old(out)@ + rewrite_from(
            rule,
            s,
            i as int,
        ));
    }
    i + 1
}

/// A pass of a padded-span rule, with its tables built once.
fn rewrite_fix(bracket: bool, v: &Vec<char>) -> (r: Vec<char>)
    ensures
        r@ == rewrite(
            if bracket {
                Rule::FixBracket
            } else {
                Rule::FixQuote
            },
            v@,
        ),
{
    let ghost rule = if bracket {
        Rule::FixBracket
    } else {
        Rule::FixQuote
    };
    let se = space_table(v);
    let fc = close_table(bracket, v, &se);
    let mut out: Vec<char> = Vec::new();
    let mut i: usize = 0;
    while i < v.len()
        invariant
            i <= v.len(),
            rule == (if bracket {
                Rule::FixBracket
            } else {
                Rule::FixQuote
            }),
            se.len() == v.len(),
            forall|x: int| 0 <= x < v.len() ==> #[trigger] se@[x] as int == run_end(
                Class::Space,
                v@,
                x,
            ),
            fc.len() == v.len(),
            forall|k: int| 0 <= k < v.len() ==> close_entry(bracket, v@, k + 1, #[trigger] fc@[k]),
            out@ + rewrite_from(rule, v@, i as int) == rewrite(rule, v@),
        decreases v.len() - i,
    {
        let next = fix_step(bracket, v, &se, &fc, i, &mut out);
        i = next;
    }
    assert(out@ =~= out@ + rewrite_from(rule, v@, i as int));
    out
}

} // verus!
