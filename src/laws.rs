//! Laws of the spacing pipeline, proved over the model.
use vstd::prelude::*;
use crate::classes::{
    is_alnum_spec, is_ans_spec, is_cjk_spec, is_operator_spec, is_quote_close_spec,
    is_quote_open_spec, is_symbol_spec,
};
use crate::model::{
    last_hash, lemma_rewrite_skip, match_end, matches_at, next_pos, pair_spec, rewrite, rewrite_from, run_end, spaced,
    step_out, triple_spec, Class, Rule,
};

verus! {

/// Every character of `s` is CJK, or every character of `s` is half-width.
pub open spec fn single_class(s: Seq<char>) -> bool {
    (forall|k: int| 0 <= k < s.len() ==> is_cjk_spec(#[trigger] s[k])) || (forall|k: int|
        0 <= k < s.len() ==> is_ans_spec(#[trigger] s[k]))
}

/// A pass that matches nowhere leaves the text as it is.
proof fn lemma_no_match_unchanged(rule: Rule, s: Seq<char>)
    requires
        forall|j: int| 0 <= j < s.len() ==> !matches_at(rule, s, j),
    ensures
        rewrite(rule, s) == s,
{
    lemma_rewrite_skip(rule, s, 0, s.len() as int);
    assert(rewrite_from(rule, s, s.len() as int) =~= Seq::<char>::empty());
    assert(s.subrange(0, s.len() as int) + Seq::<char>::empty() =~= s);
}

proof fn lemma_last_hash_none(s: Seq<char>, i: int, j: int)
    requires
        forall|k: int| 0 <= k < s.len() ==> s[k] != '#',
    ensures
        last_hash(s, i, j) is None,
    decreases j - i,
{
    if j > i {
        lemma_last_hash_none(s, i, j - 1);
    }
}

proof fn lemma_single_class_no_match(rule: Rule, s: Seq<char>, i: int)
    requires
        single_class(s),
        0 <= i < s.len(),
    ensures
        !matches_at(rule, s, i),
{
    assert forall|k: int| 0 <= k < s.len() implies s[k] != '#' by {
        if (forall|k: int| 0 <= k < s.len() ==> is_cjk_spec(#[trigger] s[k])) {
            assert(is_cjk_spec(s[k]));
        } else {
            assert(is_ans_spec(s[k]));
        }
    }
    lemma_last_hash_none(s, i, run_end(Class::NonSpace, s, i) - 1);
    if i + 1 < s.len() {
        assert(is_cjk_spec(s[i + 1]) || is_ans_spec(s[i + 1]));
        assert(is_cjk_spec(s[i]) == is_cjk_spec(s[i + 1]));
    }
    if i + 2 < s.len() {
        assert(is_cjk_spec(s[i + 2]) == is_cjk_spec(s[i + 1]));
    }
    assert(is_cjk_spec(s[i]) || is_ans_spec(s[i]));
    assert(match_end(rule, s, i) is None);
}

/// Text made of one class alone (only CJK, or only half-width characters) has no
/// boundary to space, and the pipeline returns it unchanged.
pub proof fn lemma_single_class_unchanged(s: Seq<char>)
    requires
        single_class(s),
    ensures
        spaced(s) == s,
{
    assert forall|rule: Rule| rewrite(rule, s) == s by {
        assert forall|j: int| 0 <= j < s.len() implies !matches_at(rule, s, j) by {
            lemma_single_class_no_match(rule, s, j);
        }
        lemma_no_match_unchanged(rule, s);
    }
}

/// A character that no rule but punctuation spacing and the two general CJK / half-width
/// boundary rules reacts to: CJK, an ASCII letter or digit, or anything that is neither
/// half-width nor a quote, bracket, operator, `#` or `@`.
pub open spec fn plain_char(c: char) -> bool {
    is_cjk_spec(c) || is_alnum_spec(c) || !(is_ans_spec(c) || is_quote_open_spec(c)
        || is_quote_close_spec(c) || is_operator_spec(c) || c == '#' || c == '@')
}

/// Every character of `s` is plain.
pub open spec fn plain(s: Seq<char>) -> bool {
    forall|k: int| 0 <= k < s.len() ==> plain_char(#[trigger] s[k])
}

/// No two neighbours in `s` form a match of the two-character rule `rule`.
pub open spec fn no_pair(rule: Rule, s: Seq<char>) -> bool {
    forall|k: int| 0 <= k < s.len() - 1 ==> !#[trigger] pair_spec(rule, s[k], s[k + 1])
}

/// No three neighbours in `s` are CJK, punctuation, and a letter or digit.
pub open spec fn no_symbol_gap(s: Seq<char>) -> bool {
    forall|k: int|
        0 <= k < s.len() - 2 ==> !#[trigger] triple_spec(Rule::FixSymbol, s[k], s[k + 1], s[k + 2])
}

/// The punctuation pass keeps text plain and leaves no punctuation between CJK and a
/// letter or digit without a space after it.
proof fn lemma_symbol_pass(s: Seq<char>, i: int)
    requires
        plain(s),
        0 <= i <= s.len(),
    ensures
        plain(rewrite_from(Rule::FixSymbol, s, i)),
        no_symbol_gap(rewrite_from(Rule::FixSymbol, s, i)),
        i < s.len() ==> rewrite_from(Rule::FixSymbol, s, i).len() > 0 && rewrite_from(
            Rule::FixSymbol,
            s,
            i,
        )[0] == s[i],
        i + 1 < s.len() ==> rewrite_from(Rule::FixSymbol, s, i).len() > 1 && rewrite_from(
            Rule::FixSymbol,
            s,
            i,
        )[1] == s[i + 1],
        i + 1 == s.len() ==> rewrite_from(Rule::FixSymbol, s, i).len() == 1,
    decreases s.len() - i,
{
    let r = Rule::FixSymbol;
    if i < s.len() {
        let out = rewrite_from(r, s, i);
        let n = next_pos(r, s, i);
        let st = step_out(r, s, i);
        let rest = rewrite_from(r, s, n);
        assert(out == st + rest);
        lemma_symbol_pass(s, n);
        if matches_at(r, s, i) {
            assert(n == i + 3);
            assert(st == seq![s[i], s[i + 1], ' ', s[i + 2]]);
        } else {
            assert(n == i + 1);
            assert(st == seq![s[i]]);
            if i + 2 < s.len() {
                assert(!triple_spec(r, s[i], s[i + 1], s[i + 2]));
            }
        }
        assert forall|k: int| 0 <= k < out.len() implies plain_char(#[trigger] out[k]) by {
            if k >= st.len() {
                assert(out[k] == rest[k - st.len()]);
            }
        }
        assert forall|k: int| 0 <= k < out.len() - 2 implies !#[trigger] triple_spec(
            r,
            out[k],
            out[k + 1],
            out[k + 2],
        ) by {
            let l = st.len() as int;
            if k >= l {
                assert(out[k] == rest[k - l]);
                assert(out[k + 1] == rest[k - l + 1]);
                assert(out[k + 2] == rest[k - l + 2]);
                assert(!triple_spec(r, rest[k - l], rest[k - l + 1], rest[k - l + 2]));
            } else if l == 1 {
                assert(rest.len() >= 2);
                assert(n + 1 < s.len());
                assert(out[k + 1] == s[i + 1]);
                assert(out[k + 2] == s[i + 2]);
            } else if k == 0 {
                assert(out[k + 2] == ' ');
            } else if k == 1 {
                assert(out[k + 1] == ' ');
            } else if k == 2 {
                assert(out[k] == ' ');
            } else {
                assert(out[k] == s[i + 2]);
            }
        }
    }
}

/// A pass of one boundary rule keeps text plain, leaves no match of its own, and keeps
/// out of its result the matches of the other boundary rule that the text did not have.
proof fn lemma_boundary_pass(r: Rule, q: Rule, s: Seq<char>, i: int)
    requires
        r == Rule::CjkAns || r == Rule::AnsCjk,
        q == Rule::CjkAns || q == Rule::AnsCjk,
        plain(s),
        0 <= i <= s.len(),
        forall|j: int|
            i <= j < s.len() - 1 && !pair_spec(r, s[j], s[j + 1]) ==> !#[trigger] pair_spec(
                q,
                s[j],
                s[j + 1],
            ),
        forall|j: int|
            i <= j < s.len() - 2 ==> !#[trigger] triple_spec(
                Rule::FixSymbol,
                s[j],
                s[j + 1],
                s[j + 2],
            ),
    ensures
        plain(rewrite_from(r, s, i)),
        no_pair(q, rewrite_from(r, s, i)),
        no_symbol_gap(rewrite_from(r, s, i)),
        i < s.len() ==> rewrite_from(r, s, i).len() > 0 && rewrite_from(r, s, i)[0] == s[i],
        i + 1 < s.len() ==> rewrite_from(r, s, i).len() > 1 && (rewrite_from(r, s, i)[1] == s[i
            + 1] || rewrite_from(r, s, i)[1] == ' '),
        i + 1 == s.len() ==> rewrite_from(r, s, i).len() == 1,
    decreases s.len() - i,
{
    if i < s.len() {
        let out = rewrite_from(r, s, i);
        let n = next_pos(r, s, i);
        let st = step_out(r, s, i);
        let rest = rewrite_from(r, s, n);
        assert(out == st + rest);
        lemma_boundary_pass(r, q, s, n);
        if matches_at(r, s, i) {
            assert(pair_spec(r, s[i], s[i + 1]));
            assert(n == i + 2);
            assert(st == seq![s[i], ' ', s[i + 1]]);
            if n < s.len() {
                assert(!pair_spec(r, s[i + 1], s[i + 2]));
                assert(!pair_spec(q, s[i + 1], s[i + 2]));
            }
            assert(!pair_spec(q, s[i], ' '));
            assert(!pair_spec(q, ' ', s[i + 1]));
        } else {
            assert(n == i + 1);
            assert(st == seq![s[i]]);
            if n < s.len() {
                assert(!pair_spec(r, s[i], s[i + 1]));
                assert(!pair_spec(q, s[i], s[i + 1]));
            }
        }
        assert forall|k: int| 0 <= k < out.len() implies plain_char(#[trigger] out[k]) by {
            if k >= st.len() {
                assert(out[k] == rest[k - st.len()]);
            }
        }
        assert forall|k: int| 0 <= k < out.len() - 1 implies !#[trigger] pair_spec(
            q,
            out[k],
            out[k + 1],
        ) by {
            if k + 1 < st.len() {
                assert(out[k] == st[k]);
                assert(out[k + 1] == st[k + 1]);
            } else if k + 1 == st.len() {
                assert(out[k] == st[k]);
                assert(out[k + 1] == rest[0]);
            } else if k + 1 > st.len() {
                assert(out[k] == rest[k - st.len()]);
                assert(out[k + 1] == rest[k + 1 - st.len()]);
                assert(!pair_spec(q, rest[k - st.len()], rest[k - st.len() + 1]));
            }
        }
        let f = Rule::FixSymbol;
        assert forall|k: int| 0 <= k < out.len() - 2 implies !#[trigger] triple_spec(
            f,
            out[k],
            out[k + 1],
            out[k + 2],
        ) by {
            let l = st.len() as int;
            if k >= l {
                assert(out[k] == rest[k - l]);
                assert(out[k + 1] == rest[k - l + 1]);
                assert(out[k + 2] == rest[k - l + 2]);
                assert(!triple_spec(f, rest[k - l], rest[k - l + 1], rest[k - l + 2]));
            } else if l == 1 {
                assert(rest.len() >= 2);
                assert(n + 1 < s.len());
                assert(out[k + 1] == s[i + 1]);
                assert(out[k + 2] == s[i + 2] || out[k + 2] == ' ');
                assert(!triple_spec(f, s[i], s[i + 1], s[i + 2]));
            } else if k == 0 {
                assert(out[k + 1] == ' ');
            } else if k == 1 {
                assert(out[k] == ' ');
            } else {
                assert(rest.len() >= 2);
                assert(n + 1 < s.len());
                assert(out[k] == s[i + 1]);
                assert(out[k + 1] == s[i + 2]);
                assert(out[k + 2] == s[i + 3] || out[k + 2] == ' ');
                let j = i + 1;
                assert(!triple_spec(f, s[j], s[j + 1], s[j + 2]));
            }
        }
    }
}

proof fn lemma_plain_no_match(rule: Rule, s: Seq<char>, i: int)
    requires
        plain(s),
        rule == Rule::CjkAns ==> no_pair(rule, s),
        rule == Rule::AnsCjk ==> no_pair(rule, s),
        rule == Rule::FixSymbol ==> no_symbol_gap(s),
        0 <= i < s.len(),
    ensures
        !matches_at(rule, s, i),
{
    assert forall|k: int| 0 <= k < s.len() implies s[k] != '#' by {
        assert(plain_char(s[k]));
    }
    lemma_last_hash_none(s, i, run_end(Class::NonSpace, s, i) - 1);
    assert(plain_char(s[i]));
    if i + 1 < s.len() {
        assert(plain_char(s[i + 1]));
    }
    if i + 2 < s.len() {
        assert(plain_char(s[i + 2]));
    }
    if i + 3 < s.len() {
        assert(plain_char(s[i + 3]));
    }
    assert(match_end(rule, s, i) is None);
}

/// Plain text in which neither boundary rule nor the punctuation rule finds a match is
/// left as it is.
proof fn lemma_settled_unchanged(s: Seq<char>)
    requires
        plain(s),
        no_pair(Rule::CjkAns, s),
        no_pair(Rule::AnsCjk, s),
        no_symbol_gap(s),
    ensures
        spaced(s) == s,
{
    assert forall|rule: Rule| rewrite(rule, s) == s by {
        assert forall|j: int| 0 <= j < s.len() implies !matches_at(rule, s, j) by {
            lemma_plain_no_match(rule, s, j);
        }
        lemma_no_match_unchanged(rule, s);
    }
}

/// On plain text (no quotes, brackets, operators, `#` or `@`), spacing twice gives what
/// spacing once gives.
pub proof fn lemma_plain_idempotent(s: Seq<char>)
    requires
        plain(s),
    ensures
        spaced(spaced(s)) == spaced(s),
{
    assert forall|rule: Rule|
        rule != Rule::FixSymbol && rule != Rule::CjkAns && rule != Rule::AnsCjk implies rewrite(
        rule,
        s,
    ) == s by {
        assert forall|j: int| 0 <= j < s.len() implies !matches_at(rule, s, j) by {
            lemma_plain_no_match(rule, s, j);
        }
        lemma_no_match_unchanged(rule, s);
    }
    let t = rewrite(Rule::FixSymbol, s);
    lemma_symbol_pass(s, 0);
    let u = rewrite(Rule::CjkAns, t);
    lemma_boundary_pass(Rule::CjkAns, Rule::CjkAns, t, 0);
    let w = rewrite(Rule::AnsCjk, u);
    lemma_boundary_pass(Rule::AnsCjk, Rule::AnsCjk, u, 0);
    lemma_boundary_pass(Rule::AnsCjk, Rule::CjkAns, u, 0);
    assert(spaced(s) == w);
    lemma_settled_unchanged(w);
}

} // verus!
