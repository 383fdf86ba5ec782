use pangu2::model::Rule;
use pangu2::scan::rewrite_exec;

fn apply(rule: Rule, s: &str) -> String {
    let v: Vec<char> = s.chars().collect();
    rewrite_exec(rule, &v).into_iter().collect()
}

#[test]
fn rule_cjk_quote() {
    assert_eq!(apply(Rule::CjkQuote, "中\"a中'"), "中 \"a中 '");
}

#[test]
fn rule_quote_cjk() {
    assert_eq!(apply(Rule::QuoteCjk, "\"中a'文"), "\" 中a' 文");
}

#[test]
fn rule_fix_quote() {
    assert_eq!(apply(Rule::FixQuote, "\" 中文 \" x"), "\"中文\" x");
    assert_eq!(apply(Rule::FixQuote, "((\n)"), "(()");
    assert_eq!(apply(Rule::FixQuote, "( )"), "( )");
}

#[test]
fn rule_fix_single_quote() {
    assert_eq!(apply(Rule::FixSingleQuote, "我 's 我 '1"), "我's 我 '1");
}

#[test]
fn rule_cjk_hash() {
    assert_eq!(apply(Rule::CjkHash, "中#tag 文# x"), "中 #tag 文# x");
}

#[test]
fn rule_hash_cjk() {
    assert_eq!(apply(Rule::HashCjk, "a#b#中 #中 x#中"), "a#b# 中 #中 x# 中");
}

#[test]
fn rule_operators() {
    assert_eq!(apply(Rule::CjkOperatorAns, "中+a中-"), "中 + a中-");
    assert_eq!(apply(Rule::AnsOperatorCjk, "1*中a*"), "1 * 中a*");
}

#[test]
fn rule_cjk_bracket_cjk() {
    assert_eq!(apply(Rule::CjkBracketCjk, "中((a))文"), "中 ((a)) 文");
    assert_eq!(apply(Rule::CjkBracketCjk, "中(a)"), "中(a)");
}

#[test]
fn rule_single_brackets() {
    assert_eq!(apply(Rule::CjkBracket, "中(中>中a"), "中 (中 >中a");
    assert_eq!(apply(Rule::BracketCjk, ")中<中a"), ") 中< 中a");
}

#[test]
fn rule_fix_bracket() {
    assert_eq!(apply(Rule::FixBracket, "[[ a ]] x"), "[[a]] x");
}

#[test]
fn rule_fix_symbol() {
    assert_eq!(apply(Rule::FixSymbol, "中,a中…1中,中"), "中, a中… 1中,中");
}

#[test]
fn rule_boundaries() {
    assert_eq!(apply(Rule::CjkAns, "中a中@中%"), "中 a中 @中 %");
    assert_eq!(apply(Rule::AnsCjk, "a中?中¿中"), "a 中? 中¿ 中");
}
