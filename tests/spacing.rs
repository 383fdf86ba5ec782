use pangu2::spacing;
use std::borrow::Cow;

const PARAGRAPH: &str = "逻辑学的领域是研究证明，即对特定命题的真伪性进行不容置疑的论证。有关逻辑学在计算机科学中核心作用的书卷汗牛充栋。Manna和Waldinger称之为「计算机科学的微积分」，而Halpern的论文On the Unusual Effectiveness of Logic in Computer Science中则收录了大量逻辑学为计算机科学提供的洞察力和至关重要的工具。的确，他们发现：「事实上，逻辑学在计算机科学中远比在数学中更加有效。这相当引人注目，特别是由于过去一百年来，逻辑学发展的动力大都来自于数学。」";

const PARAGRAPH_SPACED: &str = "逻辑学的领域是研究证明，即对特定命题的真伪性进行不容置疑的论证。有关逻辑学在计算机科学中核心作用的书卷汗牛充栋。Manna 和 Waldinger 称之为「计算机科学的微积分」，而 Halpern 的论文 On the Unusual Effectiveness of Logic in Computer Science 中则收录了大量逻辑学为计算机科学提供的洞察力和至关重要的工具。的确，他们发现：「事实上，逻辑学在计算机科学中远比在数学中更加有效。这相当引人注目，特别是由于过去一百年来，逻辑学发展的动力大都来自于数学。」";

#[test]
fn empty() {
    let r = spacing("");
    assert_eq!(r, "");
    assert!(matches!(r, Cow::Borrowed(_)));
}

#[test]
fn simple() {
    let r = spacing("abcあ123");
    assert_eq!(r, "abc あ 123");
    assert!(matches!(r, Cow::Owned(_)));
}

#[test]
fn simple_spaced() {
    let r = spacing("abc あ 123");
    assert_eq!(r, "abc あ 123");
    assert!(matches!(r, Cow::Borrowed(_)));
}

#[test]
fn sentence() {
    assert_eq!(
        spacing("新八的構造成分有95%是眼鏡、3%是水、2%是垃圾"),
        "新八的構造成分有 95% 是眼鏡、3% 是水、2% 是垃圾"
    );
}

#[test]
fn sentence_spaced() {
    let s = "新八的構造成分有 95% 是眼鏡、3% 是水、2% 是垃圾";
    assert_eq!(spacing(s), s);
}

#[test]
fn paragraph() {
    assert_eq!(spacing(PARAGRAPH), PARAGRAPH_SPACED);
}

#[test]
fn paragraph_spaced() {
    let r = spacing(PARAGRAPH_SPACED);
    assert_eq!(r, PARAGRAPH_SPACED);
    assert!(matches!(r, Cow::Borrowed(_)));
}

#[test]
fn spacing_twice_is_spacing_once() {
    for s in [
        "abcあ123",
        PARAGRAPH,
        "新八的構造成分有95%是眼鏡、3%是水、2%是垃圾",
        "前面\"中文123漢字\"後面",
        "你好,world.我是Bob!再見…see you",
    ] {
        let once = spacing(s).into_owned();
        assert_eq!(spacing(&once), once);
    }
}

#[test]
fn single_class_text_unchanged() {
    assert!(matches!(spacing("中文字あいう"), Cow::Borrowed("中文字あいう")));
    assert!(matches!(spacing("abc123+-*/"), Cow::Borrowed("abc123+-*/")));
}

#[test]
fn double_quotes_keep_inner_text() {
    assert_eq!(spacing("前面\"中文123漢字\"後面"), "前面 \"中文 123 漢字\" 後面");
}

#[test]
fn padded_quotes_lose_inner_whitespace() {
    assert_eq!(spacing("前面\" 中文 \"後面"), "前面 \"中文\" 後面");
}

#[test]
fn parentheses_keep_inner_text() {
    assert_eq!(spacing("前面(中文123漢字)後面"), "前面 (中文 123 漢字) 後面");
}

#[test]
fn padded_brackets_lose_inner_whitespace() {
    assert_eq!(spacing("前面( 中文 )後面"), "前面 (中文) 後面");
}

#[test]
fn single_bracket_next_to_cjk() {
    assert_eq!(spacing("前面(abc"), "前面 (abc");
    assert_eq!(spacing("abc)後面"), "abc) 後面");
}

#[test]
fn only_first_of_adjacent_bracket_spans() {
    assert_eq!(spacing("中(a)文(b)字"), "中 (a) 文(b)字");
}

#[test]
fn apostrophe_after_cjk() {
    let r = spacing("我's");
    assert_eq!(r, "我's");
    assert!(matches!(r, Cow::Borrowed(_)));
}

#[test]
fn hashtag_after_cjk() {
    assert_eq!(spacing("前面#H2G2後面"), "前面 #H2G2 後面");
}

#[test]
fn hashtag_before_cjk() {
    assert_eq!(spacing("abc#中文"), "abc# 中文");
}

#[test]
fn operators_between_cjk_and_latin() {
    assert_eq!(spacing("中文+abc"), "中文 + abc");
    assert_eq!(spacing("abc=中文"), "abc = 中文");
}

#[test]
fn punctuation_between_cjk_and_latin() {
    assert_eq!(spacing("前面:abc"), "前面: abc");
    assert_eq!(spacing("abc!中文"), "abc! 中文");
}

#[test]
fn at_sign_after_cjk() {
    assert_eq!(spacing("前面@abc"), "前面 @abc");
}

#[test]
fn latin1_symbols_are_half_width() {
    assert_eq!(spacing("中文©"), "中文 ©");
}

#[test]
fn hashtags_in_one_run() {
    assert_eq!(spacing("abc#中文def#中文"), "abc#中文 def# 中文");
}

#[test]
fn bracket_span_stops_at_line_end() {
    assert_eq!(spacing("中(a\n中(b)字"), "中(a\n中 (b) 字");
}

#[test]
fn padded_span_across_lines() {
    assert_eq!(spacing("前面( \n中文 )後面"), "前面 (中文) 後面");
}

#[test]
fn long_text_without_spaces() {
    let s = "漢字".repeat(50_000);
    let r = spacing(&s);
    assert!(matches!(r, Cow::Borrowed(_)));
    let t = "漢字abc".repeat(20_000);
    let once = spacing(&t).into_owned();
    assert_eq!(once, "漢字 abc ".repeat(20_000).trim_end());
}

#[test]
fn long_line_of_unclosed_brackets() {
    let s = "a<b(".repeat(30_000);
    assert!(matches!(spacing(&s), Cow::Borrowed(_)));
}
