use saba_core::renderer::html::attribute::Attribute;
use saba_core::renderer::html::token::HtmlToken;
use saba_core::renderer::html::token::HtmlTokenizer;
use saba_core::renderer::html::token::State;
use saba_core::renderer::html::token::TokenizerError;

fn collect(tokenizer: &mut HtmlTokenizer) -> Vec<Result<HtmlToken, TokenizerError>> {
    let mut out = Vec::new();
    while let Some(t) = tokenizer.next() {
        out.push(t);
    }
    out
}

fn tokenize(input: &str) -> Vec<Result<HtmlToken, TokenizerError>> {
    collect(&mut HtmlTokenizer::new(input.chars().collect()))
}

fn tokenize_script(input: &str) -> Vec<Result<HtmlToken, TokenizerError>> {
    let mut tokenizer = HtmlTokenizer::new(input.chars().collect());
    tokenizer.switch_context(State::ScriptData);
    collect(&mut tokenizer)
}

fn start(tag: &str, self_closing: bool, attributes: Vec<(&str, &str)>) -> Result<HtmlToken, TokenizerError> {
    Ok(HtmlToken::StartTag {
        tag: tag.to_string(),
        self_closing,
        attributes: attributes
            .into_iter()
            .map(|(n, v)| Attribute::new(n.to_string(), v.to_string()))
            .collect(),
    })
}

fn end(tag: &str) -> Result<HtmlToken, TokenizerError> {
    Ok(HtmlToken::EndTag { tag: tag.to_string() })
}

fn chars(text: &str) -> Vec<Result<HtmlToken, TokenizerError>> {
    text.chars().map(|c| Ok(HtmlToken::Char(c))).collect()
}

fn eof() -> Result<HtmlToken, TokenizerError> {
    Ok(HtmlToken::Eof)
}

#[test]
fn empty_input_gives_end_of_file_once() {
    let mut tokenizer = HtmlTokenizer::new(Vec::new());
    assert_eq!(tokenizer.next(), Some(eof()));
    assert_eq!(tokenizer.next(), None);
    assert_eq!(tokenizer.next(), None);
}

#[test]
fn plain_text_gives_one_character_token_per_character() {
    let text = "hello, world > 1 & \u{3042}\n";
    let mut expected = chars(text);
    expected.push(eof());
    assert_eq!(tokenize(text), expected);
}

#[test]
fn paragraph_with_text() {
    assert_eq!(
        tokenize("<p>hi</p>"),
        vec![
            start("p", false, vec![]),
            Ok(HtmlToken::Char('h')),
            Ok(HtmlToken::Char('i')),
            end("p"),
            eof()
        ]
    );
}

#[test]
fn names_are_lowercased_and_values_kept() {
    assert_eq!(
        tokenize("<H1 ID=\"x\">"),
        vec![start("h1", false, vec![("id", "x")]), eof()]
    );
    assert_eq!(
        tokenize("<A HREF=\"Http://X.Y/Z\">"),
        vec![start("a", false, vec![("href", "Http://X.Y/Z")]), eof()]
    );
}

#[test]
fn attribute_values_in_three_forms() {
    assert_eq!(
        tokenize("<p a=\"1 2\" b='3\"4' c=5 d>"),
        vec![start("p", false, vec![("a", "1 2"), ("b", "3\"4"), ("c", "5"), ("d", "")]), eof()]
    );
}

#[test]
fn unquoted_value_ends_at_a_slash() {
    let mut expected = vec![start("a", false, vec![("href", "x")])];
    expected.extend(chars(">t"));
    expected.push(eof());
    assert_eq!(tokenize("<a href=x/>t"), expected);
}

#[test]
fn unquoted_value_takes_a_greater_than_sign() {
    assert_eq!(tokenize("<a href=x>t"), vec![eof()]);
}

#[test]
fn attribute_right_behind_a_quoted_value() {
    assert_eq!(
        tokenize("<p a=\"1\"b='2'c>"),
        vec![start("p", false, vec![("a", "1"), ("b", "2"), ("c", "")]), eof()]
    );
}

#[test]
fn duplicate_attributes_are_both_kept_in_order() {
    assert_eq!(
        tokenize("<p id=\"a\" id=\"b\">"),
        vec![start("p", false, vec![("id", "a"), ("id", "b")]), eof()]
    );
}

#[test]
fn self_closing_tag_sets_the_flag() {
    assert_eq!(tokenize("<p/>"), vec![start("p", true, vec![]), eof()]);
    assert_eq!(tokenize("<p a=\"1\"/>"), vec![start("p", true, vec![("a", "1")]), eof()]);
    assert_eq!(tokenize("<p a />"), vec![start("p", true, vec![("a", "")]), eof()]);
}

#[test]
fn end_tag_with_space() {
    assert_eq!(tokenize("</p >"), vec![end("p"), eof()]);
}

#[test]
fn less_than_sign_that_opens_no_tag_is_dropped() {
    let mut expected = chars("1  2");
    expected.push(eof());
    assert_eq!(tokenize("1 < 2"), expected);
}

#[test]
fn input_that_ends_inside_a_tag() {
    assert_eq!(tokenize("<p"), vec![eof()]);
    assert_eq!(tokenize("<"), vec![eof()]);
    assert_eq!(tokenize("a<p id=\"x"), vec![Ok(HtmlToken::Char('a')), eof()]);
}

#[test]
fn attribute_on_an_end_tag_is_an_error() {
    let mut expected =
        vec![Err(TokenizerError { state: State::BeforeAttributeName, character: 'i' })];
    expected.extend(chars("d>x"));
    expected.push(eof());
    assert_eq!(tokenize("</p id>x"), expected);
}

#[test]
fn self_closing_end_tag_is_an_error() {
    assert_eq!(
        tokenize("</p/>x"),
        vec![
            Err(TokenizerError { state: State::SelfClosingStartTag, character: '>' }),
            Ok(HtmlToken::Char('x')),
            eof()
        ]
    );
}

#[test]
fn script_text_keeps_its_less_than_signs() {
    let mut expected = chars("1 < 2");
    expected.push(end("script"));
    expected.push(eof());
    assert_eq!(tokenize_script("1 < 2</script>"), expected);
}

#[test]
fn script_end_tag_leaves_raw_text_mode() {
    let mut expected = chars("a");
    expected.push(end("script"));
    expected.push(start("p", false, vec![]));
    expected.push(eof());
    assert_eq!(tokenize_script("a</script><p>"), expected);
}

#[test]
fn script_end_tag_name_is_lowercased() {
    assert_eq!(tokenize_script("</SCRIPT>"), vec![end("script"), eof()]);
}

#[test]
fn broken_end_tag_in_script_is_replayed_as_written() {
    let mut expected = chars("x</Scr ipt>y");
    expected.push(end("script"));
    expected.push(eof());
    assert_eq!(tokenize_script("x</Scr ipt>y</script>"), expected);
}

#[test]
fn slash_without_a_name_in_script_is_replayed() {
    let mut expected = chars("a</ b</1");
    expected.push(eof());
    assert_eq!(tokenize_script("a</ b</1"), expected);
}

#[test]
fn script_input_that_ends_inside_a_candidate_end_tag_is_replayed() {
    let mut expected = chars("a</scr");
    expected.push(eof());
    assert_eq!(tokenize_script("a</scr"), expected);
    let mut expected = chars("a</");
    expected.push(eof());
    assert_eq!(tokenize_script("a</"), expected);
    let mut expected = chars("a<");
    expected.push(eof());
    assert_eq!(tokenize_script("a<"), expected);
}

#[test]
fn whole_script_element() {
    // The tree builder enters raw-text mode behind the start tag; without it
    // the `<` of the script text opens a tag.
    let mut tokenizer = HtmlTokenizer::new("<script>1 < 2</script>".chars().collect());
    assert_eq!(tokenizer.next(), Some(start("script", false, vec![])));
    tokenizer.switch_context(State::ScriptData);
    let mut expected = chars("1 < 2");
    expected.push(end("script"));
    expected.push(eof());
    assert_eq!(collect(&mut tokenizer), expected);
}

#[test]
fn attribute_builds_up_by_characters() {
    let mut attribute = Attribute::new(String::new(), String::new());
    attribute.add_char('i', true);
    attribute.add_char('d', true);
    attribute.add_char('x', false);
    assert_eq!(attribute.name(), "id");
    assert_eq!(attribute.value(), "x");
    assert_eq!(attribute, Attribute::new("id".to_string(), "x".to_string()));
    assert_eq!(attribute.clone(), attribute);
}

#[test]
fn collect_hands_out_everything_that_is_left() {
    let mut tokenizer = HtmlTokenizer::new("<p>a</p>".chars().collect());
    assert_eq!(tokenizer.next(), Some(start("p", false, vec![])));
    assert_eq!(tokenizer.collect(), vec![Ok(HtmlToken::Char('a')), end("p"), eof()]);
    assert_eq!(tokenizer.collect(), vec![]);
    assert_eq!(tokenizer.next(), None);
}

#[test]
fn mixed_case_names_come_out_folded() {
    assert_eq!(
        tokenize("<BoDy CLASS=\"Big\"></BODY>"),
        vec![start("body", false, vec![("class", "Big")]), end("body"), eof()]
    );
}
