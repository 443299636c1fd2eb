use markdown_latex::tokenizer::{Token, Tokenizer};

fn tokens_of(input: &str) -> Vec<Token> {
    let mut tokenizer = Tokenizer::new(input);
    tokenizer.tokenize()
}

fn text(s: &str) -> Token {
    Token::Text(s.to_string())
}

#[test]
fn test_header() {
    let input = "# Header 1";
    let mut tokenizer = Tokenizer::new(input);
    let tokens = tokenizer.tokenize();
    assert_eq!(tokens, vec![Token::Header("Header 1".to_string(), 1)]);
}

#[test]
fn test_bold() {
    let input = "This is **bold** text.";
    let mut tokenizer = Tokenizer::new(input);
    let tokens = tokenizer.tokenize();
    assert_eq!(
        tokens,
        vec![
            Token::Text("This is ".to_string()),
            Token::Bold("bold".to_string()),
            Token::Text(" text.".to_string())
        ]
    );
}

#[test]
fn test_italic() {
    let input = "This is *italic* text.";
    let mut tokenizer = Tokenizer::new(input);
    let tokens = tokenizer.tokenize();
    assert_eq!(
        tokens,
        vec![
            Token::Text("This is ".to_string()),
            Token::Italic("italic".to_string()),
            Token::Text(" text.".to_string())
        ]
    );
}

#[test]
fn test_link() {
    let input = "This is a [link](http://example.com).";
    let mut tokenizer = Tokenizer::new(input);
    let tokens = tokenizer.tokenize();
    assert_eq!(
        tokens,
        vec![
            Token::Text("This is a ".to_string()),
            Token::Link("link".to_string(), "http://example.com".to_string()),
            Token::Text(".".to_string())
        ]
    );
}

#[test]
fn test_unordered_list_item() {
    let input = "- List item";
    let mut tokenizer = Tokenizer::new(input);
    let tokens = tokenizer.tokenize();
    assert_eq!(
        tokens,
        vec![Token::ListItem("List item".to_string(), false)]
    );
}

#[test]
fn test_ordered_list_item() {
    let input = "1. List item";
    let mut tokenizer = Tokenizer::new(input);
    let tokens = tokenizer.tokenize();
    assert_eq!(tokens, vec![Token::ListItem("List item".to_string(), true)]);
}

#[test]
fn test_text() {
    let input = "Just some plain text.";
    let mut tokenizer = Tokenizer::new(input);
    let tokens = tokenizer.tokenize();
    assert_eq!(
        tokens,
        vec![Token::Text("Just some plain text.".to_string())]
    );
}

#[test]
fn empty_input_has_no_tokens() {
    assert_eq!(tokens_of(""), vec![]);
}

#[test]
fn second_call_returns_nothing() {
    let mut tokenizer = Tokenizer::new("some *text*");
    let first = tokenizer.tokenize();
    assert_eq!(first.len(), 2);
    assert_eq!(tokenizer.tokenize(), vec![]);
}

#[test]
fn digit_and_stop_without_space_is_text() {
    assert_eq!(tokens_of("1.List item"), vec![text("1.List item")]);
}

#[test]
fn digit_alone_is_text() {
    assert_eq!(tokens_of("1"), vec![text("1")]);
    assert_eq!(tokens_of("1."), vec![text("1.")]);
    assert_eq!(tokens_of("42 is a number"), vec![text("42 is a number")]);
}

#[test]
fn several_digits_number_an_item() {
    assert_eq!(
        tokens_of("10. tenth"),
        vec![Token::ListItem("tenth".to_string(), true)]
    );
    assert_eq!(
        tokens_of("0. zeroth"),
        vec![Token::ListItem("zeroth".to_string(), true)]
    );
}

#[test]
fn numbered_item_skips_all_white_space_after_the_stop() {
    assert_eq!(
        tokens_of("2.   \tspaced"),
        vec![Token::ListItem("spaced".to_string(), true)]
    );
    assert_eq!(
        tokens_of("3.\nnext line"),
        vec![Token::ListItem("next line".to_string(), true)]
    );
}

#[test]
fn star_before_space_is_a_bullet() {
    assert_eq!(
        tokens_of("* item"),
        vec![Token::ListItem("item".to_string(), false)]
    );
}

#[test]
fn star_alone_is_empty_emphasis() {
    assert_eq!(tokens_of("*"), vec![Token::Italic(String::new())]);
    assert_eq!(tokens_of("**"), vec![Token::Bold(String::new())]);
}

#[test]
fn unterminated_emphasis_runs_to_the_end() {
    assert_eq!(
        tokens_of("**bold\nand more"),
        vec![Token::Bold("bold\nand more".to_string())]
    );
    assert_eq!(tokens_of("*it"), vec![Token::Italic("it".to_string())]);
}

#[test]
fn strong_emphasis_drops_the_character_after_its_end() {
    assert_eq!(
        tokens_of("**bold*x rest"),
        vec![Token::Bold("bold".to_string()), text(" rest")]
    );
}

#[test]
fn unterminated_link_runs_to_the_end() {
    assert_eq!(
        tokens_of("[abc"),
        vec![Token::Link("abc".to_string(), String::new())]
    );
    assert_eq!(
        tokens_of("[a](b"),
        vec![Token::Link("a".to_string(), "b".to_string())]
    );
}

#[test]
fn link_without_parenthesis_drops_one_character() {
    assert_eq!(
        tokens_of("[a]xyz) tail"),
        vec![Token::Link("a".to_string(), "yz".to_string()), text(" tail")]
    );
}

#[test]
fn link_address_is_not_normalised() {
    assert_eq!(
        tokens_of("[a  b](x  y -z)"),
        vec![Token::Link("a b".to_string(), "x  y -z".to_string())]
    );
}

#[test]
fn newline_is_a_token_of_its_own() {
    assert_eq!(
        tokens_of("a\n\nb"),
        vec![text("a"), Token::Newline, Token::Newline, text("b")]
    );
}

#[test]
fn header_levels_count_the_hashes() {
    assert_eq!(
        tokens_of("### Third"),
        vec![Token::Header("Third".to_string(), 3)]
    );
    assert_eq!(
        tokens_of("#######Seven"),
        vec![Token::Header("Seven".to_string(), 7)]
    );
}

#[test]
fn header_level_stops_at_255() {
    let mut input = "#".repeat(254);
    input.push_str(" deep");
    assert_eq!(tokens_of(&input), vec![Token::Header("deep".to_string(), 254)]);
    let mut input = "#".repeat(255);
    input.push_str(" deep");
    assert_eq!(tokens_of(&input), vec![Token::Header("deep".to_string(), 255)]);
    let mut input = "#".repeat(257);
    input.push_str(" deeper");
    assert_eq!(
        tokens_of(&input),
        vec![Token::Header("deeper".to_string(), 255)]
    );
}

#[test]
fn header_text_is_trimmed_and_normalised() {
    assert_eq!(
        tokens_of("#   Title  with  gaps \t \nnext"),
        vec![
            Token::Header("Title with gaps".to_string(), 1),
            Token::Newline,
            text("next")
        ]
    );
}

#[test]
fn header_skips_unicode_white_space() {
    assert_eq!(
        tokens_of("#\u{a0}\u{2003}Title\u{3000}"),
        vec![Token::Header("Title".to_string(), 1)]
    );
}

#[test]
fn header_without_text_takes_the_next_line() {
    assert_eq!(
        tokens_of("#\nfoo"),
        vec![Token::Header("foo".to_string(), 1)]
    );
}

#[test]
fn doubled_spaces_are_collapsed_once() {
    assert_eq!(tokens_of("a  b"), vec![text("a b")]);
    assert_eq!(tokens_of("a   b"), vec![text("a  b")]);
    assert_eq!(tokens_of("a    b"), vec![text("a  b")]);
}

#[test]
fn space_and_hyphen_become_a_dash() {
    assert_eq!(tokens_of("a - b"), vec![text("a~-- b")]);
    assert_eq!(tokens_of("a  - b"), vec![text("a~-- b")]);
    assert_eq!(tokens_of("a-b"), vec![text("a-b")]);
}

#[test]
fn hyphen_at_line_start_is_a_bullet() {
    assert_eq!(
        tokens_of("-item\n- other - one"),
        vec![
            Token::ListItem("item".to_string(), false),
            Token::Newline,
            Token::ListItem("other~-- one".to_string(), false)
        ]
    );
}

#[test]
fn hyphen_inside_text_stays_text() {
    assert_eq!(tokens_of("well-known"), vec![text("well-known")]);
}

#[test]
fn text_stops_at_markup() {
    assert_eq!(
        tokens_of("a#b"),
        vec![text("a"), Token::Header("b".to_string(), 1)]
    );
    assert_eq!(
        tokens_of("see [x](y)"),
        vec![text("see "), Token::Link("x".to_string(), "y".to_string())]
    );
}

#[test]
fn never_more_tokens_than_characters() {
    let inputs = [
        "", "*", "**", "***", "[", "[]", "[](", "#", "##", "-", "1", "1.", "1. ", "\n", "\n\n",
        "*[#-1\n", "a*b*c", "- a\n- b\n1. c\n", "é*ü*\u{a0}",
    ];
    for input in inputs {
        let count = tokens_of(input).len();
        assert!(count <= input.chars().count(), "{:?}", input);
    }
}

#[test]
fn token_texts_follow_the_order_of_the_input() {
    let tokens = tokens_of("# Title\nsome *words* and [a link](http://x.y)\n- item");
    assert_eq!(
        tokens,
        vec![
            Token::Header("Title".to_string(), 1),
            Token::Newline,
            text("some "),
            Token::Italic("words".to_string()),
            text(" and "),
            Token::Link("a link".to_string(), "http://x.y".to_string()),
            Token::Newline,
            Token::ListItem("item".to_string(), false),
        ]
    );
}

#[test]
fn characters_outside_ascii_are_kept() {
    assert_eq!(
        tokens_of("**grüße** こんにちは"),
        vec![Token::Bold("grüße".to_string()), text(" こんにちは")]
    );
}

#[test]
fn token_texts_put_together_give_the_content() {
    let input = "## Title\nsome *words* and [a link](http://x.y)\n- item\n7. last";
    let mut content = String::new();
    for token in tokens_of(input) {
        match token {
            Token::Header(text, _) => content.push_str(&text),
            Token::Bold(text) => content.push_str(&text),
            Token::Italic(text) => content.push_str(&text),
            Token::Link(text, url) => {
                content.push_str(&text);
                content.push_str(&url);
            }
            Token::ListItem(text, _) => content.push_str(&text),
            Token::Text(text) => content.push_str(&text),
            Token::Newline => content.push('\n'),
        }
    }
    assert_eq!(
        content,
        "Title\nsome words and a linkhttp://x.y\nitem\nlast"
    );
}
