//! The tokenizer: from a text to a flat sequence of tokens.
//!
//! What the tokenizer returns is defined by `lex_from`, which reads the text
//! one token at a time: `mark_at` decides from the character at a position,
//! and from the characters after it, which kind of token starts there;
//! `span_at` says which characters the token takes; `token_at` builds it.

use crate::chars::{is_ascii_digit, lemma_run_end, run_end, step, trimmed_end, white_space, CharClass};
use crate::text::{clean, clean_chars, string_of};
use vstd::prelude::*;
use vstd::std_specs::iter::IteratorSpec;

verus! {

/// One unit of meaning in a text.
#[derive(Debug, PartialEq)]
pub enum Token {
    /// A heading with its text and its level, the number of `#` before it.
    Header(String, u8),
    /// A span of strong emphasis.
    Bold(String),
    /// A span of emphasis.
    Italic(String),
    /// A hyperlink: the text that is shown, then the address.
    Link(String, String),
    /// One item of a list; the flag says whether the list is numbered.
    ListItem(String, bool),
    /// A run of characters without markup.
    Text(String),
    /// The end of a line.
    Newline,
}

/// The mathematical value of a token: the same variants over sequences of
/// characters.
pub enum TokenView {
    Header(Seq<char>, u8),
    Bold(Seq<char>),
    Italic(Seq<char>),
    Link(Seq<char>, Seq<char>),
    ListItem(Seq<char>, bool),
    Text(Seq<char>),
    Newline,
}

impl View for Token {
    type V = TokenView;

    open spec fn view(&self) -> TokenView {
        match *self {
            Token::Header(text, level) => TokenView::Header(text@, level),
            Token::Bold(text) => TokenView::Bold(text@),
            Token::Italic(text) => TokenView::Italic(text@),
            Token::Link(text, url) => TokenView::Link(text@, url@),
            Token::ListItem(text, numbered) => TokenView::ListItem(text@, numbered),
            Token::Text(text) => TokenView::Text(text@),
            Token::Newline => TokenView::Newline,
        }
    }
}

/// The values of a sequence of tokens, in the same order.
pub open spec fn tokens_view(tokens: Seq<Token>) -> Seq<TokenView> {
    tokens.map_values(|t: Token| t@)
}

/// The kinds of token that can start at a position.
pub enum Mark {
    Header,
    /// An item of an unordered list.
    Bullet,
    /// An item of a numbered list.
    Numbered,
    /// A span of emphasis, strong or not.
    Emphasis,
    Link,
    Newline,
    Text,
}

/// The characters that one token takes from the text, as positions in it.
/// The token runs from its own position to `next`; its text is derived from
/// the characters from `text_lo` to `text_hi`, and the address of a link from
/// those from `url_lo` to `url_hi`. All upper bounds are exclusive. What lies
/// between these ranges is markup and is dropped. A line feed is all markup:
/// both its ranges are empty, and the token itself stands for the character.
pub struct Span {
    pub text_lo: int,
    pub text_hi: int,
    pub url_lo: int,
    pub url_hi: int,
    pub next: int,
}

/// Whether an item of a numbered list starts at `p`: a run of at least one
/// ASCII digit, then a full stop, then a character of white space.
pub open spec fn is_numbered_at(s: Seq<char>, p: int) -> bool {
    let d = run_end(s, p, CharClass::Digit);
    p < d && d + 1 < s.len() && s[d] == '.' && white_space(s[d + 1])
}

/// Whether the character after `p` is a space, which makes a `*` at `p` the
/// marker of a list item.
pub open spec fn is_bullet_star_at(s: Seq<char>, p: int) -> bool {
    p + 1 < s.len() && s[p + 1] == ' '
}

/// Whether the character after `p` is a `*`, which makes a `*` at `p` the
/// start of strong emphasis.
pub open spec fn is_bold_at(s: Seq<char>, p: int) -> bool {
    p + 1 < s.len() && s[p + 1] == '*'
}

/// The kind of the token that starts at `p`, for `0 <= p < s.len()`.
pub open spec fn mark_at(s: Seq<char>, p: int) -> Mark
    recommends
        0 <= p < s.len(),
{
    let c = s[p];
    if c == '#' {
        Mark::Header
    } else if c == '*' {
        if is_bullet_star_at(s, p) {
            Mark::Bullet
        } else {
            Mark::Emphasis
        }
    } else if c == '[' {
        Mark::Link
    } else if is_ascii_digit(c) {
        if is_numbered_at(s, p) {
            Mark::Numbered
        } else {
            Mark::Text
        }
    } else if c == '-' {
        Mark::Bullet
    } else if c == '\n' {
        Mark::Newline
    } else {
        Mark::Text
    }
}

/// The span of a text that fills the rest of a line: white space from `from`
/// on is skipped, and the text runs up to the next line feed, which is left.
pub open spec fn line_span(s: Seq<char>, from: int) -> Span {
    let lo = run_end(s, from, CharClass::Space);
    let hi = run_end(s, lo, CharClass::Not('\n'));
    Span { text_lo: lo, text_hi: hi, url_lo: hi, url_hi: hi, next: hi }
}

/// The level of the heading at `p`: the number of `#` in the run at `p`, and
/// 255, the greatest level there is, for a run of more than 255.
pub open spec fn header_level(s: Seq<char>, p: int) -> u8 {
    let count = run_end(s, p, CharClass::Is('#')) - p;
    if count < 255 {
        count as u8
    } else {
        255u8
    }
}

/// The span of the token that starts at `p`, for `0 <= p < s.len()`.
///
/// - A heading takes its run of `#`, the white space after it and the rest of
///   the line; white space at the end of the line is not part of its text.
/// - A list item takes its marker (one character, or the digits and the full
///   stop), the white space after it and the rest of the line.
/// - Emphasis takes one `*` or two, the characters up to the next `*`, and
///   then that `*`; strong emphasis takes one character more, whatever it is.
///   Where no `*` follows, the span runs to the end of the text.
/// - A link takes `[`, the characters up to the next `]`, that `]` and the
///   character after it, the characters up to the next `)`, and that `)`.
/// - A line feed is taken alone.
/// - Text takes the longest run without `#`, `*`, `[` and line feed.
pub open spec fn span_at(s: Seq<char>, p: int) -> Span
    recommends
        0 <= p < s.len(),
{
    match mark_at(s, p) {
        Mark::Header => {
            let line = line_span(s, run_end(s, p, CharClass::Is('#')));
            Span { text_hi: trimmed_end(s, line.text_lo, line.text_hi), ..line }
        },
        Mark::Bullet => line_span(s, p + 1),
        Mark::Numbered => line_span(s, run_end(s, p, CharClass::Digit) + 1),
        Mark::Emphasis => {
            let lo = if is_bold_at(s, p) {
                p + 2
            } else {
                p + 1
            };
            let hi = run_end(s, lo, CharClass::Not('*'));
            let next = if is_bold_at(s, p) {
                step(s, step(s, hi))
            } else {
                step(s, hi)
            };
            Span { text_lo: lo, text_hi: hi, url_lo: next, url_hi: next, next: next }
        },
        Mark::Link => {
            let hi = run_end(s, p + 1, CharClass::Not(']'));
            let url_lo = step(s, step(s, hi));
            let url_hi = run_end(s, url_lo, CharClass::Not(')'));
            Span { text_lo: p + 1, text_hi: hi, url_lo: url_lo, url_hi: url_hi, next: step(s, url_hi) }
        },
        Mark::Newline => Span { text_lo: p, text_hi: p, url_lo: p + 1, url_hi: p + 1, next: p + 1 },
        Mark::Text => {
            let hi = run_end(s, p, CharClass::Plain);
            Span { text_lo: p, text_hi: hi, url_lo: hi, url_hi: hi, next: hi }
        },
    }
}

/// The token that starts at `p`, for `0 <= p < s.len()`. Every text in it is
/// the normalised form of the characters that its span gives for it; the
/// address of a link is taken as it stands.
pub open spec fn token_at(s: Seq<char>, p: int) -> TokenView
    recommends
        0 <= p < s.len(),
{
    let span = span_at(s, p);
    let text = clean(s.subrange(span.text_lo, span.text_hi));
    match mark_at(s, p) {
        Mark::Header => TokenView::Header(text, header_level(s, p)),
        Mark::Bullet => TokenView::ListItem(text, false),
        Mark::Numbered => TokenView::ListItem(text, true),
        Mark::Emphasis => if is_bold_at(s, p) {
            TokenView::Bold(text)
        } else {
            TokenView::Italic(text)
        },
        Mark::Link => TokenView::Link(text, s.subrange(span.url_lo, span.url_hi)),
        Mark::Newline => TokenView::Newline,
        Mark::Text => TokenView::Text(text),
    }
}

/// Every token takes at least one character and stays inside the text, and
/// the ranges of its span lie in it in order.
pub proof fn lemma_span_bounds(s: Seq<char>, p: int)
    requires
        0 <= p < s.len(),
    ensures
        p <= span_at(s, p).text_lo <= span_at(s, p).text_hi <= span_at(s, p).url_lo <= span_at(
            s,
            p,
        ).url_hi <= span_at(s, p).next <= s.len(),
        p < span_at(s, p).next,
{
    let sharp = run_end(s, p, CharClass::Is('#'));
    let digits = run_end(s, p, CharClass::Digit);
    lemma_run_end(s, p, CharClass::Is('#'));
    lemma_run_end(s, p, CharClass::Digit);
    lemma_run_end(s, p, CharClass::Plain);
    match mark_at(s, p) {
        Mark::Header => {
            lemma_line_span(s, sharp);
            let line = line_span(s, sharp);
            crate::chars::lemma_trimmed_end(s, line.text_lo, line.text_hi);
        },
        Mark::Bullet => {
            lemma_line_span(s, p + 1);
        },
        Mark::Numbered => {
            lemma_line_span(s, digits + 1);
        },
        Mark::Emphasis => {
            let lo = if is_bold_at(s, p) {
                p + 2
            } else {
                p + 1
            };
            lemma_run_end(s, lo, CharClass::Not('*'));
        },
        Mark::Link => {
            let hi = run_end(s, p + 1, CharClass::Not(']'));
            lemma_run_end(s, p + 1, CharClass::Not(']'));
            lemma_run_end(s, step(s, step(s, hi)), CharClass::Not(')'));
        },
        Mark::Newline => {},
        Mark::Text => {},
    }
}

/// The span of the rest of a line lies between its start and the end of the
/// text.
pub proof fn lemma_line_span(s: Seq<char>, from: int)
    requires
        0 <= from <= s.len(),
    ensures
        from <= line_span(s, from).text_lo <= line_span(s, from).text_hi <= s.len(),
{
    lemma_run_end(s, from, CharClass::Space);
    lemma_run_end(s, run_end(s, from, CharClass::Space), CharClass::Not('\n'));
}

/// The tokens of `s` from position `p` on: the token at `p`, then the tokens
/// from the end of its span on, until the text is used up.
pub open spec fn lex_from(s: Seq<char>, p: int) -> Seq<TokenView>
    decreases s.len() - p,
    via lex_from_decreases
{
    if 0 <= p < s.len() {
        seq![token_at(s, p)] + lex_from(s, span_at(s, p).next)
    } else {
        Seq::empty()
    }
}

#[via_fn]
proof fn lex_from_decreases(s: Seq<char>, p: int) {
    if 0 <= p < s.len() {
        lemma_span_bounds(s, p);
    }
}

/// The tokens of a whole text.
pub open spec fn lex(s: Seq<char>) -> Seq<TokenView> {
    lex_from(s, 0)
}

/// A cursor over a text. The text is held as its characters, so that a
/// position is a number of characters and looking ahead is reading at an
/// index; the cursor never leaves the text.
pub struct Tokenizer {
    input: Vec<char>,
    pos: usize,
}

impl Tokenizer {
    /// The whole text that the tokenizer was made for.
    pub closed spec fn text(&self) -> Seq<char> {
        self.input@
    }

    /// The number of characters of the text that have been consumed.
    pub closed spec fn cursor(&self) -> int {
        self.pos as int
    }

    #[verifier::type_invariant]
    spec fn in_bounds(&self) -> bool {
        self.pos <= self.input.len()
    }

    /// A tokenizer at the start of `input`.
    pub fn new(input: &str) -> (t: Self)
        ensures
            t.text() == input@,
            t.cursor() == 0,
    {
        broadcast use vstd::string::group_string_axioms;
        let mut it = input.chars();
        let mut v: Vec<char> = Vec::new();
        loop
            invariant
                it.obeys_prophetic_iter_laws(),
                it.decrease() is Some,
                v@ + it.remaining() == input@,
            ensures
                v@ == input@,
            decreases it.decrease()->0,
        {
            match it.next() {
                Some(c) => {
                    v.push(c);
                },
                None => {
                    break ;
                },
            }
        }
        Tokenizer { input: v, pos: 0 }
    }

    /// Moves the cursor over one character; at the end of the text it stays.
    fn advance(&mut self)
        ensures
            final(self).text() == old(self).text(),
            final(self).cursor() == step(old(self).text(), old(self).cursor()),
    {
        if self.pos < self.input.len() {
            self.pos = self.pos + 1;
        }
    }

    /// The character at the cursor, if the text has not ended.
    fn current(&self) -> (c: Option<char>)
        ensures
            c == if self.cursor() < self.text().len() {
                Some(self.text()[self.cursor()])
            } else {
                None
            },
    {
        if self.pos < self.input.len() {
            Some(self.input[self.pos])
        } else {
            None
        }
    }

    /// Moves the cursor over the longest run of characters of `class` and
    /// returns the run.
    fn take_while(&mut self, class: CharClass) -> (r: Vec<char>)
        ensures
            final(self).text() == old(self).text(),
            final(self).cursor() == run_end(old(self).text(), old(self).cursor(), class),
            old(self).cursor() <= final(self).cursor() <= old(self).text().len(),
            r@ == old(self).text().subrange(old(self).cursor(), final(self).cursor()),
    {
        proof {
            use_type_invariant(&*self);
        }
        let start = self.pos;
        let mut r: Vec<char> = Vec::new();
        while self.pos < self.input.len() && class.test(self.input[self.pos])
            invariant
                self.input == old(self).input,
                start <= self.pos <= self.input.len(),
                start == old(self).pos,
                run_end(self.input@, self.pos as int, class) == run_end(
                    self.input@,
                    start as int,
                    class,
                ),
                r@ == self.input@.subrange(start as int, self.pos as int),
            decreases self.input.len() - self.pos,
        {
            r.push(self.input[self.pos]);
            self.pos = self.pos + 1;
        }
        r
    }

    /// Moves the cursor over the white space that it stands at.
    fn skip_whitespace(&mut self)
        ensures
            final(self).text() == old(self).text(),
            final(self).cursor() == run_end(old(self).text(), old(self).cursor(), CharClass::Space),
            old(self).cursor() <= final(self).cursor() <= old(self).text().len(),
    {
        let _ = self.take_while(CharClass::Space);
    }

    /// The normalised form of a text, as a string.
    fn clean_text(&self, text: Vec<char>) -> (r: String)
        ensures
            r@ == clean(text@),
    {
        clean_chars(&text)
    }

    /// Whether a space follows the character at the cursor. Nothing is
    /// consumed.
    fn is_list_item(&self) -> (r: bool)
        ensures
            r == is_bullet_star_at(self.text(), self.cursor()),
    {
        proof {
            use_type_invariant(self);
        }
        self.pos < self.input.len() && self.input.len() - self.pos > 1 && self.input[self.pos + 1]
            == ' '
    }

    /// Whether the cursor stands at digits, a full stop and white space.
    /// Nothing is consumed.
    fn is_numbered_list(&self) -> (r: bool)
        ensures
            r == is_numbered_at(self.text(), self.cursor()),
    {
        proof {
            use_type_invariant(self);
        }
        let mut d: usize = self.pos;
        while d < self.input.len() && CharClass::Digit.test(self.input[d])
            invariant
                self.pos <= d <= self.input.len(),
                run_end(self.input@, d as int, CharClass::Digit) == run_end(
                    self.input@,
                    self.pos as int,
                    CharClass::Digit,
                ),
            decreases self.input.len() - d,
        {
            d = d + 1;
        }
        self.pos < d && d < self.input.len() && self.input.len() - d > 1 && self.input[d] == '.'
            && self.input[d + 1].is_whitespace()
    }

    /// Reads a heading: the `#`, the white space after them, and the line.
    fn tokenize_header(&mut self) -> (t: Token)
        requires
            0 <= old(self).cursor() < old(self).text().len(),
            mark_at(old(self).text(), old(self).cursor()) == Mark::Header,
        ensures
            final(self).text() == old(self).text(),
            final(self).cursor() == span_at(old(self).text(), old(self).cursor()).next,
            t@ == token_at(old(self).text(), old(self).cursor()),
    {
        let hashes = self.take_while(CharClass::Is('#'));
        let level: u8 = if hashes.len() < 255 {
            hashes.len() as u8
        } else {
            255
        };
        self.skip_whitespace();
        let ghost lo = self.pos as int;
        let mut line = self.take_while(CharClass::Not('\n'));
        let mut keep: usize = line.len();
        while keep > 0 && line[keep - 1].is_whitespace()
            invariant
                keep <= line.len(),
                0 <= lo <= self.pos <= self.input.len(),
                line@ == self.input@.subrange(lo, self.pos as int),
                trimmed_end(self.input@, lo, lo + keep) == trimmed_end(
                    self.input@,
                    lo,
                    self.pos as int,
                ),
            decreases keep,
        {
            keep = keep - 1;
        }
        line.truncate(keep);
        assert(line@ =~= self.input@.subrange(lo, lo + keep));
        Token::Header(self.clean_text(line), level)
    }

    /// Reads a span of emphasis, strong where two `*` open it.
    fn tokenize_bold_or_italic(&mut self) -> (t: Token)
        requires
            0 <= old(self).cursor() < old(self).text().len(),
            mark_at(old(self).text(), old(self).cursor()) == Mark::Emphasis,
        ensures
            final(self).text() == old(self).text(),
            final(self).cursor() == span_at(old(self).text(), old(self).cursor()).next,
            t@ == token_at(old(self).text(), old(self).cursor()),
    {
        self.advance();
        let is_bold = match self.current() {
            Some(c) => c == '*',
            None => false,
        };
        if is_bold {
            self.advance();
        }
        let text = self.take_while(CharClass::Not('*'));
        self.advance();
        if is_bold {
            self.advance();
        }
        if is_bold {
            Token::Bold(self.clean_text(text))
        } else {
            Token::Italic(self.clean_text(text))
        }
    }

    /// Reads a link: the text in square brackets, then the address.
    fn tokenize_link(&mut self) -> (t: Token)
        requires
            0 <= old(self).cursor() < old(self).text().len(),
            mark_at(old(self).text(), old(self).cursor()) == Mark::Link,
        ensures
            final(self).text() == old(self).text(),
            final(self).cursor() == span_at(old(self).text(), old(self).cursor()).next,
            t@ == token_at(old(self).text(), old(self).cursor()),
    {
        self.advance();
        let text = self.take_while(CharClass::Not(']'));
        self.advance();
        self.advance();
        let url = self.take_while(CharClass::Not(')'));
        self.advance();
        let address = string_of(&url, 0, url.len());
        assert(url@.subrange(0, url@.len() as int) =~= url@);
        Token::Link(self.clean_text(text), address)
    }

    /// Reads a list item: the marker, the white space after it, and the line.
    fn tokenize_list_item(&mut self, is_numbered: bool) -> (t: Token)
        requires
            0 <= old(self).cursor() < old(self).text().len(),
            mark_at(old(self).text(), old(self).cursor()) == if is_numbered {
                Mark::Numbered
            } else {
                Mark::Bullet
            },
        ensures
            final(self).text() == old(self).text(),
            final(self).cursor() == span_at(old(self).text(), old(self).cursor()).next,
            t@ == token_at(old(self).text(), old(self).cursor()),
    {
        if is_numbered {
            let _ = self.take_while(CharClass::Digit);
        }
        self.advance();
        self.skip_whitespace();
        let text = self.take_while(CharClass::Not('\n'));
        Token::ListItem(self.clean_text(text), is_numbered)
    }

    /// Reads a run of text up to the next character that can start markup.
    fn tokenize_text(&mut self) -> (t: Token)
        requires
            0 <= old(self).cursor() < old(self).text().len(),
            mark_at(old(self).text(), old(self).cursor()) == Mark::Text,
        ensures
            final(self).text() == old(self).text(),
            final(self).cursor() == span_at(old(self).text(), old(self).cursor()).next,
            t@ == token_at(old(self).text(), old(self).cursor()),
    {
        let text = self.take_while(CharClass::Plain);
        Token::Text(self.clean_text(text))
    }

    /// Reads the text from the cursor to its end and returns its tokens in
    /// the order of the text. There are never more tokens than characters
    /// read, and the cursor is left at the end of the text.
    pub fn tokenize(&mut self) -> (tokens: Vec<Token>)
        ensures
            tokens_view(tokens@) == lex_from(old(self).text(), old(self).cursor()),
            tokens@.len() <= old(self).text().len() - old(self).cursor(),
            final(self).text() == old(self).text(),
            final(self).cursor() == old(self).text().len(),
    {
        proof {
            use_type_invariant(&*self);
        }
        let mut tokens: Vec<Token> = Vec::new();
        while self.pos < self.input.len()
            invariant
                self.input@ == old(self).input@,
                old(self).pos <= self.pos <= self.input.len(),
                tokens@.len() <= self.pos - old(self).pos,
                tokens_view(tokens@) + lex_from(self.input@, self.pos as int) == lex_from(
                    old(self).input@,
                    old(self).pos as int,
                ),
            decreases self.input.len() - self.pos,
        {
            proof {
                lemma_span_bounds(self.input@, self.pos as int);
            }
            let ch = self.input[self.pos];
            let token = if ch == '#' {
                self.tokenize_header()
            } else if ch == '*' {
                if self.is_list_item() {
                    self.tokenize_list_item(false)
                } else {
                    self.tokenize_bold_or_italic()
                }
            } else if ch == '[' {
                self.tokenize_link()
            } else if CharClass::Digit.test(ch) {
                if self.is_numbered_list() {
                    self.tokenize_list_item(true)
                } else {
                    self.tokenize_text()
                }
            } else if ch == '-' {
                self.tokenize_list_item(false)
            } else if ch == '\n' {
                self.advance();
                Token::Newline
            } else {
                self.tokenize_text()
            };
            tokens.push(token);
        }
        tokens
    }
}

} // verus!
