//! What holds of the tokenizer and of the converter on every input.

use crate::chars::{lemma_run_end, run_end, CharClass};
use crate::latex_converter::{
    body, closing, end_list, item, markup, opening, render, state_after, state_of, transition,
    ListState,
};
use crate::text::{clean, replace_pair_from};
use crate::tokenizer::{
    lemma_span_bounds, lex, lex_from, mark_at, span_at, token_at, Mark, TokenView,
};
use vstd::prelude::*;

verus! {

/// The text that a token carries; a line feed carries none.
pub open spec fn token_text(token: TokenView) -> Seq<char> {
    match token {
        TokenView::Header(text, _) => text,
        TokenView::Bold(text) => text,
        TokenView::Italic(text) => text,
        TokenView::Link(text, _) => text,
        TokenView::ListItem(text, _) => text,
        TokenView::Text(text) => text,
        TokenView::Newline => Seq::empty(),
    }
}

/// The address that a token carries: that of a link, and none otherwise.
pub open spec fn token_address(token: TokenView) -> Seq<char> {
    match token {
        TokenView::Link(_, url) => url,
        _ => Seq::empty(),
    }
}

/// The stretches of `s` that the tokens from position `p` on were read from,
/// one for each token and in the order of the tokens.
pub open spec fn source_spans(s: Seq<char>, p: int) -> Seq<Seq<char>>
    decreases s.len() - p,
    via source_spans_decreases
{
    if 0 <= p < s.len() {
        seq![s.subrange(p, span_at(s, p).next)] + source_spans(s, span_at(s, p).next)
    } else {
        Seq::empty()
    }
}

#[via_fn]
proof fn source_spans_decreases(s: Seq<char>, p: int) {
    if 0 <= p < s.len() {
        lemma_span_bounds(s, p);
    }
}

/// Whether a token that is met in the given list state opens a list: it is
/// a list item, and the list of its kind is not the one that is open.
pub open spec fn opens_list(state: ListState, token: TokenView) -> bool {
    state != state_of(token) && state_of(token) is Open
}

/// Whether a token that is met in the given list state closes a list: a list
/// is open, and the token is no item of it.
pub open spec fn closes_list(state: ListState, token: TokenView) -> bool {
    state != state_of(token) && state is Open
}

/// The number of tokens of a sequence that open a list.
pub open spec fn lists_opened(tokens: Seq<TokenView>) -> nat
    decreases tokens.len(),
{
    if tokens.len() == 0 {
        0
    } else {
        lists_opened(tokens.drop_last()) + if opens_list(
            state_after(tokens.drop_last()),
            tokens.last(),
        ) {
            1nat
        } else {
            0nat
        }
    }
}

/// The number of tokens of a sequence that close a list; the end of the
/// sequence, which closes the list that is left open, is not counted.
pub open spec fn lists_closed(tokens: Seq<TokenView>) -> nat
    decreases tokens.len(),
{
    if tokens.len() == 0 {
        0
    } else {
        lists_closed(tokens.drop_last()) + if closes_list(
            state_after(tokens.drop_last()),
            tokens.last(),
        ) {
            1nat
        } else {
            0nat
        }
    }
}

/// There are never more tokens than characters: from any position on, the
/// tokenizer returns at most as many tokens as characters are left.
pub proof fn lemma_token_count(s: Seq<char>, p: int)
    requires
        0 <= p <= s.len(),
    ensures
        lex_from(s, p).len() <= s.len() - p,
    decreases s.len() - p,
{
    if p < s.len() {
        lemma_span_bounds(s, p);
        lemma_token_count(s, span_at(s, p).next);
    }
}

/// A whole text has at most as many tokens as characters, and the empty text
/// has none.
pub proof fn lemma_token_count_of_text(s: Seq<char>)
    ensures
        lex(s).len() <= s.len(),
{
    lemma_token_count(s, 0);
}

/// The tokens partition the text: each token was read from one stretch of
/// it, the stretches follow each other in the order of the tokens, and put
/// together they give the text back, character for character.
pub proof fn lemma_spans_cover_text(s: Seq<char>, p: int)
    requires
        0 <= p <= s.len(),
    ensures
        source_spans(s, p).len() == lex_from(s, p).len(),
        source_spans(s, p).flatten() == s.subrange(p, s.len() as int),
    decreases s.len() - p,
{
    if p < s.len() {
        lemma_span_bounds(s, p);
        let next = span_at(s, p).next;
        lemma_spans_cover_text(s, next);
        assert(source_spans(s, p).drop_first() =~= source_spans(s, next));
    }
}

/// The partition of a whole text: the stretches of its tokens, put together,
/// are the text.
pub proof fn lemma_spans_cover_whole_text(s: Seq<char>)
    ensures
        source_spans(s, 0).len() == lex(s).len(),
        source_spans(s, 0).flatten() == s,
{
    lemma_spans_cover_text(s, 0);
}

/// Replacing a pair that does not occur changes nothing: the rest of a text
/// from `i` on comes back as it is.
pub proof fn lemma_replace_without_pair(s: Seq<char>, i: int, a: char, b: char, with: Seq<char>)
    requires
        0 <= i <= s.len(),
        forall|k: int| i <= k && k + 1 < s.len() ==> !(#[trigger] s[k] == a && s[k + 1] == b),
    ensures
        replace_pair_from(s, i, a, b, with) == s.subrange(i, s.len() as int),
    decreases s.len() - i,
{
    if i < s.len() {
        lemma_replace_without_pair(s, i + 1, a, b, with);
    } else {
    }
}

/// Normalising changes only texts that need it: a text in which no space
/// stands before a space or a hyphen is its own normalised form.
pub proof fn lemma_clean_of_clean_text(s: Seq<char>)
    requires
        forall|k: int|
            0 <= k && k + 1 < s.len() ==> !(#[trigger] s[k] == ' ' && (s[k + 1] == ' ' || s[k + 1]
                == '-')),
    ensures
        clean(s) == s,
{
    lemma_replace_without_pair(s, 0, ' ', ' ', seq![' ']);
    assert(s.subrange(0, s.len() as int) =~= s);
    lemma_replace_without_pair(s, 0, ' ', '-', seq!['~', '-', '-']);
}

/// Normalising the empty text gives the empty text.
pub proof fn lemma_clean_empty()
    ensures
        clean(Seq::<char>::empty()) == Seq::<char>::empty(),
{
}

/// What a token holds comes from its own stretch of the text, in order. The
/// stretch of the token at `p` is made of five parts that follow each other:
/// markup, the characters of its text, markup, the characters of its address,
/// markup. The markup is dropped; the token's text is the normalised form of
/// the second part, and its address is the fourth part as it stands. A part
/// may be empty.
pub proof fn lemma_token_from_span(s: Seq<char>, p: int)
    requires
        0 <= p < s.len(),
    ensures
        p <= span_at(s, p).text_lo <= span_at(s, p).text_hi <= span_at(s, p).url_lo <= span_at(
            s,
            p,
        ).url_hi <= span_at(s, p).next <= s.len(),
        s.subrange(p, span_at(s, p).next) == s.subrange(p, span_at(s, p).text_lo) + s.subrange(
            span_at(s, p).text_lo,
            span_at(s, p).text_hi,
        ) + s.subrange(span_at(s, p).text_hi, span_at(s, p).url_lo) + s.subrange(
            span_at(s, p).url_lo,
            span_at(s, p).url_hi,
        ) + s.subrange(span_at(s, p).url_hi, span_at(s, p).next),
        token_text(token_at(s, p)) == clean(
            s.subrange(span_at(s, p).text_lo, span_at(s, p).text_hi),
        ),
        token_address(token_at(s, p)) == s.subrange(span_at(s, p).url_lo, span_at(s, p).url_hi),
{
    lemma_span_bounds(s, p);
    lemma_clean_empty();
}

/// A text without markup is one token, which holds the whole text in its
/// normalised form: this is so where no character of the text is `#`, `*`,
/// `[` or a line feed and its first characters mark no list item.
pub proof fn lemma_plain_text_is_one_token(s: Seq<char>)
    requires
        s.len() > 0,
        forall|i: int| 0 <= i < s.len() ==> CharClass::Plain.accepts(#[trigger] s[i]),
        mark_at(s, 0) == Mark::Text,
    ensures
        lex(s) == seq![TokenView::Text(clean(s))],
{
    lemma_run_end(s, 0, CharClass::Plain);
    let end = run_end(s, 0, CharClass::Plain);
    assert(s.subrange(0, end) =~= s);
    assert(lex_from(s, end) =~= Seq::<TokenView>::empty());
}

/// A list that is open at the end of the sequence is closed, once: where the
/// last token is a list item, the output ends with that item and, after it,
/// the closing markup of the item's kind of list.
pub proof fn lemma_trailing_list_is_closed(tokens: Seq<TokenView>, text: Seq<char>, numbered: bool)
    requires
        tokens.len() > 0,
        tokens.last() == TokenView::ListItem(text, numbered),
    ensures
        render(tokens) == body(tokens.drop_last()) + transition(
            state_after(tokens.drop_last()),
            tokens.last(),
        ) + item(text) + end_list(numbered),
{
}

/// Where no list is open at the end of the sequence, the end adds nothing:
/// for the empty sequence and for one whose last token is no list item, the
/// output is that of the tokens alone.
pub proof fn lemma_nothing_to_close(tokens: Seq<TokenView>)
    requires
        state_after(tokens) == ListState::Closed,
    ensures
        render(tokens) == body(tokens),
{
}

/// Closing and opening markup is written where a list is closed or opened,
/// and nowhere else: before a token there stands the end of the open list if
/// the token closes it, then the start of a list if the token opens one.
pub proof fn lemma_transition_parts(state: ListState, token: TokenView)
    ensures
        transition(state, token) == (if closes_list(state, token) {
            closing(state)
        } else {
            Seq::<char>::empty()
        }) + (if opens_list(state, token) {
            opening(state_of(token))
        } else {
            Seq::<char>::empty()
        }),
{
}

/// Every list that is opened is closed exactly once. Over the tokens alone,
/// the lists opened are the lists closed and, where the last token is a list
/// item, one more, which is the one that the end of the sequence closes.
pub proof fn lemma_lists_balanced(tokens: Seq<TokenView>)
    ensures
        lists_opened(tokens) == lists_closed(tokens) + if state_after(tokens) is Open {
            1nat
        } else {
            0nat
        },
    decreases tokens.len(),
{
    if tokens.len() > 0 {
        lemma_lists_balanced(tokens.drop_last());
    }
}

/// The output grows token by token: what is written for a sequence with one
/// more token is what was written before, then what the list state before the
/// token demands, then the token's own markup.
pub proof fn lemma_body_push(tokens: Seq<TokenView>, token: TokenView)
    ensures
        body(tokens.push(token)) == body(tokens) + transition(state_after(tokens), token) + markup(
            token,
        ),
        state_after(tokens.push(token)) == state_of(token),
{
    assert(tokens.push(token).drop_last() =~= tokens);
}

} // verus!
