//! The converter: from a sequence of tokens to LaTeX.
//!
//! The output is defined by `render`. Tokens are written one after the other;
//! the only thing carried from one token to the next is the list environment
//! that is open, if any (`ListState`). A list item opens an environment of its
//! kind unless that one is open already; every other token, and the end of
//! the sequence, closes the open environment.

use crate::tokenizer::{tokens_view, Token, TokenView};
use vstd::prelude::*;
use vstd::string::StringExecFns;

verus! {

/// The list environment that is open at some point of the output.
pub enum ListState {
    /// No list is open.
    Closed,
    /// A list is open; the flag says whether it is numbered.
    Open(bool),
}

/// The name of the LaTeX environment of a list.
pub open spec fn environment(numbered: bool) -> Seq<char> {
    if numbered {
        "enumerate"@
    } else {
        "itemize"@
    }
}

/// The markup that opens a list.
pub open spec fn begin_list(numbered: bool) -> Seq<char> {
    "\\begin{"@ + environment(numbered) + "}\n"@
}

/// The markup that closes a list.
pub open spec fn end_list(numbered: bool) -> Seq<char> {
    "\\end{"@ + environment(numbered) + "}\n"@
}

/// The markup that closes whatever list is open: nothing where none is.
pub open spec fn closing(state: ListState) -> Seq<char> {
    match state {
        ListState::Closed => Seq::empty(),
        ListState::Open(numbered) => end_list(numbered),
    }
}

/// The markup of one item of a list.
pub open spec fn item(text: Seq<char>) -> Seq<char> {
    "\\item "@ + text
}

/// The markup that opens a heading of the given level: a sectioning command
/// for the levels 1 to 5, strong emphasis for every other level.
pub open spec fn heading_command(level: u8) -> Seq<char> {
    if level == 1 {
        "\\section{"@
    } else if level == 2 {
        "\\subsection{"@
    } else if level == 3 {
        "\\subsubsection{"@
    } else if level == 4 {
        "\\paragraph{"@
    } else if level == 5 {
        "\\subparagraph{"@
    } else {
        "\\textbf{"@
    }
}

/// The markup of a heading: its command, the text, and a line feed after the
/// closing brace.
pub open spec fn header_markup(text: Seq<char>, level: u8) -> Seq<char> {
    heading_command(level) + text + "}\n"@
}

/// The markup of strong emphasis.
pub open spec fn bold_markup(text: Seq<char>) -> Seq<char> {
    "\\textbf{"@ + text + "}"@
}

/// The markup of emphasis.
pub open spec fn italic_markup(text: Seq<char>) -> Seq<char> {
    "\\textit{"@ + text + "}"@
}

/// The markup of a link: the address first, then the text that is shown.
pub open spec fn link_markup(text: Seq<char>, url: Seq<char>) -> Seq<char> {
    "\\href{"@ + url + "}{"@ + text + "}"@
}

/// The markup of a token by itself, without regard to lists. For a list item
/// this is the item alone.
pub open spec fn markup(token: TokenView) -> Seq<char> {
    match token {
        TokenView::Header(text, level) => header_markup(text, level),
        TokenView::Bold(text) => bold_markup(text),
        TokenView::Italic(text) => italic_markup(text),
        TokenView::Link(text, url) => link_markup(text, url),
        TokenView::ListItem(text, _) => item(text),
        TokenView::Text(text) => text,
        TokenView::Newline => "\n"@,
    }
}

/// The list state that a token leaves behind: a list item leaves a list of
/// its kind open, every other token leaves none.
pub open spec fn state_of(token: TokenView) -> ListState {
    match token {
        TokenView::ListItem(_, numbered) => ListState::Open(numbered),
        _ => ListState::Closed,
    }
}

/// The list state after a sequence of tokens: that of its last token, and
/// `Closed` for the empty sequence.
pub open spec fn state_after(tokens: Seq<TokenView>) -> ListState {
    if tokens.len() == 0 {
        ListState::Closed
    } else {
        state_of(tokens.last())
    }
}

/// The markup that opens the list of a state: nothing for `Closed`.
pub open spec fn opening(state: ListState) -> Seq<char> {
    match state {
        ListState::Closed => Seq::empty(),
        ListState::Open(numbered) => begin_list(numbered),
    }
}

/// What is written before a token that is met in the given list state.
/// Where the token leaves the state as it is, this is nothing: an item of the
/// list that is open goes on with it. Where the state changes, the open
/// list is closed and the list of the token, if it is an item, is opened.
pub open spec fn transition(state: ListState, token: TokenView) -> Seq<char> {
    if state == state_of(token) {
        Seq::empty()
    } else {
        closing(state) + opening(state_of(token))
    }
}

/// The output for one token that is met in the given list state.
pub open spec fn emit(state: ListState, token: TokenView) -> Seq<char> {
    transition(state, token) + markup(token)
}

/// The output for a sequence of tokens before the end of the sequence is
/// known: a list that the last token left open is still open.
pub open spec fn body(tokens: Seq<TokenView>) -> Seq<char>
    decreases tokens.len(),
{
    if tokens.len() == 0 {
        Seq::empty()
    } else {
        body(tokens.drop_last()) + emit(state_after(tokens.drop_last()), tokens.last())
    }
}

/// The LaTeX for a sequence of tokens: the output for each token in turn,
/// then the end of the list that is still open, if one is.
pub open spec fn render(tokens: Seq<TokenView>) -> Seq<char> {
    body(tokens) + closing(state_after(tokens))
}

/// The state of a conversion: whether a list is open, and the kind of the
/// list that was opened last (`true` for a numbered one).
pub struct LatexConverter {
    in_list: bool,
    list_type: Option<bool>,
}

impl LatexConverter {
    /// The list state that the converter is in.
    pub closed spec fn state(&self) -> ListState {
        if self.in_list {
            match self.list_type {
                Some(numbered) => ListState::Open(numbered),
                None => ListState::Open(false),
            }
        } else {
            ListState::Closed
        }
    }

    #[verifier::type_invariant]
    spec fn kind_known(&self) -> bool {
        self.in_list ==> self.list_type is Some
    }

    /// Converts a sequence of tokens into LaTeX.
    pub fn convert(tokens: Vec<Token>) -> (latex: String)
        ensures
            latex@ == render(tokens_view(tokens@)),
    {
        let mut converter = LatexConverter { in_list: false, list_type: None };
        let mut latex = String::new();
        let ghost all = tokens_view(tokens@);
        let mut i: usize = 0;
        while i < tokens.len()
            invariant
                i <= tokens.len(),
                all == tokens_view(tokens@),
                latex@ == body(all.take(i as int)),
                converter.state() == state_after(all.take(i as int)),
            decreases tokens.len() - i,
        {
            proof {
                assert(all.take(i + 1).drop_last() =~= all.take(i as int));
            }
            let piece = match &tokens[i] {
                Token::Header(text, level) => {
                    let close = converter.close_list_if_needed();
                    close.concat(Self::convert_header(text.as_str(), *level).as_str())
                },
                Token::Bold(text) => {
                    let close = converter.close_list_if_needed();
                    close.concat(Self::convert_bold(text.as_str()).as_str())
                },
                Token::Italic(text) => {
                    let close = converter.close_list_if_needed();
                    close.concat(Self::convert_italic(text.as_str()).as_str())
                },
                Token::Link(text, url) => {
                    let close = converter.close_list_if_needed();
                    close.concat(Self::convert_link(text.as_str(), url.as_str()).as_str())
                },
                Token::ListItem(text, is_numbered) => converter.convert_list_item(
                    text.as_str(),
                    *is_numbered,
                ),
                Token::Text(text) => {
                    let close = converter.close_list_if_needed();
                    close.concat(text.as_str())
                },
                Token::Newline => {
                    let close = converter.close_list_if_needed();
                    close.concat("\n")
                },
            };
            latex.append(piece.as_str());
            i = i + 1;
        }
        assert(all.take(tokens.len() as int) =~= all);
        let close = converter.close_list_if_needed();
        latex.concat(close.as_str())
    }

    /// The markup of a heading.
    fn convert_header(text: &str, level: u8) -> (r: String)
        ensures
            r@ == header_markup(text@, level),
    {
        let command = if level == 1 {
            "\\section{"
        } else if level == 2 {
            "\\subsection{"
        } else if level == 3 {
            "\\subsubsection{"
        } else if level == 4 {
            "\\paragraph{"
        } else if level == 5 {
            "\\subparagraph{"
        } else {
            "\\textbf{"
        };
        String::from_str(command).concat(text).concat("}\n")
    }

    /// The markup of strong emphasis.
    fn convert_bold(text: &str) -> (r: String)
        ensures
            r@ == bold_markup(text@),
    {
        String::from_str("\\textbf{").concat(text).concat("}")
    }

    /// The markup of emphasis.
    fn convert_italic(text: &str) -> (r: String)
        ensures
            r@ == italic_markup(text@),
    {
        String::from_str("\\textit{").concat(text).concat("}")
    }

    /// The markup of a link.
    fn convert_link(text: &str, url: &str) -> (r: String)
        ensures
            r@ == link_markup(text@, url@),
    {
        String::from_str("\\href{").concat(url).concat("}{").concat(text).concat("}")
    }

    /// The name of the environment of a list.
    fn environment_name(numbered: bool) -> (r: &'static str)
        ensures
            r@ == environment(numbered),
    {
        if numbered {
            "enumerate"
        } else {
            "itemize"
        }
    }

    /// The output for a list item: the item, and before it whatever closes
    /// the list of another kind and opens the item's own. The item's list is
    /// open afterwards.
    fn convert_list_item(&mut self, text: &str, is_numbered: bool) -> (r: String)
        ensures
            r@ == emit(old(self).state(), TokenView::ListItem(text@, is_numbered)),
            final(self).state() == ListState::Open(is_numbered),
    {
        proof {
            use_type_invariant(&*self);
        }
        let same_kind = match self.list_type {
            Some(open) => self.in_list && open == is_numbered,
            None => false,
        };
        if same_kind {
            let r = String::from_str("\\item ").concat(text);
            r
        } else {
            let close = self.close_list_if_needed();
            self.list_type = Some(is_numbered);
            self.in_list = true;
            let r = close.concat("\\begin{").concat(Self::environment_name(is_numbered)).concat(
                "}\n",
            ).concat("\\item ").concat(text);
            r
        }
    }

    /// The markup that closes the open list, or nothing where none is open.
    /// No list is open afterwards.
    fn close_list_if_needed(&mut self) -> (r: String)
        ensures
            r@ == closing(old(self).state()),
            final(self).state() == ListState::Closed,
    {
        proof {
            use_type_invariant(&*self);
        }
        if self.in_list {
            self.in_list = false;
            let numbered = match self.list_type {
                Some(numbered) => numbered,
                None => false,
            };
            String::from_str("\\end{").concat(Self::environment_name(numbered)).concat("}\n")
        } else {
            String::new()
        }
    }
}

} // verus!
