//! Character classes and the scanning of runs of characters.

use vstd::prelude::*;

verus! {

/// Whether a character has the Unicode `White_Space` property. This is the
/// answer of `char::is_whitespace`, which is taken from the standard library
/// and not defined here.
pub uninterp spec fn white_space(c: char) -> bool;

/// `char::is_whitespace` of the standard library: it reports whether the
/// character has the Unicode `White_Space` property. Nothing is proved of it;
/// its answer is what the contracts of this crate call `white_space`.
pub assume_specification[ char::is_whitespace ](c: char) -> (r: bool)
    ensures
        r == white_space(c),
;

/// `String::push` of the standard library: it appends one character to the end
/// of the string and leaves the characters before it as they were.
pub assume_specification[ String::push ](s: &mut String, c: char)
    ensures
        final(s)@ == old(s)@.push(c),
;

/// Whether a character is one of the ASCII digits `0` to `9`.
pub open spec fn is_ascii_digit(c: char) -> bool {
    '0' <= c && c <= '9'
}

/// A set of characters that a scan accepts.
#[derive(Clone, Copy, Debug)]
pub enum CharClass {
    /// The given character and no other.
    Is(char),
    /// Every character but the given one.
    Not(char),
    /// The ASCII digits.
    Digit,
    /// Every character that cannot start markup inside running text: all but
    /// `#`, `*`, `[` and the line feed.
    Plain,
    /// The characters with the Unicode `White_Space` property.
    Space,
}

impl CharClass {
    /// Whether the class holds the character.
    pub open spec fn accepts(self, c: char) -> bool {
        match self {
            CharClass::Is(x) => c == x,
            CharClass::Not(x) => c != x,
            CharClass::Digit => is_ascii_digit(c),
            CharClass::Plain => c != '#' && c != '*' && c != '[' && c != '\n',
            CharClass::Space => white_space(c),
        }
    }

    /// Tests a character against the class.
    pub fn test(&self, c: char) -> (r: bool)
        ensures
            r == self.accepts(c),
    {
        match self {
            CharClass::Is(x) => c == *x,
            CharClass::Not(x) => c != *x,
            CharClass::Digit => '0' <= c && c <= '9',
            CharClass::Plain => c != '#' && c != '*' && c != '[' && c != '\n',
            CharClass::Space => c.is_whitespace(),
        }
    }
}

/// The end of the longest run of characters of `class` that starts at `p`:
/// the first position from `p` on whose character the class does not hold, or
/// the length of `s` where there is none. A `p` outside of `s` is its own end.
pub open spec fn run_end(s: Seq<char>, p: int, class: CharClass) -> int
    decreases s.len() - p,
{
    if 0 <= p < s.len() && class.accepts(s[p]) {
        run_end(s, p + 1, class)
    } else {
        p
    }
}

/// The start of the trailing run of white space in `s[lo..hi]`: the least
/// position from which on every character up to `hi` is white space.
pub open spec fn trimmed_end(s: Seq<char>, lo: int, hi: int) -> int
    decreases hi - lo,
{
    if lo < hi <= s.len() && white_space(s[hi - 1]) {
        trimmed_end(s, lo, hi - 1)
    } else {
        hi
    }
}

/// The position after `p`, but never beyond the end of `s`.
pub open spec fn step(s: Seq<char>, p: int) -> int {
    if p < s.len() {
        p + 1
    } else {
        p
    }
}

/// A run ends between its start and the end of the text, holds only
/// characters of its class, and stops at a character that is not of it.
pub proof fn lemma_run_end(s: Seq<char>, p: int, class: CharClass)
    requires
        0 <= p <= s.len(),
    ensures
        p <= run_end(s, p, class) <= s.len(),
        forall|i: int| p <= i < run_end(s, p, class) ==> class.accepts(#[trigger] s[i]),
        run_end(s, p, class) < s.len() ==> !class.accepts(s[run_end(s, p, class)]),
    decreases s.len() - p,
{
    if p < s.len() && class.accepts(s[p]) {
        lemma_run_end(s, p + 1, class);
    }
}

/// Trimming leaves a position between the two bounds, before only white space,
/// and after a character that is not white space.
pub proof fn lemma_trimmed_end(s: Seq<char>, lo: int, hi: int)
    requires
        0 <= lo <= hi <= s.len(),
    ensures
        lo <= trimmed_end(s, lo, hi) <= hi,
        forall|i: int| trimmed_end(s, lo, hi) <= i < hi ==> white_space(#[trigger] s[i]),
        lo < trimmed_end(s, lo, hi) ==> !white_space(s[trimmed_end(s, lo, hi) - 1]),
    decreases hi - lo,
{
    if lo < hi && white_space(s[hi - 1]) {
        lemma_trimmed_end(s, lo, hi - 1);
    }
}

} // verus!
