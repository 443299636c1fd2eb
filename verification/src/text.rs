//! The normalisation that is applied to the text of a token, and the
//! conversion of characters into strings.

use vstd::prelude::*;

verus! {

/// The text `s[i..]` in which every occurrence of the pair `a`, `b` is
/// replaced by `with`. Occurrences are found from left to right and do not
/// overlap: after a replaced pair the search goes on behind it.
pub open spec fn replace_pair_from(s: Seq<char>, i: int, a: char, b: char, with: Seq<char>) -> Seq<
    char,
>
    decreases s.len() - i,
{
    if i < 0 || i >= s.len() {
        Seq::empty()
    } else if i + 1 < s.len() && s[i] == a && s[i + 1] == b {
        with + replace_pair_from(s, i + 2, a, b, with)
    } else {
        seq![s[i]] + replace_pair_from(s, i + 1, a, b, with)
    }
}

/// The text `s` in which every occurrence of the pair `a`, `b` is replaced by
/// `with`, left to right and without overlap.
pub open spec fn replace_pair(s: Seq<char>, a: char, b: char, with: Seq<char>) -> Seq<char> {
    replace_pair_from(s, 0, a, b, with)
}

/// The normalised form of a text: first every pair of spaces becomes one
/// space, then every space that a hyphen follows becomes `~--` together with
/// that hyphen. Each replacement is one pass from left to right, so three
/// spaces in a row leave two.
pub open spec fn clean(s: Seq<char>) -> Seq<char> {
    replace_pair(replace_pair(s, ' ', ' ', seq![' ']), ' ', '-', seq!['~', '-', '-'])
}

/// Appends the characters of `src` to `out`.
pub fn push_all(out: &mut Vec<char>, src: &Vec<char>)
    ensures
        final(out)@ == old(out)@ + src@,
{
    let mut i: usize = 0;
    while i < src.len()
        invariant
            i <= src.len(),
            out@ == old(out)@ + src@.take(i as int),
        decreases src.len() - i,
    {
        out.push(src[i]);
        i = i + 1;
    }
}

/// Replaces every occurrence of the pair `a`, `b` in `text` by `with`.
pub fn replace_pair_in(text: &Vec<char>, a: char, b: char, with: &Vec<char>) -> (r: Vec<char>)
    ensures
        r@ == replace_pair(text@, a, b, with@),
{
    let mut out: Vec<char> = Vec::new();
    let mut i: usize = 0;
    while i < text.len()
        invariant
            i <= text.len(),
            out@ + replace_pair_from(text@, i as int, a, b, with@) == replace_pair(
                text@,
                a,
                b,
                with@,
            ),
        decreases text.len() - i,
    {
        if i + 1 < text.len() && text[i] == a && text[i + 1] == b {
            push_all(&mut out, with);
            i = i + 2;
        } else {
            out.push(text[i]);
            i = i + 1;
        }
    }
    out
}

/// Builds the string that holds the characters `text[lo..hi]`.
pub fn string_of(text: &Vec<char>, lo: usize, hi: usize) -> (r: String)
    requires
        lo <= hi <= text.len(),
    ensures
        r@ == text@.subrange(lo as int, hi as int),
{
    let mut out = String::new();
    let mut i: usize = lo;
    while i < hi
        invariant
            lo <= i <= hi <= text.len(),
            out@ == text@.subrange(lo as int, i as int),
        decreases hi - i,
    {
        out.push(text[i]);
        i = i + 1;
    }
    out
}

/// Normalises a text: doubled spaces are collapsed, and a space before a
/// hyphen becomes the LaTeX dash `~--`.
pub fn clean_chars(text: &Vec<char>) -> (r: String)
    ensures
        r@ == clean(text@),
{
    let space: Vec<char> = vec![' '];
    let dash: Vec<char> = vec!['~', '-', '-'];
    let collapsed = replace_pair_in(text, ' ', ' ', &space);
    let dashed = replace_pair_in(&collapsed, ' ', '-', &dash);
    assert(space@ =~= seq![' ']);
    string_of(&dashed, 0, dashed.len())
}

} // verus!
