//! Text: the case and whitespace functions of the standard library, and
//! splitting at commas.

use vstd::prelude::*;

verus! {

/// The lowercase form of a text as `str::to_lowercase` gives it.
pub uninterp spec fn lowercase_of(text: Seq<char>) -> Seq<char>;

/// The uppercase form of a text as `str::to_uppercase` gives it.
pub uninterp spec fn uppercase_of(text: Seq<char>) -> Seq<char>;

/// A text without the whitespace at its two ends, as `str::trim` gives it.
pub uninterp spec fn trimmed(text: Seq<char>) -> Seq<char>;

/// `str::to_lowercase`: the lowercase form of `text` by the rules of
/// Unicode. The contract gives the result its name and says no more of it.
#[verifier::external_body]
pub(crate) fn to_lowercase(text: &str) -> (lower: String)
    ensures
        lower@ == lowercase_of(text@),
{
    text.to_lowercase()
}

/// `str::to_uppercase`: the uppercase form of `text` by the rules of
/// Unicode. The contract gives the result its name and says no more of it.
#[verifier::external_body]
pub(crate) fn to_uppercase(text: &str) -> (upper: String)
    ensures
        upper@ == uppercase_of(text@),
{
    text.to_uppercase()
}

/// `str::trim`: the part of `text` between the whitespace, as Unicode
/// defines it, at its two ends. The contract gives the result its name and
/// says no more of it.
#[verifier::external_body]
pub(crate) fn trim(text: &str) -> (inner: &str)
    ensures
        inner@ == trimmed(text@),
{
    text.trim()
}

/// The ASCII uppercase form of a character: `a` to `z` become `A` to `Z`,
/// every other character is itself.
pub open spec fn ascii_upper(c: char) -> char {
    if 'a' <= c && c <= 'z' {
        ((c as u32) - 32) as char
    } else {
        c
    }
}

/// The ASCII uppercase form of a text, character by character.
pub open spec fn ascii_uppercase_of(text: Seq<char>) -> Seq<char> {
    Seq::new(text.len(), |i: int| ascii_upper(text[i]))
}

/// `str::to_ascii_uppercase`: a copy of `text` in which the ASCII letters
/// `a` to `z` are `A` to `Z` and every other character is unchanged.
#[verifier::external_body]
pub(crate) fn to_ascii_uppercase(text: &str) -> (upper: String)
    ensures
        upper@ == ascii_uppercase_of(text@),
{
    text.to_ascii_uppercase()
}

/// Whether two texts are the same.
pub fn same_text(a: &str, b: &str) -> (same: bool)
    ensures
        same == (a@ == b@),
{
    let left = a.to_owned();
    let right = b.to_owned();
    left == right
}

/// The texts of a list of strings.
pub open spec fn texts(strings: Seq<String>) -> Seq<Seq<char>> {
    Seq::new(strings.len(), |i: int| strings[i]@)
}

/// The text of an optional string slice.
pub open spec fn optional_text(text: Option<&str>) -> Option<Seq<char>> {
    match text {
        Some(inner) => Some(inner@),
        None => None,
    }
}

/// The pieces of a text between its commas, in order: one piece more than
/// there are commas, each without a comma, empty pieces included.
pub open spec fn split_commas(text: Seq<char>) -> Seq<Seq<char>>
    decreases text.len(),
{
    if text.len() == 0 {
        seq![Seq::<char>::empty()]
    } else {
        let before = split_commas(text.drop_last());
        if text.last() == ',' {
            before.push(Seq::<char>::empty())
        } else {
            before.drop_last().push(before.last().push(text.last()))
        }
    }
}

/// A text always has a piece.
pub proof fn lemma_split_has_pieces(text: Seq<char>)
    ensures
        split_commas(text).len() >= 1,
    decreases text.len(),
{
    if text.len() > 0 {
        lemma_split_has_pieces(text.drop_last());
    }
}

/// No piece holds a comma.
pub proof fn lemma_pieces_hold_no_comma(text: Seq<char>, i: int)
    requires
        0 <= i < split_commas(text).len(),
    ensures
        !split_commas(text)[i].contains(','),
    decreases text.len(),
{
    if text.len() > 0 {
        let before = split_commas(text.drop_last());
        lemma_split_has_pieces(text.drop_last());
        if i < before.len() - 1 || (i < before.len() && text.last() == ',') {
            lemma_pieces_hold_no_comma(text.drop_last(), i);
        } else if text.last() != ',' {
            lemma_pieces_hold_no_comma(text.drop_last(), before.len() - 1);
            let piece = before.last().push(text.last());
            assert forall|j: int| 0 <= j < piece.len() implies piece[j] != ',' by {
                if j < before.last().len() {
                    assert(before.last().contains(before.last()[j]));
                }
            }
        }
    }
}

/// The pieces with a comma between each two.
pub open spec fn join_commas(pieces: Seq<Seq<char>>) -> Seq<char>
    decreases pieces.len(),
{
    if pieces.len() == 0 {
        Seq::<char>::empty()
    } else if pieces.len() == 1 {
        pieces[0]
    } else {
        join_commas(pieces.drop_last()) + seq![','] + pieces.last()
    }
}

/// The pieces of a text, with the commas back between them, are the text.
pub proof fn lemma_join_of_split(text: Seq<char>)
    ensures
        join_commas(split_commas(text)) == text,
    decreases text.len(),
{
    if text.len() > 0 {
        let head = text.drop_last();
        let before = split_commas(head);
        lemma_split_has_pieces(head);
        lemma_join_of_split(head);
        assert(text =~= head.push(text.last()));
        if text.last() == ',' {
            assert(before.push(Seq::<char>::empty()).drop_last() =~= before);
        } else if before.len() > 1 {
            let grown = before.last().push(text.last());
            assert(before.drop_last().push(grown).drop_last() =~= before.drop_last());
            assert(join_commas(before) == join_commas(before.drop_last()) + seq![',']
                + before.last());
        }
    }
}

/// Splits a text at its commas.
pub fn split_at_commas(text: &str) -> (pieces: Vec<String>)
    ensures
        texts(pieces@) == split_commas(text@),
{
    let n = text.unicode_len();
    let mut pieces: Vec<String> = Vec::new();
    let mut start: usize = 0;
    let mut i: usize = 0;
    assert(text@.subrange(0, 0) =~= Seq::<char>::empty());
    while i < n
        invariant
            n == text@.len(),
            start <= i <= n,
            split_commas(text@.subrange(0, i as int)) == texts(pieces@).push(
                text@.subrange(start as int, i as int),
            ),
        decreases n - i,
    {
        let c = text.get_char(i);
        let ghost open = text@.subrange(start as int, i as int);
        assert(text@.subrange(0, i + 1).drop_last() =~= text@.subrange(0, i as int));
        if c == ',' {
            pieces.push(text.substring_char(start, i).to_owned());
            start = i + 1;
            assert(text@.subrange(start as int, i + 1) =~= Seq::<char>::empty());
        } else {
            assert(text@.subrange(start as int, i + 1) =~= open.push(c));
        }
        i = i + 1;
    }
    pieces.push(text.substring_char(start, n).to_owned());
    assert(text@.subrange(0, n as int) =~= text@);
    pieces
}

} // verus!
