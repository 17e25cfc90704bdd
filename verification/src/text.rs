//! Text as sequences of characters: the conversions and the small
//! operations on them that the providers need.

use vstd::prelude::*;

verus! {

/// `String::push` appends one character to the end of the string.
pub assume_specification[ String::push ](text: &mut String, c: char)
    ensures
        final(text)@ == old(text)@.push(c),
;

/// Whether `c` is white space, as `char::is_whitespace` decides it.
pub uninterp spec fn white_space(c: char) -> bool;

/// `char::is_whitespace` tells whether a character has the Unicode property
/// `White_Space`; the answer depends on the character alone.
pub assume_specification[ char::is_whitespace ](c: char) -> (r: bool)
    ensures
        r == white_space(c),
;

/// Whether `c` is a letter, as `char::is_alphabetic` decides it.
pub uninterp spec fn alphabetic(c: char) -> bool;

/// `char::is_alphabetic` tells whether a character has the Unicode property
/// `Alphabetic`; the answer depends on the character alone.
pub assume_specification[ char::is_alphabetic ](c: char) -> (r: bool)
    ensures
        r == alphabetic(c),
;

/// The model of a text that may be missing.
pub open spec fn option_text(text: Option<String>) -> Option<Seq<char>> {
    match text {
        Some(t) => Some(t@),
        None => None,
    }
}

/// The characters of `text`, in order.
pub fn chars_of(text: &str) -> (r: Vec<char>)
    ensures
        r@ == text@,
{
    let mut out: Vec<char> = Vec::new();
    for c in it: text.chars()
        invariant
            it.seq() == text@,
            out@ == text@.take(it.index() as int),
    {
        out.push(c);
        assert(text@.take(it.index() + 1) =~= text@.take(it.index() as int).push(c));
    }
    assert(text@.take(text@.len() as int) =~= text@);
    out
}

/// The text made of the characters `chars[from..to]`.
pub fn string_of(chars: &Vec<char>, from: usize, to: usize) -> (r: String)
    requires
        from <= to <= chars@.len(),
    ensures
        r@ == chars@.subrange(from as int, to as int),
{
    let mut out = String::new();
    let mut i: usize = from;
    while i < to
        invariant
            from <= i <= to <= chars@.len(),
            out@ == chars@.subrange(from as int, i as int),
        decreases to - i,
    {
        out.push(chars[i]);
        assert(chars@.subrange(from as int, i + 1) =~= chars@.subrange(from as int, i as int).push(
            chars@[i as int],
        ));
        i += 1;
    }
    out
}

/// Length of the first piece of `text`: up to and with the first
/// `separator`, or all of `text` where there is none.
pub open spec fn first_piece_len(text: Seq<char>, separator: char) -> nat
    decreases text.len(),
{
    if text.len() == 0 {
        0
    } else if text[0] == separator {
        1
    } else {
        1 + first_piece_len(text.drop_first(), separator)
    }
}

/// `text` cut behind each `separator`. Every piece but the last ends with
/// the separator; the last does where `text` does. No piece is empty, and
/// the pieces joined give `text` again.
pub open spec fn split_inclusive(text: Seq<char>, separator: char) -> Seq<Seq<char>>
    decreases text.len(),
{
    if text.len() == 0 {
        Seq::empty()
    } else {
        let n = first_piece_len(text, separator) as int;
        proof {
            lemma_first_piece_bounds(text, separator);
        }
        seq![text.take(n)] + split_inclusive(text.skip(n), separator)
    }
}

/// The first piece of a text that is not empty is not empty, and no longer
/// than the text.
pub proof fn lemma_first_piece_bounds(text: Seq<char>, separator: char)
    ensures
        first_piece_len(text, separator) <= text.len(),
        text.len() > 0 ==> first_piece_len(text, separator) > 0,
    decreases text.len(),
{
    if text.len() > 0 && text[0] != separator {
        lemma_first_piece_bounds(text.drop_first(), separator);
    }
}

/// The first piece ends with the first separator and holds none before it;
/// where it ends before the text does, it ends with a separator.
pub proof fn lemma_first_piece_shape(text: Seq<char>, separator: char)
    ensures
        ({
            let n = first_piece_len(text, separator) as int;
            &&& forall|j: int| 0 <= j < n - 1 ==> text[j] != separator
            &&& n < text.len() ==> text[n - 1] == separator
        }),
    decreases text.len(),
{
    lemma_first_piece_bounds(text, separator);
    if text.len() > 0 && text[0] != separator {
        let rest = text.drop_first();
        lemma_first_piece_shape(rest, separator);
        lemma_first_piece_bounds(rest, separator);
        let n = first_piece_len(text, separator) as int;
        assert forall|j: int| 0 <= j < n - 1 implies text[j] != separator by {
            if j > 0 {
                assert(text[j] == rest[j - 1]);
            }
        }
        if n < text.len() {
            assert(text[n - 1] == rest[n - 2]);
        }
    }
}

/// The pieces of a text are not empty and give the text again when joined.
/// A piece holds the separator at its end only, and every piece but the
/// last does hold it there.
pub proof fn law_split_keeps_the_text(text: Seq<char>, separator: char)
    ensures
        ({
            let pieces = split_inclusive(text, separator);
            &&& pieces.flatten() == text
            &&& forall|k: int| 0 <= k < pieces.len() ==> (#[trigger] pieces[k]).len() > 0
            &&& forall|k: int|
                0 <= k < pieces.len() - 1 ==> (#[trigger] pieces[k]).last() == separator
            &&& forall|k: int, j: int|
                0 <= k < pieces.len() && 0 <= j < pieces[k].len() - 1 ==> (#[trigger] pieces[k][j])
                    != separator
        }),
    decreases text.len(),
{
    let pieces = split_inclusive(text, separator);
    if text.len() == 0 {
        assert(pieces.flatten() =~= text);
    } else {
        let n = first_piece_len(text, separator) as int;
        lemma_first_piece_bounds(text, separator);
        lemma_first_piece_shape(text, separator);
        let first = text.take(n);
        let rest = split_inclusive(text.skip(n), separator);
        law_split_keeps_the_text(text.skip(n), separator);
        assert(pieces.first() == first);
        assert(pieces.drop_first() =~= rest);
        assert(pieces.flatten() =~= first + rest.flatten());
        assert(first + text.skip(n) =~= text);
        assert forall|k: int| 0 <= k < pieces.len() implies (#[trigger] pieces[k]).len() > 0 by {
            if k > 0 {
                assert(pieces[k] == rest[k - 1]);
            }
        }
        assert forall|k: int| 0 <= k < pieces.len() - 1 implies (#[trigger] pieces[k]).last()
            == separator by {
            if k > 0 {
                assert(pieces[k] == rest[k - 1]);
            } else {
                assert(rest.len() > 0);
                assert(n < text.len());
            }
        }
        assert forall|k: int, j: int|
            0 <= k < pieces.len() && 0 <= j < pieces[k].len() - 1 implies (#[trigger] pieces[k][j])
            != separator by {
            if k > 0 {
                assert(pieces[k] == rest[k - 1]);
                assert(rest[k - 1][j] != separator);
            }
        }
    }
}

/// `text` without the white space at its start.
pub open spec fn trim_start(text: Seq<char>) -> Seq<char>
    decreases text.len(),
{
    if text.len() > 0 && white_space(text[0]) {
        trim_start(text.drop_first())
    } else {
        text
    }
}

/// `text` without the white space at its end.
pub open spec fn trim_end(text: Seq<char>) -> Seq<char>
    decreases text.len(),
{
    if text.len() > 0 && white_space(text.last()) {
        trim_end(text.drop_last())
    } else {
        text
    }
}

/// `text` without the white space at its start and at its end.
pub open spec fn trim(text: Seq<char>) -> Seq<char> {
    trim_end(trim_start(text))
}

/// A piece that holds the separator at `k` and nowhere before ends there.
pub proof fn lemma_first_piece_at_separator(text: Seq<char>, separator: char, k: int)
    requires
        0 <= k < text.len(),
        text[k] == separator,
        forall|j: int| 0 <= j < k ==> text[j] != separator,
    ensures
        first_piece_len(text, separator) == k + 1,
    decreases k,
{
    if k > 0 {
        let rest = text.drop_first();
        assert forall|j: int| 0 <= j < k - 1 implies rest[j] != separator by {
            assert(rest[j] == text[j + 1]);
        }
        lemma_first_piece_at_separator(rest, separator, k - 1);
    }
}

/// A text without the separator is one piece.
pub proof fn lemma_first_piece_without_separator(text: Seq<char>, separator: char)
    requires
        forall|j: int| 0 <= j < text.len() ==> text[j] != separator,
    ensures
        first_piece_len(text, separator) == text.len(),
    decreases text.len(),
{
    if text.len() > 0 {
        let rest = text.drop_first();
        assert forall|j: int| 0 <= j < rest.len() implies rest[j] != separator by {
            assert(rest[j] == text[j + 1]);
        }
        lemma_first_piece_without_separator(rest, separator);
    }
}

/// The text `chars[from..to]` without the white space at its two ends.
pub fn trimmed(chars: &Vec<char>, from: usize, to: usize) -> (r: String)
    requires
        from <= to <= chars@.len(),
    ensures
        r@ == trim(chars@.subrange(from as int, to as int)),
{
    let mut a: usize = from;
    while a < to && chars[a].is_whitespace()
        invariant
            from <= a <= to <= chars@.len(),
            trim_start(chars@.subrange(from as int, to as int)) == trim_start(
                chars@.subrange(a as int, to as int),
            ),
        decreases to - a,
    {
        assert(chars@.subrange(a as int, to as int).drop_first() =~= chars@.subrange(
            a + 1,
            to as int,
        ));
        a += 1;
    }
    let mut b: usize = to;
    while a < b && chars[b - 1].is_whitespace()
        invariant
            a <= b <= to <= chars@.len(),
            trim_end(chars@.subrange(a as int, to as int)) == trim_end(
                chars@.subrange(a as int, b as int),
            ),
        decreases b - a,
    {
        assert(chars@.subrange(a as int, b as int).drop_last() =~= chars@.subrange(
            a as int,
            b - 1,
        ));
        b -= 1;
    }
    string_of(chars, a, b)
}

/// The pieces of `text`, cut behind each `separator`, each without the
/// white space at its two ends.
pub fn split_trimmed(text: &str, separator: char) -> (r: Vec<String>)
    ensures
        r@.len() == split_inclusive(text@, separator).len(),
        forall|k: int|
            0 <= k < r@.len() ==> (#[trigger] r@[k])@ == trim(split_inclusive(text@, separator)[k]),
{
    let chars = chars_of(text);
    let n: usize = chars.len();
    let mut out: Vec<String> = Vec::new();
    let mut start: usize = 0;
    let mut i: usize = 0;
    let ghost pieces: Seq<Seq<char>> = Seq::empty();
    assert(chars@.skip(0) =~= chars@);
    while i < n
        invariant
            start <= i <= n == chars@.len(),
            chars@ == text@,
            split_inclusive(chars@, separator) == pieces + split_inclusive(
                chars@.skip(start as int),
                separator,
            ),
            forall|j: int| start <= j < i ==> chars@[j] != separator,
            out@.len() == pieces.len(),
            forall|k: int| 0 <= k < out@.len() ==> (#[trigger] out@[k])@ == trim(pieces[k]),
        decreases n - i,
    {
        if chars[i] == separator {
            let piece = trimmed(&chars, start, i + 1);
            proof {
                let rest = chars@.skip(start as int);
                assert forall|j: int| 0 <= j < i - start implies rest[j] != separator by {
                    assert(rest[j] == chars@[start + j]);
                }
                lemma_first_piece_at_separator(rest, separator, i - start);
                assert(rest.take(i + 1 - start) =~= chars@.subrange(start as int, i + 1));
                assert(rest.skip(i + 1 - start) =~= chars@.skip(i + 1));
                let cut = chars@.subrange(start as int, i + 1);
                assert(split_inclusive(rest, separator) == seq![cut] + split_inclusive(
                    chars@.skip(i + 1),
                    separator,
                ));
                assert(pieces + (seq![cut] + split_inclusive(chars@.skip(i + 1), separator))
                    =~= pieces.push(cut) + split_inclusive(chars@.skip(i + 1), separator));
                pieces = pieces.push(cut);
            }
            out.push(piece);
            start = i + 1;
        }
        i += 1;
    }
    if start < n {
        let piece = trimmed(&chars, start, n);
        proof {
            let rest = chars@.skip(start as int);
            assert forall|j: int| 0 <= j < rest.len() implies rest[j] != separator by {
                assert(rest[j] == chars@[start + j]);
            }
            lemma_first_piece_without_separator(rest, separator);
            assert(rest.take(rest.len() as int) =~= rest);
            assert(rest.skip(rest.len() as int) =~= Seq::<char>::empty());
            assert(rest =~= chars@.subrange(start as int, n as int));
            assert(split_inclusive(rest.skip(rest.len() as int), separator)
                =~= Seq::<Seq<char>>::empty());
            assert(split_inclusive(rest, separator) =~= seq![rest]);
            assert(pieces + seq![rest] =~= pieces.push(rest));
            pieces = pieces.push(rest);
        }
        out.push(piece);
    } else {
        proof {
            assert(chars@.skip(start as int).len() == 0);
            assert(pieces + Seq::<Seq<char>>::empty() =~= pieces);
        }
    }
    out
}

} // verus!
