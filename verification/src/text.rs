//! Text handling on sequences of characters: splitting on a separator,
//! removing every occurrence of a pattern, upper-casing.

use vstd::prelude::*;
use vstd::utf8::is_ascii_chars;

verus! {

/// The upper-case form of a text under the Unicode case mapping.
pub uninterp spec fn uppercase_of(text: Seq<char>) -> Seq<char>;

/// The upper-case form of an ASCII character: the letters `a` to `z` become
/// `A` to `Z`, every other character stays.
pub open spec fn ascii_upper(c: char) -> char {
    if 'a' <= c <= 'z' {
        ((c as u8) - 32) as u8 as char
    } else {
        c
    }
}

/// A text with each character in its ASCII upper-case form.
pub open spec fn ascii_uppercase(text: Seq<char>) -> Seq<char> {
    text.map_values(|c: char| ascii_upper(c))
}

/// `str::to_uppercase`: the result is the Unicode upper-case mapping of the
/// argument, a function of the argument alone. On a text of ASCII characters
/// that mapping turns the letters `a` to `z` into `A` to `Z` and changes
/// nothing else.
#[verifier::external_body]
pub(crate) fn to_uppercase(text: &str) -> (upper: String)
    ensures
        upper@ == uppercase_of(text@),
        is_ascii_chars(text@) ==> upper@ == ascii_uppercase(text@),
{
    text.to_uppercase()
}

/// `String::push`: appends one character to the end of the string.
#[verifier::external_body]
pub(crate) fn push_char(text: &mut String, c: char)
    ensures
        final(text)@ == old(text)@.push(c),
{
    text.push(c)
}

/// The characters of a text, in order.
pub fn chars_of(text: &str) -> (chars: Vec<char>)
    ensures
        chars@ == text@,
{
    let mut chars: Vec<char> = Vec::new();
    for c in it: text.chars()
        invariant
            chars@ == it.seq().take(it.index() as int),
    {
        chars.push(c);
    }
    chars
}

/// The views of a sequence of strings.
pub open spec fn views(texts: Seq<String>) -> Seq<Seq<char>> {
    texts.map_values(|t: String| t@)
}

/// The text with every occurrence of `pattern` taken out. Occurrences are
/// found from the left and do not overlap; an empty pattern removes nothing.
pub open spec fn without(text: Seq<char>, pattern: Seq<char>) -> Seq<char>
    decreases text.len(),
{
    if pattern.len() == 0 || text.len() < pattern.len() {
        text
    } else if text.take(pattern.len() as int) == pattern {
        without(text.skip(pattern.len() as int), pattern)
    } else {
        seq![text[0]] + without(text.skip(1), pattern)
    }
}

/// The pieces into which the separator cuts a text. A text with `n`
/// separators has `n + 1` pieces, some of them possibly empty.
pub open spec fn split(text: Seq<char>, sep: char) -> Seq<Seq<char>>
    decreases text.len(),
{
    if text.len() == 0 {
        seq![Seq::empty()]
    } else {
        let before = split(text.drop_last(), sep);
        if text.last() == sep {
            before.push(Seq::empty())
        } else {
            before.drop_last().push(before.last().push(text.last()))
        }
    }
}

/// The pieces put together again, with the separator between neighbours.
pub open spec fn join(pieces: Seq<Seq<char>>, sep: char) -> Seq<char>
    decreases pieces.len(),
{
    if pieces.len() == 0 {
        Seq::empty()
    } else if pieces.len() == 1 {
        pieces[0]
    } else {
        join(pieces.drop_last(), sep).push(sep) + pieces.last()
    }
}

/// Splitting loses nothing: there is at least one piece, no piece holds the
/// separator, and joining the pieces gives the text back.
pub proof fn lemma_split_join(text: Seq<char>, sep: char)
    ensures
        split(text, sep).len() >= 1,
        forall|i: int| 0 <= i < split(text, sep).len() ==> !(#[trigger] split(text, sep)[i]).contains(sep),
        join(split(text, sep), sep) == text,
    decreases text.len(),
{
    if text.len() == 0 {
        assert(join(split(text, sep), sep) =~= text);
    } else {
        let rest = text.drop_last();
        let before = split(rest, sep);
        let c = text.last();
        lemma_split_join(rest, sep);
        let now = split(text, sep);
        if c == sep {
            assert(now.drop_last() =~= before);
            assert(join(now, sep) =~= text);
        } else {
            let grown = before.last().push(c);
            assert(now.last() == grown);
            assert(!grown.contains(sep)) by {
                if grown.contains(sep) {
                    let j = choose|j: int| 0 <= j < grown.len() && grown[j] == sep;
                    assert(before.last().contains(grown[j]));
                }
            }
            if before.len() == 1 {
                assert(join(now, sep) =~= text);
            } else {
                assert(now.drop_last() =~= before.drop_last());
                assert(join(now, sep) =~= join(before, sep).push(c));
                assert(join(now, sep) =~= text);
            }
        }
    }
}

/// Where the separator first stands at index `at` (or nowhere, with `at` the
/// length of the text), the first piece is the text before `at`.
pub proof fn lemma_split_first(text: Seq<char>, sep: char, at: int)
    requires
        0 <= at <= text.len(),
        forall|j: int| 0 <= j < at ==> text[j] != sep,
        at < text.len() ==> text[at] == sep,
    ensures
        split(text, sep).len() >= 1,
        split(text, sep)[0] == text.take(at),
        at == text.len() ==> split(text, sep).len() == 1,
        at < text.len() ==> split(text, sep).len() >= 2,
    decreases text.len(),
{
    if text.len() == 0 {
        assert(text.take(at) =~= Seq::<char>::empty());
    } else {
        let rest = text.drop_last();
        if at == text.len() {
            lemma_split_first(rest, sep, at - 1);
            assert(rest.take(at - 1).push(text.last()) =~= text.take(at));
        } else if at == text.len() - 1 {
            lemma_split_first(rest, sep, at);
            assert(rest.take(at) =~= text.take(at));
        } else {
            lemma_split_first(rest, sep, at);
            assert(rest.take(at) =~= text.take(at));
        }
    }
}

/// Whether `pattern` stands in `text` at index `at`.
fn stands_at(text: &Vec<char>, at: usize, pattern: &Vec<char>) -> (found: bool)
    requires
        at + pattern.len() <= text.len(),
    ensures
        found == (text@.subrange(at as int, at + pattern.len()) == pattern@),
{
    let mut k: usize = 0;
    while k < pattern.len()
        invariant
            k <= pattern.len(),
            at + pattern.len() <= text.len(),
            forall|j: int| 0 <= j < k ==> text@[at + j] == pattern@[j],
        decreases pattern.len() - k,
    {
        if text[at + k] != pattern[k] {
            assert(text@.subrange(at as int, at + pattern.len())[k as int] != pattern@[k as int]);
            return false;
        }
        k += 1;
    }
    assert(text@.subrange(at as int, at + pattern.len()) =~= pattern@);
    true
}

/// The text with every occurrence of `pattern` removed.
pub fn remove_all(text: &str, pattern: &str) -> (out: String)
    ensures
        out@ == without(text@, pattern@),
{
    let chars = chars_of(text);
    let pat = chars_of(pattern);
    let mut out = String::new();
    let mut at: usize = 0;
    proof {
        assert(chars@.skip(0) =~= chars@);
        assert(out@ + without(chars@, pat@) =~= without(chars@, pat@));
    }
    while at < chars.len()
        invariant
            at <= chars.len(),
            chars@ == text@,
            pat@ == pattern@,
            out@ + without(chars@.skip(at as int), pat@) == without(chars@, pat@),
        decreases chars.len() - at,
    {
        let ghost tail = chars@.skip(at as int);
        if pat.len() > 0 && chars.len() - at >= pat.len() && stands_at(&chars, at, &pat) {
            proof {
                assert(tail.take(pat.len() as int) =~= chars@.subrange(at as int, at + pat.len()));
                assert(tail.skip(pat.len() as int) =~= chars@.skip(at + pat.len()));
            }
            at += pat.len();
        } else {
            proof {
                assert(tail.skip(1) =~= chars@.skip(at + 1));
                assert(tail[0] == chars@[at as int]);
                if pat.len() == 0 || tail.len() < pat.len() {
                    assert(without(tail, pat@) == tail);
                    assert(without(tail.skip(1), pat@) == tail.skip(1));
                    assert(tail =~= seq![tail[0]] + tail.skip(1));
                } else {
                    assert(tail.take(pat.len() as int) =~= chars@.subrange(at as int, at + pat.len()));
                }
                assert(without(tail, pat@) == seq![tail[0]] + without(tail.skip(1), pat@));
                assert(out@.push(chars@[at as int]) + without(tail.skip(1), pat@)
                    =~= out@ + without(tail, pat@));
            }
            push_char(&mut out, chars[at]);
            at += 1;
        }
    }
    proof {
        assert(chars@.skip(at as int) =~= Seq::<char>::empty());
        assert(out@ + Seq::<char>::empty() =~= out@);
    }
    out
}

/// The pieces into which the separator cuts the text: at least one, none
/// of them with a separator in it, and the text again when they are joined.
pub fn split_on(text: &str, sep: char) -> (pieces: Vec<String>)
    ensures
        views(pieces@) == split(text@, sep),
        pieces.len() >= 1,
        forall|i: int| 0 <= i < pieces.len() ==> !(#[trigger] pieces@[i])@.contains(sep),
        join(views(pieces@), sep) == text@,
{
    let mut pieces: Vec<String> = Vec::new();
    let mut piece = String::new();
    let ghost mut seen: Seq<char> = Seq::empty();
    for c in it: text.chars()
        invariant
            seen == it.seq().take(it.index() as int),
            views(pieces@).push(piece@) == split(seen, sep),
    {
        proof {
            let next = seen.push(c);
            assert(next =~= it.seq().take(it.index() + 1));
            assert(next.drop_last() =~= seen);
            seen = next;
        }
        if c == sep {
            proof {
                assert(views(pieces@.push(piece)) =~= views(pieces@).push(piece@));
            }
            pieces.push(piece);
            piece = String::new();
        } else {
            proof {
                assert(views(pieces@).push(piece@).drop_last() =~= views(pieces@));
            }
            push_char(&mut piece, c);
        }
    }
    proof {
        assert(seen =~= text@);
        assert(views(pieces@.push(piece)) =~= views(pieces@).push(piece@));
    }
    pieces.push(piece);
    proof {
        lemma_split_join(text@, sep);
        assert forall|i: int| 0 <= i < pieces.len() implies !(#[trigger] pieces@[i])@.contains(
            sep,
        ) by {
            assert(views(pieces@)[i] == pieces@[i]@);
        }
    }
    pieces
}

/// The text before the first separator: the whole text where it holds none.
pub fn first_piece(text: &str, sep: char) -> (piece: String)
    ensures
        piece@ == split(text@, sep)[0],
{
    let chars = chars_of(text);
    let mut piece = String::new();
    let mut at: usize = 0;
    while at < chars.len() && chars[at] != sep
        invariant
            at <= chars.len(),
            piece@ == chars@.take(at as int),
            forall|j: int| 0 <= j < at ==> chars@[j] != sep,
        decreases chars.len() - at,
    {
        proof {
            assert(chars@.take(at as int).push(chars@[at as int]) =~= chars@.take(at + 1));
        }
        push_char(&mut piece, chars[at]);
        at += 1;
    }
    proof {
        lemma_split_first(chars@, sep, at as int);
    }
    piece
}

} // verus!
