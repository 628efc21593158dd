//! Strings as sequences of characters.

use vstd::prelude::*;

verus! {

/// `String::push` of std appends one character to the string.
pub assume_specification[ String::push ](s: &mut String, ch: char)
    ensures
        final(s)@ == old(s)@.push(ch),
;

/// The characters of `s`.
pub fn chars_of(s: &str) -> (chars: Vec<char>)
    ensures
        chars@ == s@,
{
    let mut chars: Vec<char> = Vec::new();
    for c in it: s.chars()
        invariant
            it.seq() == s@,
            chars@ == it.seq().take(it.index()),
    {
        chars.push(c);
        assert(it.seq().take(it.index() + 1) =~= it.seq().take(it.index()).push(c));
    }
    assert(chars@ =~= s@);
    chars
}

/// The string made of `chars[from..to]`.
pub(crate) fn string_of(chars: &Vec<char>, from: usize, to: usize) -> (s: String)
    requires
        from <= to <= chars.len(),
    ensures
        s@ == chars@.subrange(from as int, to as int),
{
    let mut s = String::new();
    let mut i: usize = from;
    while i < to
        invariant
            from <= i <= to <= chars.len(),
            s@ == chars@.subrange(from as int, i as int),
        decreases to - i,
    {
        s.push(chars[i]);
        assert(chars@.subrange(from as int, i + 1) =~= chars@.subrange(from as int, i as int).push(
            chars@[i as int],
        ));
        i += 1;
    }
    s
}

/// The string made of all of `chars`.
pub fn string_from(chars: &Vec<char>) -> (s: String)
    ensures
        s@ == chars@,
{
    let s = string_of(chars, 0, chars.len());
    assert(chars@.subrange(0, chars.len() as int) =~= chars@);
    s
}

/// `text` with every occurrence of `from` replaced by `to`. Occurrences are
/// taken from the left and do not overlap; what was put in is not searched
/// again. An empty `from` occurs nowhere.
pub open spec fn replaced(text: Seq<char>, from: Seq<char>, to: Seq<char>) -> Seq<char>
    decreases text.len(),
{
    if from.len() == 0 || text.len() < from.len() {
        text
    } else if text.take(from.len() as int) == from {
        to + replaced(text.skip(from.len() as int), from, to)
    } else {
        seq![text[0]] + replaced(text.skip(1), from, to)
    }
}

/// Whether `from` stands in `text` at `at`.
fn occurs_at(text: &Vec<char>, at: usize, from: &Vec<char>) -> (found: bool)
    requires
        at <= text.len(),
    ensures
        found == (at + from.len() <= text.len() && text@.skip(at as int).take(from.len() as int)
            == from@),
{
    if from.len() > text.len() - at {
        return false;
    }
    let mut j: usize = 0;
    while j < from.len()
        invariant
            at + from.len() <= text.len(),
            j <= from.len(),
            forall|k: int| 0 <= k < j ==> text@[at + k] == from@[k],
        decreases from.len() - j,
    {
        if text[at + j] != from[j] {
            assert(text@.skip(at as int).take(from.len() as int)[j as int] != from@[j as int]);
            return false;
        }
        j += 1;
    }
    assert(text@.skip(at as int).take(from.len() as int) =~= from@);
    true
}

/// Replaces every occurrence of `from` in `text` by `to`.
pub fn replace_all(text: &Vec<char>, from: &Vec<char>, to: &Vec<char>) -> (out: Vec<char>)
    ensures
        out@ == replaced(text@, from@, to@),
{
    let mut out: Vec<char> = Vec::new();
    let mut i: usize = 0;
    assert(text@.skip(0) =~= text@);
    while i < text.len()
        invariant
            i <= text.len(),
            out@ + replaced(text@.skip(i as int), from@, to@) == replaced(text@, from@, to@),
        decreases text.len() - i,
    {
        let ghost rest = text@.skip(i as int);
        let ghost before = out@;
        if from.len() > 0 && occurs_at(text, i, from) {
            let mut j: usize = 0;
            while j < to.len()
                invariant
                    j <= to.len(),
                    out@ == before + to@.take(j as int),
                decreases to.len() - j,
            {
                out.push(to[j]);
                assert(to@.take(j + 1) =~= to@.take(j as int).push(to@[j as int]));
                j += 1;
            }
            assert(to@.take(to.len() as int) =~= to@);
            assert(rest.skip(from.len() as int) =~= text@.skip(i + from.len()));
            assert(out@ + replaced(text@.skip(i + from.len()), from@, to@) =~= before + replaced(
                rest,
                from@,
                to@,
            ));
            i += from.len();
        } else {
            out.push(text[i]);
            assert(rest.skip(1) =~= text@.skip(i + 1));
            assert(rest[0] == text@[i as int]);
            proof {
                if from.len() > 0 && rest.len() >= from.len() {
                    assert(rest.take(from.len() as int) != from@);
                }
            }
            assert(out@ + replaced(text@.skip(i + 1), from@, to@) =~= before + replaced(
                rest,
                from@,
                to@,
            )) by {
                if from.len() == 0 || rest.len() < from.len() {
                    lemma_replaced_unchanged(rest.skip(1), from@, to@);
                    assert(rest =~= seq![rest[0]] + rest.skip(1));
                }
            }
            i += 1;
        }
    }
    assert(text@.skip(text.len() as int) =~= Seq::<char>::empty());
    assert(out@ + Seq::<char>::empty() =~= out@);
    out
}

/// A text shorter than the pattern, or an empty pattern, leaves the text as
/// it is.
proof fn lemma_replaced_unchanged(text: Seq<char>, from: Seq<char>, to: Seq<char>)
    requires
        from.len() == 0 || text.len() < from.len(),
    ensures
        replaced(text, from, to) == text,
{
}

/// The pieces of `text` between occurrences of `separator`: one more piece
/// than there are separators, some of them possibly empty.
pub open spec fn pieces(text: Seq<char>, separator: char) -> Seq<Seq<char>>
    decreases text.len(),
{
    if text.len() == 0 {
        seq![Seq::<char>::empty()]
    } else {
        let earlier = pieces(text.drop_last(), separator);
        if text.last() == separator {
            earlier.push(Seq::<char>::empty())
        } else {
            earlier.drop_last().push(earlier.last().push(text.last()))
        }
    }
}

/// There is at least one piece, and no piece holds the separator.
pub proof fn lemma_pieces(text: Seq<char>, separator: char)
    ensures
        pieces(text, separator).len() >= 1,
        forall|i: int|
            0 <= i < pieces(text, separator).len() ==> !(#[trigger] pieces(text, separator)[i])
                .contains(separator),
    decreases text.len(),
{
    if text.len() > 0 {
        let earlier = pieces(text.drop_last(), separator);
        lemma_pieces(text.drop_last(), separator);
        let all = pieces(text, separator);
        assert forall|i: int| 0 <= i < all.len() implies !(#[trigger] all[i]).contains(
            separator,
        ) by {
            if i < all.len() - 1 {
                assert(all[i] == earlier[i]);
            } else if text.last() != separator {
                let grown = earlier.last().push(text.last());
                if grown.contains(separator) {
                    let j = choose|j: int| 0 <= j < grown.len() && grown[j] == separator;
                    assert(earlier.last()[j] == separator);
                    assert(earlier[earlier.len() - 1].contains(separator));
                }
            }
        }
    }
}

/// Splits `text` at every `separator`.
pub fn split_on(text: &str, separator: char) -> (out: Vec<String>)
    ensures
        out.deep_view() == pieces(text@, separator),
        out.len() >= 1,
        forall|i: int| 0 <= i < out.len() ==> !(#[trigger] out[i])@.contains(separator),
{
    let mut out: Vec<String> = Vec::new();
    let mut current = String::new();
    assert(text@.take(0) =~= Seq::<char>::empty());
    assert(out.deep_view().push(current@) =~= pieces(text@.take(0), separator));
    for c in it: text.chars()
        invariant
            it.seq() == text@,
            out.deep_view().push(current@) == pieces(text@.take(it.index()), separator),
    {
        let ghost done = out.deep_view();
        let ghost word = current@;
        let ghost earlier = pieces(text@.take(it.index()), separator);
        assert(text@.take(it.index() + 1).drop_last() =~= text@.take(it.index()));
        assert(text@.take(it.index() + 1).last() == c);
        assert(earlier.last() == word);
        assert(earlier.drop_last() =~= done);
        if c == separator {
            out.push(current);
            current = String::new();
            assert(out.deep_view() =~= done.push(word));
        } else {
            current.push(c);
        }
    }
    assert(text@.take(text@.len() as int) =~= text@);
    let ghost done = out.deep_view();
    let ghost word = current@;
    out.push(current);
    assert(out.deep_view() =~= done.push(word));
    proof {
        lemma_pieces(text@, separator);
        assert forall|i: int| 0 <= i < out.len() implies !(#[trigger] out[i])@.contains(
            separator,
        ) by {
            assert(out[i]@ == pieces(text@, separator)[i]);
        }
    }
    out
}

/// Whether `c` is white space: a character with the Unicode property
/// `White_Space`.
pub open spec fn is_blank(c: char) -> bool {
    ||| '\u{9}' <= c <= '\u{d}'
    ||| c == ' '
    ||| c == '\u{85}'
    ||| c == '\u{a0}'
    ||| c == '\u{1680}'
    ||| '\u{2000}' <= c <= '\u{200a}'
    ||| c == '\u{2028}'
    ||| c == '\u{2029}'
    ||| c == '\u{202f}'
    ||| c == '\u{205f}'
    ||| c == '\u{3000}'
}

/// Whether `c` is white space.
pub fn blank(c: char) -> (yes: bool)
    ensures
        yes == is_blank(c),
{
    ('\u{9}' <= c && c <= '\u{d}') || c == ' ' || c == '\u{85}' || c == '\u{a0}' || c
        == '\u{1680}' || ('\u{2000}' <= c && c <= '\u{200a}') || c == '\u{2028}' || c
        == '\u{2029}' || c == '\u{202f}' || c == '\u{205f}' || c == '\u{3000}'
}

/// `text` without the white space at its front.
pub open spec fn trimmed_front(text: Seq<char>) -> Seq<char>
    decreases text.len(),
{
    if text.len() > 0 && is_blank(text[0]) {
        trimmed_front(text.skip(1))
    } else {
        text
    }
}

/// `text` without the white space at its end.
pub open spec fn trimmed_back(text: Seq<char>) -> Seq<char>
    decreases text.len(),
{
    if text.len() > 0 && is_blank(text.last()) {
        trimmed_back(text.drop_last())
    } else {
        text
    }
}

/// `text` without the white space at its front and at its end.
pub open spec fn trimmed(text: Seq<char>) -> Seq<char> {
    trimmed_back(trimmed_front(text))
}

/// Takes the white space off both ends of `text`.
pub fn trim(text: &str) -> (out: String)
    ensures
        out@ == trimmed(text@),
{
    let chars = chars_of(text);
    let mut from: usize = 0;
    assert(chars@.skip(0) =~= chars@);
    while from < chars.len() && blank(chars[from])
        invariant
            from <= chars.len(),
            trimmed_front(chars@) == trimmed_front(chars@.skip(from as int)),
        decreases chars.len() - from,
    {
        assert(chars@.skip(from as int)[0] == chars@[from as int]);
        assert(chars@.skip(from as int).skip(1) =~= chars@.skip(from + 1));
        from += 1;
    }
    proof {
        if from < chars.len() {
            assert(chars@.skip(from as int)[0] == chars@[from as int]);
        }
        assert(trimmed_front(chars@) == chars@.skip(from as int));
    }
    let mut to: usize = chars.len();
    assert(chars@.subrange(from as int, to as int) =~= chars@.skip(from as int));
    while to > from && blank(chars[to - 1])
        invariant
            from <= to <= chars.len(),
            trimmed(chars@) == trimmed_back(chars@.subrange(from as int, to as int)),
        decreases to,
    {
        assert(chars@.subrange(from as int, to as int).last() == chars@[to - 1]);
        assert(chars@.subrange(from as int, to as int).drop_last() =~= chars@.subrange(
            from as int,
            to - 1,
        ));
        to -= 1;
    }
    proof {
        if to > from {
            assert(chars@.subrange(from as int, to as int).last() == chars@[to - 1]);
        }
    }
    string_of(&chars, from, to)
}

} // verus!
