//! Text as sequences of characters: conversions, trimming, splitting on
//! whitespace, substring search, and the two Unicode tables taken from the
//! standard library.

use vstd::prelude::*;
use vstd::std_specs::iter::IteratorSpec;

verus! {

/// The lowercase form of a text, as `str::to_lowercase` computes it.
pub uninterp spec fn lowercase(text: Seq<char>) -> Seq<char>;

/// Whether a character is whitespace, as `char::is_whitespace` decides it.
pub uninterp spec fn is_whitespace(c: char) -> bool;

/// Calls `str::to_lowercase`. Trusted: the result is the lowercase form of the
/// argument, and, since every character maps to one or more characters, a
/// text that is not empty has a lowercase form that is not empty.
#[verifier::external_body]
pub(crate) fn to_lowercase(text: &str) -> (lowered: String)
    ensures
        lowered@ == lowercase(text@),
        text@.len() > 0 ==> lowered@.len() > 0,
{
    text.to_lowercase()
}

/// Calls `char::is_whitespace`. Trusted: the result is the character's
/// whitespace property.
#[verifier::external_body]
pub(crate) fn char_is_whitespace(c: char) -> (white: bool)
    ensures
        white == is_whitespace(c),
{
    c.is_whitespace()
}

/// Specifies `String::push`. Trusted: the text afterwards is the text before
/// with the character at its end.
pub assume_specification[ String::push ](text: &mut String, c: char)
    ensures
        final(text)@ == old(text)@.push(c),
;

/// The characters of a text, in order.
pub fn chars_of(text: &str) -> (chars: Vec<char>)
    ensures
        chars@ == text@,
{
    broadcast use vstd::string::group_string_axioms;

    let mut chars: Vec<char> = Vec::new();
    for c in rest: text.chars()
        invariant
            rest.seq() == text@,
            chars@ == text@.take(rest.index()),
    {
        chars.push(c);
    }
    chars
}

/// The text made of `chars[from..to]`.
pub fn text_of(chars: &Vec<char>, from: usize, to: usize) -> (text: String)
    requires
        from <= to <= chars.len(),
    ensures
        text@ == chars@.subrange(from as int, to as int),
{
    let mut text = String::new();
    let mut at: usize = from;
    while at < to
        invariant
            from <= at <= to <= chars.len(),
            text@ == chars@.subrange(from as int, at as int),
        decreases to - at,
    {
        text.push(chars[at]);
        at += 1;
    }
    text
}

/// `needle` stands in `haystack` at position `start`.
pub open spec fn occurs_at(needle: Seq<char>, haystack: Seq<char>, start: int) -> bool {
    &&& 0 <= start
    &&& start + needle.len() <= haystack.len()
    &&& haystack.subrange(start, start + needle.len()) == needle
}

/// `needle` occurs in `haystack` as a run of consecutive characters.
pub open spec fn is_substring(needle: Seq<char>, haystack: Seq<char>) -> bool {
    exists|start: int| occurs_at(needle, haystack, start)
}

/// Whether `needle` stands in `haystack` at position `start`.
fn stands_at(haystack: &Vec<char>, needle: &Vec<char>, start: usize) -> (found: bool)
    requires
        start + needle.len() <= haystack.len(),
    ensures
        found == occurs_at(needle@, haystack@, start as int),
{
    let ghost window = haystack@.subrange(start as int, start + needle.len());
    let mut at: usize = 0;
    while at < needle.len()
        invariant
            at <= needle.len(),
            start + needle.len() <= haystack.len(),
            window == haystack@.subrange(start as int, start + needle.len()),
            forall|k: int| 0 <= k < at ==> window[k] == needle@[k],
        decreases needle.len() - at,
    {
        if haystack[start + at] != needle[at] {
            return false;
        }
        at += 1;
    }
    assert(window =~= needle@);
    true
}

/// Substring containment: whether `needle` occurs somewhere in `haystack`.
/// The empty text occurs in every text.
pub fn contains(haystack: &str, needle: &str) -> (found: bool)
    ensures
        found == is_substring(needle@, haystack@),
{
    let hay = chars_of(haystack);
    let pat = chars_of(needle);
    if pat.len() > hay.len() {
        return false;
    }
    let last: usize = hay.len() - pat.len();
    let mut start: usize = 0;
    loop
        invariant
            start <= last,
            last == hay.len() - pat.len(),
            hay@ == haystack@,
            pat@ == needle@,
            forall|k: int| 0 <= k < start ==> !occurs_at(pat@, hay@, k),
        decreases last - start,
    {
        if stands_at(&hay, &pat, start) {
            return true;
        }
        if start == last {
            return false;
        }
        start += 1;
    }
}

/// A text without the whitespace at its start.
pub open spec fn trim_start(text: Seq<char>) -> Seq<char>
    decreases text.len(),
{
    if text.len() > 0 && is_whitespace(text[0]) {
        trim_start(text.skip(1))
    } else {
        text
    }
}

/// A text without the whitespace at its end.
pub open spec fn trim_end(text: Seq<char>) -> Seq<char>
    decreases text.len(),
{
    if text.len() > 0 && is_whitespace(text.last()) {
        trim_end(text.drop_last())
    } else {
        text
    }
}

/// A text without the whitespace at either end.
pub open spec fn trim(text: Seq<char>) -> Seq<char> {
    trim_end(trim_start(text))
}

/// The text without leading and trailing whitespace.
pub fn trimmed(text: &str) -> (inner: String)
    ensures
        inner@ == trim(text@),
{
    let chars = chars_of(text);
    let mut from: usize = 0;
    assert(chars@.skip(0) =~= chars@);
    while from < chars.len() && char_is_whitespace(chars[from])
        invariant
            from <= chars.len(),
            trim_start(chars@) == trim_start(chars@.skip(from as int)),
        decreases chars.len() - from,
    {
        assert(chars@.skip(from as int).skip(1) =~= chars@.skip(from + 1));
        from += 1;
    }
    let mut to: usize = chars.len();
    while from < to && char_is_whitespace(chars[to - 1])
        invariant
            from <= to <= chars.len(),
            trim(chars@) == trim_end(chars@.subrange(from as int, to as int)),
        decreases to - from,
    {
        assert(chars@.subrange(from as int, to as int).drop_last() =~= chars@.subrange(
            from as int,
            to - 1,
        ));
        to -= 1;
    }
    text_of(&chars, from, to)
}

/// The texts that a sequence of strings holds.
pub open spec fn texts(strings: Seq<String>) -> Seq<Seq<char>> {
    Seq::new(strings.len(), |i: int| strings[i]@)
}

/// The number of characters of a text that stand before its first whitespace.
pub open spec fn word_len(text: Seq<char>) -> nat
    decreases text.len(),
{
    if text.len() == 0 || is_whitespace(text[0]) {
        0
    } else {
        1 + word_len(text.skip(1))
    }
}

/// `word_len` counts a prefix of the text.
pub proof fn lemma_word_len_bound(text: Seq<char>)
    ensures
        word_len(text) <= text.len(),
    decreases text.len(),
{
    if text.len() > 0 && !is_whitespace(text[0]) {
        lemma_word_len_bound(text.skip(1));
    }
}

/// The words of a text: its maximal runs of characters that are not
/// whitespace, from left to right.
pub open spec fn words(text: Seq<char>) -> Seq<Seq<char>>
    decreases text.len(),
{
    if text.len() == 0 {
        Seq::empty()
    } else if is_whitespace(text[0]) {
        words(text.skip(1))
    } else {
        proof {
            lemma_word_len_bound(text);
        }
        seq![text.take(word_len(text) as int)] + words(text.skip(word_len(text) as int))
    }
}

/// Splits a text on whitespace: the words of the text, none of them empty,
/// in the order in which they stand.
pub fn split_whitespace(text: &str) -> (found: Vec<String>)
    ensures
        texts(found@) == words(text@),
{
    let chars = chars_of(text);
    let mut found: Vec<String> = Vec::new();
    let mut at: usize = 0;
    assert(chars@.skip(0) =~= chars@);
    while at < chars.len()
        invariant
            at <= chars.len(),
            chars@ == text@,
            texts(found@) + words(chars@.skip(at as int)) == words(chars@),
        decreases chars.len() - at,
    {
        let ghost rest = chars@.skip(at as int);
        if char_is_whitespace(chars[at]) {
            assert(rest.skip(1) =~= chars@.skip(at + 1));
            at += 1;
        } else {
            let from: usize = at;
            let mut to: usize = at + 1;
            assert(rest.skip(1) =~= chars@.skip(to as int));
            while to < chars.len() && !char_is_whitespace(chars[to])
                invariant
                    from < to <= chars.len(),
                    word_len(chars@.skip(from as int)) == (to - from) + word_len(
                        chars@.skip(to as int),
                    ),
                decreases chars.len() - to,
            {
                assert(chars@.skip(to as int).skip(1) =~= chars@.skip(to + 1));
                to += 1;
            }
            let word = text_of(&chars, from, to);
            proof {
                assert(rest.take(to - from) =~= chars@.subrange(from as int, to as int));
                assert(rest.skip(to - from) =~= chars@.skip(to as int));
            }
            found.push(word);
            at = to;
        }
    }
    found
}

} // verus!
