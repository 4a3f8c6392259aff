//! What the library does with text.

use vstd::prelude::*;
use vstd::slice::slice_subrange;
use vstd::utf8::{decode_utf8, valid_utf8};

verus! {

/// `str::eq`: two texts are equal if they hold the same characters.
pub assume_specification[ <str as PartialEq>::eq ](a: &str, b: &str) -> (r: bool)
    ensures
        r == (a@ == b@),
;

/// The characters with the Unicode property `White_Space`.
pub open spec fn is_white_space(c: char) -> bool {
    ||| '\u{9}' <= c <= '\u{d}'
    ||| c == ' '
    ||| c == '\u{85}'
    ||| c == '\u{a0}'
    ||| c == '\u{1680}'
    ||| '\u{2000}' <= c <= '\u{200a}'
    ||| c == '\u{2028}'
    ||| c == '\u{2029}'
    ||| c == '\u{202f}'
    ||| c == '\u{205f}'
    ||| c == '\u{3000}'
}

/// A text without its leading white space.
pub open spec fn trimmed_start(s: Seq<char>) -> Seq<char>
    decreases s.len(),
{
    if s.len() > 0 && is_white_space(s[0]) {
        trimmed_start(s.skip(1))
    } else {
        s
    }
}

/// `str::trim_start`: the text without its leading white space, as Unicode
/// defines it.
pub assume_specification[ str::trim_start ](s: &str) -> (r: &str)
    ensures
        r@ == trimmed_start(s@),
;

/// Whether a text starts with another.
pub open spec fn starts_with(s: Seq<char>, prefix: Seq<char>) -> bool {
    prefix.len() <= s.len() && s.take(prefix.len() as int) == prefix
}

/// Whether a text ends with another.
pub open spec fn ends_with(s: Seq<char>, suffix: Seq<char>) -> bool {
    suffix.len() <= s.len() && s.skip(s.len() - suffix.len()) == suffix
}

/// A text without as many copies of `suffix` as stand at its end.
pub open spec fn trimmed_end(s: Seq<char>, suffix: Seq<char>) -> Seq<char>
    decreases s.len(),
{
    if suffix.len() > 0 && ends_with(s, suffix) {
        trimmed_end(s.take(s.len() - suffix.len()), suffix)
    } else {
        s
    }
}

/// Whether a character is another than `c`.
pub open spec fn other_than(c: char) -> spec_fn(char) -> bool {
    |x: char| x != c
}

/// A text without the character `c`.
pub open spec fn without(s: Seq<char>, c: char) -> Seq<char> {
    s.filter(other_than(c))
}

/// `str::strip_prefix` for a text: what follows the prefix, where it is there.
#[verifier::external_body]
pub(crate) fn strip_prefix<'a>(s: &'a str, prefix: &str) -> (r: Option<&'a str>)
    ensures
        match r {
            Some(rest) => starts_with(s@, prefix@) && rest@ == s@.skip(prefix@.len() as int),
            None => !starts_with(s@, prefix@),
        },
{
    s.strip_prefix(prefix)
}

/// `str::strip_suffix` for a text: what precedes the suffix, where it is there.
#[verifier::external_body]
pub(crate) fn strip_suffix<'a>(s: &'a str, suffix: &str) -> (r: Option<&'a str>)
    ensures
        match r {
            Some(rest) => ends_with(s@, suffix@) && rest@ == s@.take(s@.len() - suffix@.len()),
            None => !ends_with(s@, suffix@),
        },
{
    s.strip_suffix(suffix)
}

/// `str::split_once` for a character: what stands before and after its first
/// occurrence, where there is one.
#[verifier::external_body]
pub(crate) fn split_once(s: &str, c: char) -> (r: Option<(&str, &str)>)
    ensures
        match r {
            Some((before, after)) => s@ == before@.push(c) + after@ && !before@.contains(c),
            None => !s@.contains(c),
        },
{
    s.split_once(c)
}

/// `str::replace` of a character by nothing.
#[verifier::external_body]
pub(crate) fn remove_char(s: &str, c: char) -> (r: String)
    ensures
        r@ == without(s@, c),
{
    s.replace(c, "")
}

/// Whether a text stands in another at a place.
pub open spec fn stands_at(s: Seq<char>, part: Seq<char>, i: int) -> bool {
    0 <= i && i + part.len() <= s.len() && s.subrange(i, i + part.len()) == part
}

/// Whether bytes begin with the characters of a word, each of them a byte.
pub open spec fn begins_with(bytes: Seq<u8>, word: Seq<char>) -> bool {
    &&& word.len() <= bytes.len()
    &&& forall|i: int| 0 <= i < word.len() ==> bytes[i] as char == #[trigger] word[i]
}

/// What follows a word in bytes that begin with it.
pub(crate) fn after_word<'a>(bytes: &'a [u8], word: &str) -> (r: Option<&'a [u8]>)
    ensures
        match r {
            Some(rest) => begins_with(bytes@, word@) && rest@ == bytes@.skip(word@.len() as int),
            None => !begins_with(bytes@, word@),
        },
{
    let n: usize = word.unicode_len();
    if n > bytes.len() {
        return None;
    }
    for i in 0..n
        invariant
            n == word@.len(),
            n <= bytes@.len(),
            forall|j: int| 0 <= j < i ==> bytes@[j] as char == #[trigger] word@[j],
    {
        if bytes[i] as char != word.get_char(i) {
            return None;
        }
    }
    Some(slice_subrange(bytes, n, bytes.len()))
}

/// The text that `String::from_utf8_lossy` reads bytes as.
pub uninterp spec fn lossy_text(bytes: Seq<u8>) -> Seq<char>;

/// `String::from_utf8_lossy`: the text depends on the bytes alone, where they are
/// valid UTF-8 it is the text that they encode, and only no bytes become an empty
/// text. What stands for invalid bytes is left open.
#[verifier::external_body]
pub(crate) fn from_utf8_lossy(bytes: &[u8]) -> (r: String)
    ensures
        r@ == lossy_text(bytes@),
        valid_utf8(bytes@) ==> r@ == decode_utf8(bytes@),
        r@.len() == 0 <==> bytes@.len() == 0,
{
    String::from_utf8_lossy(bytes).into_owned()
}

/// A text without the copies of `suffix` at its end.
pub(crate) fn trim_end_matches<'a>(s: &'a str, suffix: &str) -> (r: &'a str)
    requires
        suffix@.len() > 0,
    ensures
        r@ == trimmed_end(s@, suffix@),
{
    let mut rest: &str = s;
    loop
        invariant
            suffix@.len() > 0,
            trimmed_end(rest@, suffix@) == trimmed_end(s@, suffix@),
        decreases rest@.len(),
    {
        match strip_suffix(rest, suffix) {
            Some(shorter) => {
                rest = shorter;
            },
            None => {
                return rest;
            },
        }
    }
}

/// Texts put together, with `separator` between each two.
pub open spec fn joined(parts: Seq<Seq<char>>, separator: Seq<char>) -> Seq<char>
    decreases parts.len(),
{
    if parts.len() == 0 {
        Seq::empty()
    } else if parts.len() == 1 {
        parts[0]
    } else {
        joined(parts.drop_last(), separator) + separator + parts.last()
    }
}

/// What each string in a sequence holds.
pub open spec fn texts(strings: Seq<String>) -> Seq<Seq<char>> {
    strings.map_values(|s: String| s@)
}

/// Strings put together, with `separator` between each two.
pub(crate) fn join(parts: &Vec<String>, separator: &str) -> (r: String)
    ensures
        r@ == joined(texts(parts@), separator@),
{
    let mut r = String::new();
    for i in 0..parts.len()
        invariant
            r@ == joined(texts(parts@).take(i as int), separator@),
    {
        proof {
            assert(texts(parts@).take(i + 1).drop_last() =~= texts(parts@).take(i as int));
            assert(texts(parts@).take(i as int).len() == i);
        }
        if i > 0 {
            r.append(separator);
        }
        r.append(parts[i].as_str());
    }
    assert(texts(parts@).take(parts@.len() as int) =~= texts(parts@));
    r
}

/// Two texts, one after the other.
pub(crate) fn concat(a: &str, b: &str) -> (r: String)
    ensures
        r@ == a@ + b@,
{
    let mut r = a.to_owned();
    r.append(b);
    r
}

} // verus!
