//! Strings as character sequences: UTF-8, lower case, trimming and searching.
use vstd::prelude::*;
use vstd::utf8::*;

verus! {

/// Calls `std::str::from_utf8`: the text that the bytes encode, or nothing where they are not
/// valid UTF-8.
#[verifier::external_body]
pub(crate) fn utf8_text(bytes: &[u8]) -> (text: Option<&str>)
    ensures
        text is Some <==> valid_utf8(bytes@),
        text matches Some(t) ==> t@ == decode_utf8(bytes@),
{
    std::str::from_utf8(bytes).ok()
}

/// Calls `String::from_utf8`: the text that the bytes encode, or nothing where they are not valid
/// UTF-8.
#[verifier::external_body]
pub(crate) fn utf8_string(bytes: Vec<u8>) -> (text: Option<String>)
    ensures
        text is Some <==> valid_utf8(bytes@),
        text matches Some(t) ==> t@ == decode_utf8(bytes@),
{
    String::from_utf8(bytes).ok()
}

/// The lower-case form of a text as Unicode defines it.
pub uninterp spec fn lowercase(text: Seq<char>) -> Seq<char>;

/// Calls `str::to_lowercase`.
#[verifier::external_body]
pub(crate) fn to_lowercase(text: &str) -> (lower: String)
    ensures
        lower@ == lowercase(text@),
{
    text.to_lowercase()
}

/// The characters with the Unicode property `White_Space`.
pub open spec fn is_white_space(c: char) -> bool {
    ||| '\u{9}' <= c <= '\u{d}'
    ||| c == ' '
    ||| c == '\u{85}'
    ||| c == '\u{a0}'
    ||| c == '\u{1680}'
    ||| '\u{2000}' <= c <= '\u{200a}'
    ||| c == '\u{2028}'
    ||| c == '\u{2029}'
    ||| c == '\u{202f}'
    ||| c == '\u{205f}'
    ||| c == '\u{3000}'
}

/// A text without its leading white space.
pub open spec fn trimmed_start(text: Seq<char>) -> Seq<char>
    decreases text.len(),
{
    if text.len() > 0 && is_white_space(text[0]) {
        trimmed_start(text.skip(1))
    } else {
        text
    }
}

/// A text without its trailing white space.
pub open spec fn trimmed_end(text: Seq<char>) -> Seq<char>
    decreases text.len(),
{
    if text.len() > 0 && is_white_space(text.last()) {
        trimmed_end(text.drop_last())
    } else {
        text
    }
}

/// A text without its leading and trailing white space.
pub open spec fn trimmed(text: Seq<char>) -> Seq<char> {
    trimmed_end(trimmed_start(text))
}

/// What is left after trimming begins and ends with no white space, if anything is left.
pub proof fn lemma_trimmed_ends(text: Seq<char>)
    ensures
        trimmed(text).len() > 0 ==> !is_white_space(trimmed(text)[0]) && !is_white_space(
            trimmed(text).last(),
        ),
{
    lemma_trimmed_start(text);
    lemma_trimmed_end(trimmed_start(text));
}

proof fn lemma_trimmed_start(text: Seq<char>)
    ensures
        trimmed_start(text).len() > 0 ==> !is_white_space(trimmed_start(text)[0]),
    decreases text.len(),
{
    if text.len() > 0 && is_white_space(text[0]) {
        lemma_trimmed_start(text.skip(1));
    }
}

proof fn lemma_trimmed_end(text: Seq<char>)
    ensures
        trimmed_end(text).len() <= text.len(),
        trimmed_end(text) == text.take(trimmed_end(text).len() as int),
        trimmed_end(text).len() > 0 ==> !is_white_space(trimmed_end(text).last()),
    decreases text.len(),
{
    if text.len() > 0 && is_white_space(text.last()) {
        lemma_trimmed_end(text.drop_last());
        let n = trimmed_end(text).len() as int;
        assert(text.drop_last().take(n) =~= text.take(n));
    } else {
        assert(text.take(text.len() as int) =~= text);
    }
}

/// Trimming a trimmed text changes nothing.
pub proof fn law_trimming_settles(text: Seq<char>)
    ensures
        trimmed(trimmed(text)) == trimmed(text),
{
    lemma_trimmed_ends(text);
}

/// Calls `str::trim`, which removes leading and trailing characters with the Unicode property
/// `White_Space`.
#[verifier::external_body]
pub(crate) fn trim(text: &str) -> (inner: &str)
    ensures
        inner@ == trimmed(text@),
{
    text.trim()
}

/// Joins two texts.
pub(crate) fn joined(first: &str, second: &str) -> (both: String)
    ensures
        both@ == first@ + second@,
{
    let mut both: String = first.to_owned();
    both.append(second);
    both
}

/// Whether `part` occurs in `text` as a run of characters.
pub open spec fn has_substring(text: Seq<char>, part: Seq<char>) -> bool {
    exists|i: int|
        0 <= i <= text.len() - part.len() && #[trigger] text.subrange(i, i + part.len()) == part
}

/// Calls `str::contains` with a string as the pattern.
#[verifier::external_body]
pub(crate) fn contains(text: &str, part: &str) -> (found: bool)
    ensures
        found == has_substring(text@, part@),
{
    text.contains(part)
}

/// What stands before and behind the first colon.
pub open spec fn split_colon(text: Seq<char>) -> Option<(Seq<char>, Seq<char>)> {
    if text.contains(':') {
        let i = text.index_of_first(':')->0;
        Some((text.take(i), text.skip(i + 1)))
    } else {
        None
    }
}

/// Calls `str::split_once` with a colon: splits at the first colon, and gives nothing where there
/// is none.
#[verifier::external_body]
pub(crate) fn split_at_colon(text: &str) -> (parts: Option<(&str, &str)>)
    ensures
        match parts {
            Some((before, behind)) => !before@.contains(':') && text@ == before@ + seq![':']
                + behind@,
            None => !text@.contains(':'),
        },
{
    text.split_once(':')
}

/// A text without a colon, a colon and any text split into just these two.
pub proof fn lemma_split_colon(before: Seq<char>, behind: Seq<char>)
    requires
        !before.contains(':'),
    ensures
        split_colon(before + seq![':'] + behind) == Some((before, behind)),
{
    let text = before + seq![':'] + behind;
    let n = before.len() as int;
    assert(text[n] == ':');
    text.index_of_first_ensures(':');
    let i = text.index_of_first(':')->0;
    if i < n {
        assert(before[i] == ':');
    }
    assert(text.take(i) =~= before);
    assert(text.skip(i + 1) =~= behind);
}

/// Trimming removes white space at both ends and nothing else: the text is white space, what is left
/// and white space, and what is left neither begins nor ends with white space.
pub proof fn law_trimming_removes_white_space_only(text: Seq<char>)
    ensures
        exists|lead: Seq<char>, tail: Seq<char>|
            text == #[trigger] (lead + trimmed(text) + tail) && (forall|i: int|
                0 <= i < lead.len() ==> is_white_space(lead[i])) && (forall|i: int|
                0 <= i < tail.len() ==> is_white_space(tail[i])),
        trimmed(text).len() > 0 ==> !is_white_space(trimmed(text)[0]) && !is_white_space(
            trimmed(text).last(),
        ),
{
    lemma_trimmed_ends(text);
    let lead = lemma_trimmed_lead(text);
    let rest = trimmed_start(text);
    let tail = lemma_trimmed_tail(rest);
    assert(text =~= lead + trimmed(text) + tail);
}

/// What trimming removes in front.
proof fn lemma_trimmed_lead(text: Seq<char>) -> (lead: Seq<char>)
    ensures
        text == lead + trimmed_start(text),
        forall|i: int| 0 <= i < lead.len() ==> is_white_space(lead[i]),
    decreases text.len(),
{
    if text.len() > 0 && is_white_space(text[0]) {
        let rest = lemma_trimmed_lead(text.skip(1));
        let lead = seq![text[0]] + rest;
        assert(text =~= seq![text[0]] + text.skip(1));
        assert(text =~= lead + trimmed_start(text));
        lead
    } else {
        assert(text =~= Seq::<char>::empty() + text);
        Seq::empty()
    }
}

/// What trimming removes at the end.
proof fn lemma_trimmed_tail(text: Seq<char>) -> (tail: Seq<char>)
    ensures
        text == trimmed_end(text) + tail,
        forall|i: int| 0 <= i < tail.len() ==> is_white_space(tail[i]),
    decreases text.len(),
{
    if text.len() > 0 && is_white_space(text.last()) {
        let rest = lemma_trimmed_tail(text.drop_last());
        let tail = rest.push(text.last());
        assert(text =~= text.drop_last().push(text.last()));
        assert(text =~= trimmed_end(text) + tail);
        tail
    } else {
        assert(text =~= text + Seq::<char>::empty());
        Seq::empty()
    }
}

/// A text holds a part exactly where it is some text, the part, and some more text.
pub proof fn law_has_substring(
    text: Seq<char>,
    part: Seq<char>,
    before: Seq<char>,
    behind: Seq<char>,
)
    ensures
        text == before + part + behind ==> has_substring(text, part),
        has_substring(text, part) ==> exists|a: Seq<char>, b: Seq<char>|
            text == #[trigger] (a + part + b),
{
    let n = before.len() as int;
    if text == before + part + behind {
        assert(text.subrange(n, n + part.len()) =~= part);
    }
    if has_substring(text, part) {
        let i = choose|i: int|
            0 <= i <= text.len() - part.len() && #[trigger] text.subrange(i, i + part.len())
                == part;
        let (a, b) = (text.take(i), text.skip(i + part.len()));
        assert(text =~= a + part + b);
    }
}

} // verus!
