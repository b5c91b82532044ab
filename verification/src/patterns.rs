//! The regular expressions that the checks run, through the `regex` crate.
//!
//! Each pattern's `\d` is Unicode's decimal-digit class (`\p{Nd}`), so what a
//! search finds is given a name below, together with what it is on texts in
//! which every character that the search has to classify is ASCII (there
//! `\d` is exactly `0`..`9`). Splitting at the literal `$*` is stated in
//! full.

use vstd::prelude::*;
use crate::text::{is_ascii_digit, ends_with, has_pair};

verus! {

/// The texts `pieces`, with `sep` between each two of them.
pub open spec fn joined(pieces: Seq<Seq<char>>, sep: Seq<char>) -> Seq<char>
    decreases pieces.len(),
{
    if pieces.len() == 0 {
        seq![]
    } else if pieces.len() == 1 {
        pieces[0]
    } else {
        pieces[0] + sep + joined(pieces.drop_first(), sep)
    }
}

/// Whether `regex::Regex::is_match` finds the pattern `\$(\d+)` in `text`.
pub uninterp spec fn numbered_param_found(text: Seq<char>) -> bool;

/// The group texts that `regex::Regex::captures_iter` yields for `\$(\d+)` on
/// `text`: the digits after each `$`, match after match.
pub uninterp spec fn numbered_param_digits(text: Seq<char>) -> Seq<Seq<char>>;

/// The group text of the first match that `regex::Regex::captures` finds for
/// `(\d+)\n$` on `text`, if there is one.
pub uninterp spec fn trailing_number(text: Seq<char>) -> Option<Seq<char>>;

/// Whether `c` is an ASCII character.
pub open spec fn is_ascii_char(c: char) -> bool {
    (c as u32) < 128
}

/// Whether every character of `s` is ASCII.
pub open spec fn all_ascii(s: Seq<char>) -> bool {
    forall|i: int| 0 <= i < s.len() ==> is_ascii_char(#[trigger] s[i])
}

/// Whether `s` holds a `$` immediately followed by an ASCII digit.
pub open spec fn has_dollar_digit(s: Seq<char>) -> bool {
    exists|i: int, j: int|
        #![trigger s[i], s[j]]
        0 <= i && j == i + 1 && j < s.len() && s[i] == '$' && is_ascii_digit(s[j])
}

/// The number of ASCII digits that `s` starts with.
pub open spec fn leading_digits(s: Seq<char>) -> nat
    decreases s.len(),
{
    if s.len() > 0 && is_ascii_digit(s[0]) {
        1 + leading_digits(s.drop_first())
    } else {
        0
    }
}

/// The number of ASCII digits that `s` ends with.
pub open spec fn trailing_digits(s: Seq<char>) -> nat
    decreases s.len(),
{
    if s.len() > 0 && is_ascii_digit(s.last()) {
        1 + trailing_digits(s.drop_last())
    } else {
        0
    }
}

/// The leading digits of `s` are digits, and the character after them is not.
pub proof fn lemma_leading_digits(s: Seq<char>)
    ensures
        leading_digits(s) <= s.len(),
        forall|k: int| 0 <= k < leading_digits(s) ==> is_ascii_digit(#[trigger] s[k]),
        leading_digits(s) < s.len() ==> !is_ascii_digit(s[leading_digits(s) as int]),
    decreases s.len(),
{
    if s.len() > 0 && is_ascii_digit(s[0]) {
        lemma_leading_digits(s.drop_first());
        assert forall|k: int| 0 <= k < leading_digits(s) implies is_ascii_digit(#[trigger] s[k]) by {
            if k > 0 {
                assert(s[k] == s.drop_first()[k - 1]);
            }
        }
    }
}

/// The digit texts after each `$` of `s` that is followed by an ASCII digit,
/// each run of digits taken whole, from left to right.
pub open spec fn dollar_digit_runs(s: Seq<char>) -> Seq<Seq<char>>
    decreases s.len(),
{
    if s.len() == 0 {
        seq![]
    } else if s[0] == '$' && s.len() > 1 && is_ascii_digit(s[1]) {
        let e = 1 + leading_digits(s.drop_first());
        proof {
            lemma_leading_digits(s.drop_first());
        }
        seq![s.subrange(1, e as int)] + dollar_digit_runs(s.skip(e as int))
    } else {
        dollar_digit_runs(s.drop_first())
    }
}

/// Every character that a search for `\$(\d+)` has to classify as a digit
/// or not is ASCII: the character after each `$` that the search meets, and
/// the character after each run of digits that follows such a `$`. (The
/// search meets every `$` of `s`, since its matches hold no other `$`.)
pub open spec fn dollar_digits_ascii(s: Seq<char>) -> bool
    decreases s.len(),
{
    if s.len() == 0 {
        true
    } else if s[0] == '$' && s.len() > 1 {
        if !is_ascii_char(s[1]) {
            false
        } else if is_ascii_digit(s[1]) {
            let e = 1 + leading_digits(s.drop_first());
            proof {
                lemma_leading_digits(s.drop_first());
            }
            (e == s.len() || is_ascii_char(s[e as int])) && dollar_digits_ascii(s.skip(e as int))
        } else {
            dollar_digits_ascii(s.drop_first())
        }
    } else {
        dollar_digits_ascii(s.drop_first())
    }
}

/// A text of ASCII characters only gives a search for `\$(\d+)` nothing
/// but ASCII characters to classify.
pub proof fn lemma_ascii_dollar_digits(s: Seq<char>)
    requires
        all_ascii(s),
    ensures
        dollar_digits_ascii(s),
    decreases s.len(),
{
    if s.len() > 0 {
        let t = s.drop_first();
        assert forall|i: int| 0 <= i < t.len() implies is_ascii_char(#[trigger] t[i]) by {
            assert(t[i] == s[i + 1]);
        }
        if s[0] == '$' && s.len() > 1 && is_ascii_digit(s[1]) {
            let e = 1 + leading_digits(t);
            lemma_leading_digits(t);
            let u = s.skip(e as int);
            assert forall|i: int| 0 <= i < u.len() implies is_ascii_char(#[trigger] u[i]) by {
                assert(u[i] == s[i + e]);
            }
            lemma_ascii_dollar_digits(u);
            if e < s.len() {
                assert(is_ascii_char(s[e as int]));
            }
        } else {
            lemma_ascii_dollar_digits(t);
        }
    }
}

/// The run of ASCII digits right before the final `\n` of `s`, if `s` ends
/// with `\n` and that run is not empty.
pub open spec fn trailing_digit_run(s: Seq<char>) -> Option<Seq<char>> {
    if s.len() > 0 && s.last() == '\n' {
        let body = s.drop_last();
        let t = trailing_digits(body);
        if t > 0 {
            Some(body.subrange(body.len() - t, body.len() as int))
        } else {
            None
        }
    } else {
        None
    }
}

/// `s` ends with `\n`, and the character before the digits that precede that
/// `\n`, if any, is ASCII: a search for `(\d+)\n$` classifies no other
/// character as a digit or not.
pub open spec fn trailing_digits_ascii(s: Seq<char>) -> bool {
    s.len() > 0 && s.last() == '\n' && {
        let body = s.drop_last();
        let t = trailing_digits(body);
        t == body.len() || is_ascii_char(body[body.len() - t - 1])
    }
}

/// Runs `regex::Regex::is_match` with the pattern `\$(\d+)` on `text`. A `$`
/// followed by an ASCII digit is a match; where every character that the
/// search classifies (after a `$`, or after the digits that follow one) is
/// ASCII, nothing else is.
#[verifier::external_body]
pub(crate) fn find_numbered_param(text: &str) -> (found: bool)
    ensures
        found == numbered_param_found(text@),
        has_dollar_digit(text@) ==> found,
        dollar_digits_ascii(text@) ==> (found == has_dollar_digit(text@)),
{
    regex::Regex::new(r"\$(\d+)").unwrap().is_match(text)
}

/// Runs `regex::Regex::captures_iter` with the pattern `\$(\d+)` on `text`
/// and hands back the text of group 1 of each match, in order. Each is
/// non-empty; where every character that the search classifies (after a `$`,
/// or after the digits that follow one) is ASCII, they are the whole runs of
/// ASCII digits after each `$`.
#[verifier::external_body]
pub(crate) fn numbered_param_texts(text: &str) -> (texts: Vec<String>)
    ensures
        texts@.map_values(|t: String| t@) == numbered_param_digits(text@),
        forall|k: int| 0 <= k < texts@.len() ==> #[trigger] texts@[k]@.len() > 0,
        dollar_digits_ascii(text@) ==> texts@.map_values(|t: String| t@)
            == dollar_digit_runs(text@),
{
    regex::Regex::new(r"\$(\d+)").unwrap().captures_iter(text).map(|c| c[1].to_string()).collect()
}

/// Runs `regex::Regex::captures` with the pattern `(\d+)\n$` on `text` and
/// hands back the text of group 1. When there is one, `text` ends with it and
/// a `\n`; there is none unless `text` ends with `\n`; where the character
/// before the ASCII digits that precede the final `\n` is ASCII, the group is
/// exactly those digits.
#[verifier::external_body]
pub(crate) fn trailing_number_text(text: &str) -> (group: Option<String>)
    ensures
        group matches Some(g) ==> trailing_number(text@) == Some(g@),
        group is None ==> trailing_number(text@) is None,
        group matches Some(g) ==> g@.len() > 0 && ends_with(text@, g@.push('\n')),
        !(text@.len() > 0 && text@.last() == '\n') ==> group is None,
        trailing_digits_ascii(text@) ==> match group {
            Some(g) => trailing_digit_run(text@) == Some(g@),
            None => trailing_digit_run(text@) is None,
        },
{
    regex::Regex::new(r"(\d+)\n$").unwrap().captures(text).map(|c| c[1].to_string())
}

/// Runs `regex::Regex::split` with the pattern `\$\*` on `text`: the parts
/// of `text` between the occurrences of `$*`. There is at least one part,
/// they give back `text` when joined with `$*`, and none holds `$*`.
#[verifier::external_body]
pub(crate) fn split_at_placeholders(text: &str) -> (pieces: Vec<String>)
    ensures
        pieces@.len() >= 1,
        joined(pieces@.map_values(|p: String| p@), seq!['$', '*']) == text@,
        forall|k: int| 0 <= k < pieces@.len() ==> !has_pair(#[trigger] pieces@[k]@, '$', '*'),
{
    regex::Regex::new(r"\$\*").unwrap().split(text).map(|p| p.to_string()).collect()
}

} // verus!
