//! The call sites that the checks look at, and what the checks share.

use vstd::prelude::*;
use crate::text::{str_eq, decimal, has_pair, is_ascii_digit, all_ascii_digits, lemma_decimal_digits};
use crate::patterns::{
    all_ascii, is_ascii_char, has_dollar_digit, leading_digits, dollar_digit_runs, joined,
    dollar_digits_ascii,
};

pub mod invalid_query;
pub mod mix_param_type;
pub mod pager_start_page;
pub mod param_arg_count;

verus! {

/// An argument expression at a call site, as far as the checks read it.
pub enum Arg {
    /// A string literal, with the text it denotes.
    Str(String),
    /// An integer literal, with its value.
    Int(u128),
    /// A reference to an array expression, `&[..]`, with its length.
    Array(usize),
    /// A call of `Some` with one argument.
    SomeOf(Box<Arg>),
    /// Any other expression.
    Other,
}

/// A method call: the path of the receiver's type, the method's name and
/// the arguments after the receiver.
pub struct Method {
    pub path: String,
    pub name: String,
    pub args: Vec<Arg>,
}

/// A call of a function item: its path and its arguments.
pub struct Function {
    pub path: String,
    pub args: Vec<Arg>,
}

/// Which expression a finding is about: argument `arg` of the call, or,
/// with `inside_some`, the expression inside the `Some(..)` that it is.
#[derive(Clone, Copy, Debug, PartialEq, Eq, Structural)]
pub struct ExprRef {
    pub arg: usize,
    pub inside_some: bool,
}

/// The text of a string literal argument.
pub open spec fn arg_text(a: Arg) -> Option<Seq<char>> {
    match a {
        Arg::Str(s) => Some(s@),
        _ => None,
    }
}

/// The text of a string literal argument.
pub fn expr_to_string(a: &Arg) -> (r: Option<String>)
    ensures
        match r {
            Some(s) => arg_text(*a) == Some(s@),
            None => arg_text(*a) is None,
        },
{
    match a {
        Arg::Str(s) => Some(s.clone()),
        _ => None,
    }
}

/// The receiver type of the synchronous client.
pub open spec fn is_connection(path: Seq<char>) -> bool {
    path == "elephantry::Connection"@
}

/// The receiver type of either client, the synchronous or the asynchronous.
pub open spec fn is_client(path: Seq<char>) -> bool {
    path == "elephantry::Connection"@ || path == "elephantry::Async"@
}

/// Whether `path` names the synchronous client.
pub fn is_connection_path(path: &String) -> (r: bool)
    ensures
        r == is_connection(path@),
{
    str_eq(path.as_str(), "elephantry::Connection")
}

/// Whether `path` names either client.
pub fn is_client_path(path: &String) -> (r: bool)
    ensures
        r == is_client(path@),
{
    str_eq(path.as_str(), "elephantry::Connection") || str_eq(path.as_str(), "elephantry::Async")
}

/// `s` with each `$*` replaced by `$` and the next number, counting on
/// from `count`, from left to right.
pub open spec fn numbered(s: Seq<char>, count: nat) -> Seq<char>
    decreases s.len(),
{
    if s.len() == 0 {
        seq![]
    } else if s[0] == '$' && s.len() > 1 && s[1] == '*' {
        seq!['$'] + decimal(count + 1) + numbered(s.skip(2), count + 1)
    } else {
        seq![s[0]] + numbered(s.drop_first(), count)
    }
}

/// `s` with its `$*` placeholders numbered `$1`, `$2`, ... from left to
/// right.
pub open spec fn ordered_parameters(s: Seq<char>) -> Seq<char> {
    numbered(s, 0)
}

/// The number of `$*` placeholders that numbering meets in `s`.
pub open spec fn star_count(s: Seq<char>) -> nat
    decreases s.len(),
{
    if s.len() == 0 {
        0
    } else if s[0] == '$' && s.len() > 1 && s[1] == '*' {
        1 + star_count(s.skip(2))
    } else {
        star_count(s.drop_first())
    }
}

/// Numbering keeps the first character of a text.
pub proof fn lemma_numbered_first(s: Seq<char>, count: nat)
    ensures
        s.len() == 0 ==> numbered(s, count).len() == 0,
        s.len() > 0 ==> numbered(s, count).len() > 0 && numbered(s, count)[0] == s[0],
{
}

/// Numbering leaves no `$*` behind.
pub proof fn lemma_numbered_has_no_star(s: Seq<char>, count: nat)
    ensures
        !has_pair(numbered(s, count), '$', '*'),
    decreases s.len(),
{
    let n = numbered(s, count);
    if s.len() == 0 {
    } else if s[0] == '$' && s.len() > 1 && s[1] == '*' {
        let d = decimal(count + 1);
        let rest = numbered(s.skip(2), count + 1);
        lemma_numbered_has_no_star(s.skip(2), count + 1);
        lemma_decimal_digits(count + 1);
        assert forall|i: int, j: int|
            #![trigger n[i], n[j]]
            0 <= i && j == i + 1 && j < n.len() && n[i] == '$' implies n[j] != '*' by {
            if i == 0 {
                assert(n[1] == d[0]);
                assert(is_ascii_digit(d[0]));
            } else if i < 1 + d.len() {
                assert(n[i] == d[i - 1]);
                assert(is_ascii_digit(d[i - 1]));
            } else {
                assert(n[i] == rest[i - 1 - d.len()]);
                assert(n[j] == rest[j - 1 - d.len()]);
            }
        }
    } else {
        let rest = numbered(s.drop_first(), count);
        lemma_numbered_has_no_star(s.drop_first(), count);
        lemma_numbered_first(s.drop_first(), count);
        assert forall|i: int, j: int|
            #![trigger n[i], n[j]]
            0 <= i && j == i + 1 && j < n.len() && n[i] == '$' implies n[j] != '*' by {
            if i == 0 {
                assert(n[1] == rest[0]);
                assert(rest[0] == s[1]);
            } else {
                assert(n[i] == rest[i - 1]);
                assert(n[j] == rest[j - 1]);
            }
        }
    }
}

/// A text without `$*` is left as it is by numbering.
pub proof fn lemma_numbered_without_star(s: Seq<char>, count: nat)
    requires
        !has_pair(s, '$', '*'),
    ensures
        numbered(s, count) == s,
    decreases s.len(),
{
    if s.len() > 0 {
        if s[0] == '$' && s.len() > 1 && s[1] == '*' {
            assert(s[0] == '$' && s[1] == '*');
        } else {
            let t = s.drop_first();
            assert forall|i: int, j: int|
                #![trigger t[i], t[j]]
                0 <= i && j == i + 1 && j < t.len() && t[i] == '$' implies t[j] != '*' by {
                assert(t[i] == s[i + 1]);
                assert(t[j] == s[j + 1]);
            }
            lemma_numbered_without_star(t, count);
            assert(numbered(s, count) =~= s);
        }
    }
}

/// Numbering the placeholders of a text leaves no `$*` in it.
pub proof fn law_ordered_parameters_leave_no_placeholder(query: Seq<char>)
    ensures
        !has_pair(ordered_parameters(query), '$', '*'),
{
    lemma_numbered_has_no_star(query, 0);
}

/// A query without `$*` placeholders is left as it is.
pub proof fn law_ordered_parameters_keep_numbered_query(query: Seq<char>)
    requires
        !has_pair(query, '$', '*'),
    ensures
        ordered_parameters(query) == query,
{
    lemma_numbered_without_star(query, 0);
}

/// Numbering the placeholders of a query twice is numbering them once.
pub proof fn law_ordered_parameters_idempotent(query: Seq<char>)
    ensures
        ordered_parameters(ordered_parameters(query)) == ordered_parameters(query),
{
    lemma_numbered_has_no_star(query, 0);
    lemma_numbered_without_star(ordered_parameters(query), 0);
}

/// Numbering adds only ASCII characters.
pub proof fn lemma_numbered_ascii(s: Seq<char>, count: nat)
    requires
        all_ascii(s),
    ensures
        all_ascii(numbered(s, count)),
    decreases s.len(),
{
    if s.len() > 0 {
        let n = numbered(s, count);
        if s[0] == '$' && s.len() > 1 && s[1] == '*' {
            let d = decimal(count + 1);
            let rest = numbered(s.skip(2), count + 1);
            lemma_numbered_ascii(s.skip(2), count + 1);
            lemma_decimal_digits(count + 1);
            assert forall|i: int| 0 <= i < n.len() implies is_ascii_char(#[trigger] n[i]) by {
                if 1 <= i < 1 + d.len() {
                    assert(n[i] == d[i - 1]);
                    assert(is_ascii_digit(d[i - 1]));
                } else if i >= 1 + d.len() {
                    assert(n[i] == rest[i - 1 - d.len()]);
                }
            }
        } else {
            let rest = numbered(s.drop_first(), count);
            lemma_numbered_ascii(s.drop_first(), count);
            assert forall|i: int| 0 <= i < n.len() implies is_ascii_char(#[trigger] n[i]) by {
                if i >= 1 {
                    assert(n[i] == rest[i - 1]);
                }
            }
        }
    }
}

/// Numbering meets at most one placeholder per two characters.
pub proof fn lemma_star_count_bound(s: Seq<char>)
    ensures
        star_count(s) <= s.len(),
    decreases s.len(),
{
    if s.len() > 0 {
        if s[0] == '$' && s.len() > 1 && s[1] == '*' {
            lemma_star_count_bound(s.skip(2));
        } else {
            lemma_star_count_bound(s.drop_first());
        }
    }
}

/// Every `$` of `q` is followed by `*` or by a character that is not an
/// ASCII digit, and so is every `$*`: `q` holds no numbered parameter, and
/// numbering its placeholders makes none longer than it is.
pub open spec fn only_unnumbered_placeholders(q: Seq<char>) -> bool {
    &&& !has_dollar_digit(q)
    &&& forall|i: int, j: int|
        #![trigger q[i], q[j]]
        0 <= i && j == i + 2 && j < q.len() && q[i] == '$' && q[i + 1] == '*' ==> !is_ascii_digit(
            q[j],
        )
}

/// A run of digits followed by a non-digit is counted whole.
pub proof fn lemma_leading_digits_concat(a: Seq<char>, b: Seq<char>)
    requires
        all_ascii_digits(a),
        b.len() == 0 || !is_ascii_digit(b[0]),
    ensures
        leading_digits(a + b) == a.len(),
    decreases a.len(),
{
    if a.len() > 0 {
        assert((a + b).drop_first() =~= a.drop_first() + b);
        lemma_leading_digits_concat(a.drop_first(), b);
    } else {
        assert(a + b =~= b);
    }
}

/// Placeholders numbered from `count + 1` on are the only numbered
/// parameters of the result, in order.
pub proof fn lemma_runs_of_numbered(q: Seq<char>, count: nat)
    requires
        only_unnumbered_placeholders(q),
    ensures
        dollar_digit_runs(numbered(q, count)) == Seq::new(
            star_count(q),
            |k: int| decimal(count + 1 + k as nat),
        ),
    decreases q.len(),
{
    let n = numbered(q, count);
    if q.len() == 0 {
        assert(dollar_digit_runs(n) =~= Seq::new(star_count(q), |k: int| decimal(count + 1 + k as nat)));
    } else if q[0] == '$' && q.len() > 1 && q[1] == '*' {
        let t = q.skip(2);
        let d = decimal(count + 1);
        let rest = numbered(t, count + 1);
        assert(only_unnumbered_placeholders(t)) by {
            assert forall|i: int, j: int|
                #![trigger t[i], t[j]]
                0 <= i && j == i + 1 && j < t.len() && t[i] == '$' implies !is_ascii_digit(t[j]) by {
                assert(t[i] == q[i + 2]);
                assert(t[j] == q[j + 2]);
            }
            assert forall|i: int, j: int|
                #![trigger t[i], t[j]]
                0 <= i && j == i + 2 && j < t.len() && t[i] == '$' && t[i + 1] == '*' implies !is_ascii_digit(t[j]) by {
                assert(t[i] == q[i + 2]);
                assert(t[i + 1] == q[i + 3]);
                assert(t[j] == q[j + 2]);
            }
        }
        lemma_runs_of_numbered(t, count + 1);
        lemma_decimal_digits(count + 1);
        lemma_numbered_first(t, count + 1);
        if t.len() > 0 {
            assert(q[0] == '$' && q[1] == '*');
            assert(q[2] == t[0]);
        }
        lemma_leading_digits_concat(d, rest);
        assert(n.drop_first() =~= d + rest);
        assert(n[1] == d[0]);
        let e = 1 + leading_digits(n.drop_first());
        assert(e == 1 + d.len());
        assert(n.subrange(1, e as int) =~= d);
        assert(n.skip(e as int) =~= rest);
        assert(dollar_digit_runs(n) == seq![d] + dollar_digit_runs(rest));
        assert(dollar_digit_runs(n) =~= Seq::new(star_count(q), |k: int| decimal(count + 1 + k as nat)));
    } else {
        let t = q.drop_first();
        let rest = numbered(t, count);
        assert(only_unnumbered_placeholders(t)) by {
            assert forall|i: int, j: int|
                #![trigger t[i], t[j]]
                0 <= i && j == i + 1 && j < t.len() && t[i] == '$' implies !is_ascii_digit(t[j]) by {
                assert(t[i] == q[i + 1]);
                assert(t[j] == q[j + 1]);
            }
            assert forall|i: int, j: int|
                #![trigger t[i], t[j]]
                0 <= i && j == i + 2 && j < t.len() && t[i] == '$' && t[i + 1] == '*' implies !is_ascii_digit(t[j]) by {
                assert(t[i] == q[i + 1]);
                assert(t[i + 1] == q[i + 2]);
                assert(t[j] == q[j + 1]);
            }
        }
        lemma_runs_of_numbered(t, count);
        lemma_numbered_first(t, count);
        assert(n.drop_first() =~= rest);
        if q[0] == '$' && q.len() > 1 {
            assert(n[1] == q[1]);
            assert(!is_ascii_digit(q[1]));
        }
    }
}

/// The texts `pieces` with `$` and the next number, counting on from
/// `count`, between each two of them.
pub open spec fn numbered_pieces(pieces: Seq<Seq<char>>, count: nat) -> Seq<char>
    decreases pieces.len(),
{
    if pieces.len() == 0 {
        seq![]
    } else if pieces.len() == 1 {
        pieces[0]
    } else {
        pieces[0] + seq!['$'] + decimal(count + 1) + numbered_pieces(pieces.drop_first(), count + 1)
    }
}

/// A text without `$*` that does not end with a `$` right before a `*` is
/// left as it is by numbering, and what follows is numbered on its own.
pub proof fn lemma_numbered_prefix(p: Seq<char>, t: Seq<char>, count: nat)
    requires
        !has_pair(p, '$', '*'),
        !(p.len() > 0 && p.last() == '$' && t.len() > 0 && t[0] == '*'),
    ensures
        numbered(p + t, count) == p + numbered(t, count),
    decreases p.len(),
{
    if p.len() == 0 {
        assert(p + t =~= t);
    } else {
        let s = p + t;
        let q = p.drop_first();
        assert(s.drop_first() =~= q + t);
        if p.len() >= 2 {
            assert(!(p[0] == '$' && p[1] == '*'));
        }
        assert(!(s[0] == '$' && s.len() > 1 && s[1] == '*'));
        assert forall|i: int, j: int|
            #![trigger q[i], q[j]]
            0 <= i && j == i + 1 && j < q.len() && q[i] == '$' implies q[j] != '*' by {
            assert(q[i] == p[i + 1]);
            assert(q[j] == p[j + 1]);
        }
        if q.len() > 0 {
            assert(q.last() == p.last());
        }
        lemma_numbered_prefix(q, t, count);
        assert(numbered(s, count) =~= p + numbered(t, count));
    }
}

/// Numbering the `$*` placeholders of a text is writing its parts between
/// them with `$1`, `$2`, ... in between.
pub proof fn lemma_numbered_pieces(pieces: Seq<Seq<char>>, count: nat)
    requires
        pieces.len() >= 1,
        forall|k: int| 0 <= k < pieces.len() ==> !has_pair(#[trigger] pieces[k], '$', '*'),
    ensures
        numbered(joined(pieces, seq!['$', '*']), count) == numbered_pieces(pieces, count),
    decreases pieces.len(),
{
    let sep = seq!['$', '*'];
    if pieces.len() == 1 {
        lemma_numbered_without_star(pieces[0], count);
    } else {
        let rest = pieces.drop_first();
        assert forall|k: int| 0 <= k < rest.len() implies !has_pair(#[trigger] rest[k], '$', '*') by {
            assert(rest[k] == pieces[k + 1]);
        }
        lemma_numbered_pieces(rest, count + 1);
        let tail = sep + joined(rest, sep);
        assert(joined(pieces, sep) =~= pieces[0] + tail);
        assert(!has_pair(pieces[0], '$', '*'));
        lemma_numbered_prefix(pieces[0], tail, count);
        assert(tail.skip(2) =~= joined(rest, sep));
        assert(numbered(tail, count) == seq!['$'] + decimal(count + 1) + numbered(
            joined(rest, sep),
            count + 1,
        ));
        assert(numbered(joined(pieces, sep), count) =~= numbered_pieces(pieces, count));
    }
}

/// The character after each `$` of `q`, and after each `$*`, is ASCII.
pub open spec fn placeholders_ascii(q: Seq<char>) -> bool {
    &&& forall|i: int, j: int|
        #![trigger q[i], q[j]]
        0 <= i && j == i + 1 && j < q.len() && q[i] == '$' ==> is_ascii_char(q[j])
    &&& forall|i: int, j: int|
        #![trigger q[i], q[j]]
        0 <= i && j == i + 2 && j < q.len() && q[i] == '$' && q[i + 1] == '*' ==> is_ascii_char(
            q[j],
        )
}

/// What holds of a query's `$` signs holds of what follows its first `k`
/// characters.
pub proof fn lemma_placeholder_conditions_skip(q: Seq<char>, k: int)
    requires
        0 <= k <= q.len(),
        only_unnumbered_placeholders(q),
        placeholders_ascii(q),
    ensures
        only_unnumbered_placeholders(q.skip(k)),
        placeholders_ascii(q.skip(k)),
{
    let t = q.skip(k);
    assert forall|i: int, j: int|
        #![trigger t[i], t[j]]
        0 <= i && j == i + 1 && j < t.len() && t[i] == '$' implies !is_ascii_digit(t[j])
        && is_ascii_char(t[j]) by {
        assert(t[i] == q[i + k]);
        assert(t[j] == q[j + k]);
    }
    assert forall|i: int, j: int|
        #![trigger t[i], t[j]]
        0 <= i && j == i + 2 && j < t.len() && t[i] == '$' && t[i + 1] == '*' implies !is_ascii_digit(
        t[j]) && is_ascii_char(t[j]) by {
        assert(t[i] == q[i + k]);
        assert(t[i + 1] == q[i + 1 + k]);
        assert(t[j] == q[j + k]);
    }
}

/// Numbering the placeholders of such a query gives a search for
/// `\$(\d+)` only ASCII characters to classify.
pub proof fn lemma_numbered_digits_ascii(q: Seq<char>, count: nat)
    requires
        only_unnumbered_placeholders(q),
        placeholders_ascii(q),
    ensures
        dollar_digits_ascii(numbered(q, count)),
    decreases q.len(),
{
    let n = numbered(q, count);
    if q.len() == 0 {
    } else if q[0] == '$' && q.len() > 1 && q[1] == '*' {
        let t = q.skip(2);
        let d = decimal(count + 1);
        let rest = numbered(t, count + 1);
        lemma_placeholder_conditions_skip(q, 2);
        lemma_numbered_digits_ascii(t, count + 1);
        lemma_decimal_digits(count + 1);
        lemma_numbered_first(t, count + 1);
        if t.len() > 0 {
            assert(q[0] == '$' && q[1] == '*');
            assert(q[2] == t[0]);
            assert(is_ascii_char(q[2]));
        }
        lemma_leading_digits_concat(d, rest);
        assert(n.drop_first() =~= d + rest);
        assert(n[1] == d[0]);
        assert(is_ascii_digit(d[0]));
        let e = 1 + leading_digits(n.drop_first());
        assert(e == 1 + d.len());
        assert(n.skip(e as int) =~= rest);
        if e < n.len() {
            assert(n[e as int] == rest[0]);
        }
    } else {
        let t = q.drop_first();
        let rest = numbered(t, count);
        lemma_placeholder_conditions_skip(q, 1);
        assert(t =~= q.skip(1));
        lemma_numbered_digits_ascii(t, count);
        lemma_numbered_first(t, count);
        assert(n.drop_first() =~= rest);
        if q[0] == '$' && q.len() > 1 {
            assert(n[1] == q[1]);
            assert(!is_ascii_digit(q[1]));
            assert(is_ascii_char(q[1]));
        }
    }
}

} // verus!
