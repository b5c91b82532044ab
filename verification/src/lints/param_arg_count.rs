//! Whether the positional parameters of a query match the arguments given
//! with it.

use vstd::prelude::*;
use crate::text::{
    chars_of, contains_pair, has_pair, parse_usize, parsed_usize, push_decimal, push_str,
    string_of, decimal, ends_with, str_eq, str_ends_with,
};
use crate::patterns::{
    numbered_param_texts, numbered_param_digits, all_ascii, dollar_digits_ascii, dollar_digit_runs,
    lemma_ascii_dollar_digits,
};
use crate::text::lemma_decimal_digits;
use super::{
    Arg, Method, arg_text, is_client, is_client_path, ordered_parameters, star_count,
    only_unnumbered_placeholders, lemma_numbered_ascii, lemma_numbered_without_star,
    lemma_runs_of_numbered, lemma_star_count_bound, placeholders_ascii, lemma_numbered_digits_ascii,
};
use super::invalid_query::InvalidQuery;

verus! {

/// A method whose first argument is a query with parameters: `query`,
/// `query_one`, or one whose name ends with `_where`.
pub open spec fn is_query_method(name: Seq<char>) -> bool {
    name == "query"@ || name == "query_one"@ || ends_with(name, "_where"@)
}

/// Whether `name` is that of a method whose first argument is a query with
/// parameters.
pub fn is_query_method_name(name: &String) -> (r: bool)
    ensures
        r == is_query_method(name@),
{
    str_eq(name.as_str(), "query") || str_eq(name.as_str(), "query_one") || str_ends_with(
        name.as_str(),
        "_where",
    )
}

/// The largest of the numbers that `texts` denote, 0 for none; `None` if
/// one of them is not a number that `str::parse::<usize>` reads.
pub open spec fn highest_param(texts: Seq<Seq<char>>) -> Option<usize>
    decreases texts.len(),
{
    if texts.len() == 0 {
        Some(0)
    } else {
        match (highest_param(texts.drop_last()), parsed_usize(texts.last())) {
            (Some(m), Some(v)) => Some(if v > m { v } else { m }),
            _ => None,
        }
    }
}

/// The number of positional parameters that `query` expects: the highest
/// `$n` once its `$*` placeholders are numbered.
pub open spec fn param_count(query: Seq<char>) -> Option<usize> {
    highest_param(numbered_param_digits(counted_text(query)))
}

/// The text whose numbered parameters are counted: `query` with its `$*`
/// placeholders numbered, where it has any.
pub open spec fn counted_text(query: Seq<char>) -> Seq<char> {
    if has_pair(query, '$', '*') {
        ordered_parameters(query)
    } else {
        query
    }
}

/// What the check finds for a literal query `q` given `n` arguments, where
/// every character after a `$` or an ASCII digit of the counted text is
/// ASCII: its numbered parameters are the whole runs of ASCII digits after
/// each `$`.
pub open spec fn plain_outcome(q: Seq<char>, n: usize) -> Option<Result<(), Error>> {
    match highest_param(dollar_digit_runs(counted_text(q))) {
        Some(e) => Some(count_outcome(e, n)),
        None => None,
    }
}

/// Why a query and its arguments do not agree.
#[derive(Clone, Copy, Debug, PartialEq, Eq, Structural)]
pub enum Error {
    /// The query has no parameter, and `params` arguments are given.
    NeverUse { params: usize },
    /// The query expects `expected` arguments, and `actual` are given.
    Missing { expected: usize, actual: usize },
}

/// What a query expecting `expected` arguments, given `actual`, comes to.
pub open spec fn count_outcome(expected: usize, actual: usize) -> Result<(), Error> {
    if expected == actual {
        Ok(())
    } else if expected == 0 && actual > 0 {
        Err(Error::NeverUse { params: actual })
    } else {
        Err(Error::Missing { expected, actual })
    }
}

/// The call is a parameterised query of either client.
pub open spec fn applies(m: Method) -> bool {
    is_client(m.path@) && is_query_method(m.name@)
}

/// The arguments that the check reads are there.
pub open spec fn has_checked_args(m: Method) -> bool {
    applies(m) ==> m.args.len() >= 1 && (arg_text(m.args[0]) is Some ==> m.args.len() >= 2)
}

/// The literal query and the length of the literal argument array, where the
/// call has both.
pub open spec fn query_and_args(m: Method) -> Option<(Seq<char>, usize)> {
    if applies(m) {
        match arg_text(m.args[0]) {
            Some(q) => match m.args[1] {
                Arg::Array(n) => Some((q, n)),
                _ => None,
            },
            None => None,
        }
    } else {
        None
    }
}

/// What the check finds for the call `m`; `None` where the query holds a
/// `$n` whose number `str::parse::<usize>` does not read.
pub open spec fn check_outcome(m: Method) -> Option<Result<(), Error>> {
    match query_and_args(m) {
        None => Some(Ok(())),
        Some((q, n)) => match param_count(q) {
            None => None,
            Some(e) => Some(count_outcome(e, n)),
        },
    }
}

/// The message that a diagnostic for `e` leads with.
pub open spec fn message_of(e: Error) -> Seq<char> {
    match e {
        Error::NeverUse { .. } => "arguments never used"@,
        Error::Missing { expected, actual } => decimal(expected as nat)
            + " positional argument(s) in query, but there is "@ + decimal(actual as nat)
            + " argument(s)"@,
    }
}

impl Error {
    /// The message that a diagnostic for this finding leads with.
    pub fn message(&self) -> (r: String)
        ensures
            r@ == message_of(*self),
    {
        let mut out: Vec<char> = Vec::new();
        match self {
            Error::NeverUse { .. } => {
                push_str(&mut out, "arguments never used");
            },
            Error::Missing { expected, actual } => {
                push_decimal(&mut out, *expected);
                push_str(&mut out, " positional argument(s) in query, but there is ");
                push_decimal(&mut out, *actual);
                push_str(&mut out, " argument(s)");
            },
        }
        string_of(&out)
    }
}

/// The check that a query's positional parameters match its arguments.
pub struct ParamArgCount;

impl ParamArgCount {
    /// Compares the parameters of a literal query with the length of the
    /// literal argument array passed with it. `None` where the query holds a
    /// `$n` whose number does not read as a `usize`.
    pub fn check(method: &Method) -> (r: Option<Result<(), Error>>)
        requires
            has_checked_args(*method),
        ensures
            r == check_outcome(*method),
            query_and_args(*method) matches Some((q, n)) ==> (dollar_digits_ascii(counted_text(q))
                ==> r == plain_outcome(q, n)),
            query_and_args(*method) matches Some((q, n)) ==> (only_unnumbered_placeholders(q)
                && placeholders_ascii(q) ==> r == Some(
                count_outcome(star_count(q) as usize, n),
            )),
    {
        if !is_client_path(&method.path) {
            return Some(Ok(()));
        }
        if !is_query_method_name(&method.name) {
            return Some(Ok(()));
        }
        let query = match super::expr_to_string(&method.args[0]) {
            Some(q) => q,
            None => {
                return Some(Ok(()));
            },
        };
        let actual = match &method.args[1] {
            Arg::Array(n) => *n,
            _ => {
                return Some(Ok(()));
            },
        };
        let expected = match Self::count_param(query.as_str()) {
            Some(e) => e,
            None => {
                return None;
            },
        };
        if expected == actual {
            return Some(Ok(()));
        }
        if expected == 0 && actual > 0 {
            return Some(Err(Error::NeverUse { params: actual }));
        }
        Some(Err(Error::Missing { expected, actual }))
    }

    /// The number of positional parameters that `query` expects. `None` where
    /// it holds a `$n` whose number does not read as a `usize`.
    pub fn count_param(query: &str) -> (r: Option<usize>)
        ensures
            r == param_count(query@),
            dollar_digits_ascii(counted_text(query@)) ==> r == highest_param(
                dollar_digit_runs(counted_text(query@)),
            ),
            only_unnumbered_placeholders(query@) && placeholders_ascii(query@) ==> r == Some(
                star_count(query@) as usize,
            ),
            all_ascii(query@) ==> dollar_digits_ascii(counted_text(query@)),
    {
        let v = chars_of(query);
        let vl = v.len();
        proof {
            assert(query@.len() == vl);
            if !has_pair(query@, '$', '*') {
                lemma_numbered_without_star(query@, 0);
            }
            assert(counted_text(query@) == ordered_parameters(query@));
            if all_ascii(query@) {
                lemma_numbered_ascii(query@, 0);
                lemma_ascii_dollar_digits(ordered_parameters(query@));
            }
            if only_unnumbered_placeholders(query@) && placeholders_ascii(query@) {
                lemma_numbered_digits_ascii(query@, 0);
                lemma_runs_of_numbered(query@, 0);
                lemma_star_count_bound(query@);
                lemma_highest_of_numbering(star_count(query@));
            }
        }
        let texts = if contains_pair(&v, '$', '*') {
            let ordered = InvalidQuery::order_parameters(query);
            numbered_param_texts(ordered.as_str())
        } else {
            numbered_param_texts(query)
        };
        Self::highest_param(&texts)
    }

    /// The largest of the numbers that `texts` denote, 0 for none; `None` if
    /// one does not read as a `usize`.
    pub fn highest_param(texts: &Vec<String>) -> (r: Option<usize>)
        ensures
            r == highest_param(texts@.map_values(|t: String| t@)),
    {
        let ghost all = texts@.map_values(|t: String| t@);
        let mut best: usize = 0;
        let mut i: usize = 0;
        while i < texts.len()
            invariant
                i <= texts@.len(),
                all == texts@.map_values(|t: String| t@),
                highest_param(all.take(i as int)) == Some(best),
            decreases texts@.len() - i,
        {
            assert(all.take(i + 1).drop_last() =~= all.take(i as int));
            assert(all.take(i + 1).last() == texts@[i as int]@);
            let digits = chars_of(texts[i].as_str());
            match parse_usize(&digits) {
                Some(v) => {
                    if v > best {
                        best = v;
                    }
                },
                None => {
                    proof {
                        lemma_highest_param_prefix_none(all, i as int + 1);
                    }
                    return None;
                },
            }
            i = i + 1;
        }
        assert(all.take(i as int) =~= all);
        Some(best)
    }
}

/// Once a prefix of the texts holds one that does not read as a number, the
/// whole does not either.
pub proof fn lemma_highest_param_prefix_none(texts: Seq<Seq<char>>, k: int)
    requires
        0 <= k <= texts.len(),
        highest_param(texts.take(k)) is None,
    ensures
        highest_param(texts) is None,
    decreases texts.len(),
{
    if k < texts.len() {
        assert(texts.take(k) =~= texts.drop_last().take(k));
        lemma_highest_param_prefix_none(texts.drop_last(), k);
    } else {
        assert(texts.take(k) =~= texts);
    }
}

/// The parameters `$1` .. `$k` that numbering writes count `k`.
pub proof fn lemma_highest_of_numbering(k: nat)
    requires
        k <= usize::MAX,
    ensures
        highest_param(Seq::new(k, |j: int| decimal(0 + 1 + j as nat))) == Some(k as usize),
    decreases k,
{
    let texts = Seq::new(k, |j: int| decimal(0 + 1 + j as nat));
    if k > 0 {
        lemma_highest_of_numbering((k - 1) as nat);
        assert(texts.drop_last() =~= Seq::new((k - 1) as nat, |j: int| decimal(0 + 1 + j as nat)));
        let last = decimal(k);
        assert(texts.last() == last);
        lemma_decimal_digits(k);
        assert(last[0] != '+') by {
            assert(crate::text::is_ascii_digit(last[0]));
        }
        assert(parsed_usize(last) == Some(k as usize));
    }
}

/// A parameterised query of either client, with a literal query whose
/// count `e` reads and a literal array of `n` arguments, passes exactly when
/// `e == n`; otherwise it expects none and gets some (`NeverUse`), or the two
/// counts are reported (`Missing`).
pub proof fn law_check_compares_counts(m: Method, q: Seq<char>, n: usize, e: usize)
    requires
        m.path@ == "elephantry::Connection"@ || m.path@ == "elephantry::Async"@,
        m.name@ == "query"@ || m.name@ == "query_one"@ || ends_with(m.name@, "_where"@),
        m.args.len() >= 2,
        m.args[0] matches Arg::Str(s) && s@ == q,
        m.args[1] == Arg::Array(n),
        param_count(q) == Some(e),
    ensures
        check_outcome(m) is Some,
        (check_outcome(m) == Some(Ok::<(), Error>(()))) <==> e == n,
        e != n && e > 0 ==> check_outcome(m) == Some(
            Err::<(), Error>(Error::Missing { expected: e, actual: n }),
        ),
        e == 0 && n > 0 ==> check_outcome(m) == Some(
            Err::<(), Error>(Error::NeverUse { params: n }),
        ),
{
}

/// A call that is not a parameterised query of either client, or whose
/// query or arguments are not literals, passes.
pub proof fn law_check_passes_other_calls(m: Method)
    requires
        !(m.path@ == "elephantry::Connection"@ || m.path@ == "elephantry::Async"@) || !(m.name@
            == "query"@ || m.name@ == "query_one"@ || ends_with(m.name@, "_where"@)) || !(
        m.args[0] is Str) || !(m.args[1] is Array),
    ensures
        check_outcome(m) == Some(Ok::<(), Error>(())),
{
}

/// The count of texts that all read as numbers is their maximum: at least
/// each of them and equal to one of them, 0 for none; it is `None` exactly
/// when one of them does not read.
pub proof fn law_highest_param_is_maximum(texts: Seq<Seq<char>>)
    ensures
        highest_param(texts) is Some <==> forall|i: int|
            0 <= i < texts.len() ==> #[trigger] parsed_usize(texts[i]) is Some,
        highest_param(texts) matches Some(h) ==> (forall|i: int|
            0 <= i < texts.len() ==> parsed_usize(#[trigger] texts[i])->0 <= h),
        highest_param(texts) matches Some(h) ==> (texts.len() == 0 ==> h == 0),
        highest_param(texts) matches Some(h) ==> (texts.len() > 0 ==> exists|i: int|
            0 <= i < texts.len() && parsed_usize(#[trigger] texts[i]) == Some(h)),
    decreases texts.len(),
{
    if texts.len() > 0 {
        let t = texts.drop_last();
        law_highest_param_is_maximum(t);
        let last = texts.len() - 1;
        assert forall|i: int| 0 <= i < t.len() implies t[i] == texts[i] by {}
        if highest_param(texts) is Some {
            let h = highest_param(texts)->0;
            let m = highest_param(t)->0;
            let v = parsed_usize(texts.last())->0;
            assert forall|i: int| 0 <= i < texts.len() implies parsed_usize(#[trigger] texts[i])->0
                <= h by {
                if i < last {
                    assert(t[i] == texts[i]);
                }
            }
            if v > m {
                assert(parsed_usize(texts[last]) == Some(h));
            } else if t.len() > 0 {
                let i = choose|i: int| 0 <= i < t.len() && parsed_usize(#[trigger] t[i]) == Some(m);
                assert(parsed_usize(texts[i]) == Some(h));
            } else {
                assert(parsed_usize(texts[last]) == Some(h));
            }
        }
        if forall|i: int| 0 <= i < texts.len() ==> #[trigger] parsed_usize(texts[i]) is Some {
            assert(parsed_usize(texts[last]) is Some);
            assert forall|i: int| 0 <= i < t.len() implies #[trigger] parsed_usize(t[i]) is Some by {
                assert(t[i] == texts[i]);
            }
        }
        if highest_param(texts) is Some {
            assert forall|i: int| 0 <= i < texts.len() implies #[trigger] parsed_usize(texts[i]) is Some by {
                if i < last {
                    assert(t[i] == texts[i]);
                }
            }
        }
    }
}

/// The number of parameters that a query expects is the largest number
/// among the `$n` that the search finds in it (with its `$*` numbered), 0
/// for none; it is there exactly when each of those numbers reads as a
/// `usize`.
pub proof fn law_param_count_is_maximum(query: Seq<char>)
    ensures
        ({
            let found = numbered_param_digits(counted_text(query));
            &&& param_count(query) is Some <==> forall|i: int|
                0 <= i < found.len() ==> #[trigger] parsed_usize(found[i]) is Some
            &&& param_count(query) matches Some(h) ==> (forall|i: int|
                0 <= i < found.len() ==> parsed_usize(#[trigger] found[i])->0 <= h)
            &&& param_count(query) matches Some(h) ==> (found.len() == 0 ==> h == 0)
            &&& param_count(query) matches Some(h) ==> (found.len() > 0 ==> exists|i: int|
                0 <= i < found.len() && parsed_usize(#[trigger] found[i]) == Some(h))
        }),
{
    law_highest_param_is_maximum(numbered_param_digits(counted_text(query)));
}

} // verus!
