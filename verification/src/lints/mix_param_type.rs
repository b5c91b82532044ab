//! Whether a query mixes `$*` placeholders with numbered ones.

use vstd::prelude::*;
use crate::text::{chars_of, contains_pair, has_pair};
use crate::patterns::{find_numbered_param, numbered_param_found, dollar_digits_ascii, has_dollar_digit};
use super::{Method, arg_text, is_client_path};
use super::param_arg_count::{applies, is_query_method_name};

verus! {

/// The literal query of the call holds both a `$*` placeholder and a match of
/// `\$(\d+)`.
pub open spec fn mixes_param_types(m: Method) -> bool {
    applies(m) && match arg_text(m.args[0]) {
        Some(q) => has_pair(q, '$', '*') && numbered_param_found(q),
        None => false,
    }
}

/// The literal query of the call gives a search for `\$(\d+)` nothing but
/// ASCII characters to classify as digits.
pub open spec fn plain_query(m: Method) -> bool {
    applies(m) && match arg_text(m.args[0]) {
        Some(q) => dollar_digits_ascii(q),
        None => false,
    }
}

/// The literal query of the call holds both a `$*` placeholder and a `$`
/// followed by an ASCII digit.
pub open spec fn mixes_plainly(m: Method) -> bool {
    match arg_text(m.args[0]) {
        Some(q) => has_pair(q, '$', '*') && has_dollar_digit(q),
        None => false,
    }
}

/// The check that a query does not mix ordered and unordered parameters.
pub struct MixParamType;

impl MixParamType {
    /// `Err` exactly when the call is a parameterised query of either client
    /// whose literal query holds both `$*` and a numbered parameter.
    pub fn check(method: &Method) -> (r: Result<(), ()>)
        requires
            applies(*method) ==> method.args.len() >= 1,
        ensures
            r is Err <==> mixes_param_types(*method),
            plain_query(*method) ==> (r is Err <==> mixes_plainly(*method)),
    {
        if !is_client_path(&method.path) {
            return Ok(());
        }
        if !is_query_method_name(&method.name) {
            return Ok(());
        }
        let query = match super::expr_to_string(&method.args[0]) {
            Some(q) => q,
            None => {
                return Ok(());
            },
        };
        let v = chars_of(query.as_str());
        if !contains_pair(&v, '$', '*') {
            return Ok(());
        }
        if find_numbered_param(query.as_str()) {
            Err(())
        } else {
            Ok(())
        }
    }
}

/// A query method of either client is reported exactly when its literal
/// query holds both `$*` and a match of `\$(\d+)`; in a query whose
/// characters after each `$` and its digits are ASCII, that match is a `$`
/// followed by an ASCII digit.
pub proof fn law_mix_reported_for_both_clients(m: Method, q: Seq<char>)
    requires
        m.path@ == "elephantry::Connection"@ || m.path@ == "elephantry::Async"@,
        m.name@ == "query"@ || m.name@ == "query_one"@ || crate::text::ends_with(
            m.name@,
            "_where"@,
        ),
        m.args.len() >= 1,
        m.args[0] matches crate::lints::Arg::Str(s) && s@ == q,
    ensures
        mixes_param_types(m) <==> (exists|i: int, j: int|
            #![trigger q[i], q[j]]
            0 <= i && j == i + 1 && j < q.len() && q[i] == '$' && q[j] == '*')
            && numbered_param_found(q),
        dollar_digits_ascii(q) ==> (plain_query(m) && (mixes_plainly(m) <==> (exists|i: int, j: int|
            #![trigger q[i], q[j]]
            0 <= i && j == i + 1 && j < q.len() && q[i] == '$' && q[j] == '*') && (exists|
            i: int,
            j: int,
        |
            #![trigger q[i], q[j]]
            0 <= i && j == i + 1 && j < q.len() && q[i] == '$' && '0' <= q[j] && q[j] <= '9'))),
{
}

/// A call on any other receiver, or of any other method, is not reported.
pub proof fn law_mix_ignores_other_calls(m: Method)
    requires
        !(m.path@ == "elephantry::Connection"@ || m.path@ == "elephantry::Async"@) || !(m.name@
            == "query"@ || m.name@ == "query_one"@ || crate::text::ends_with(m.name@, "_where"@)),
    ensures
        !mixes_param_types(m),
{
}

} // verus!
