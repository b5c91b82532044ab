//! Whether a pager is asked for page 0; pages are numbered from 1.

use vstd::prelude::*;
use crate::text::str_eq;
use super::{Arg, Function, Method, is_connection, is_connection_path};

verus! {

/// Whether `a` is the integer literal `0`.
pub open spec fn is_zero_literal(a: Arg) -> bool {
    a matches Arg::Int(v) && v < 1
}

/// The call is `paginate_find_where` on the synchronous client.
pub open spec fn is_paginate_find_where(m: Method) -> bool {
    is_connection(m.path@) && m.name@ == "paginate_find_where"@
}

/// The call is `Pager::new`.
pub open spec fn is_pager_new(f: Function) -> bool {
    f.path@ == "elephantry::Pager::<E>::new"@
}

/// The check that the page asked of a pager is at least 1.
pub struct PagerStartPage;

impl PagerStartPage {
    /// `Err(3)`, naming the page argument, exactly when the call is
    /// `paginate_find_where` on the synchronous client with a page of `0`.
    pub fn check_paginate_find_where(method: &Method) -> (r: Result<(), usize>)
        requires
            is_paginate_find_where(*method) ==> method.args.len() >= 4,
        ensures
            r is Err <==> is_paginate_find_where(*method) && is_zero_literal(method.args[3]),
            r matches Err(i) ==> i == 3,
    {
        if !is_connection_path(&method.path) {
            return Ok(());
        }
        if !str_eq(method.name.as_str(), "paginate_find_where") {
            return Ok(());
        }
        match &method.args[3] {
            Arg::Int(v) => {
                if *v >= 1 {
                    Ok(())
                } else {
                    Err(3)
                }
            },
            _ => Ok(()),
        }
    }

    /// `Err(2)`, naming the page argument, exactly when the call is
    /// `Pager::new` with a page of `0`.
    pub fn check_pager_new(function: &Function) -> (r: Result<(), usize>)
        requires
            is_pager_new(*function) ==> function.args.len() >= 3,
        ensures
            r is Err <==> is_pager_new(*function) && is_zero_literal(function.args[2]),
            r matches Err(i) ==> i == 2,
    {
        if !str_eq(function.path.as_str(), "elephantry::Pager::<E>::new") {
            return Ok(());
        }
        match &function.args[2] {
            Arg::Int(v) => {
                if *v >= 1 {
                    Ok(())
                } else {
                    Err(2)
                }
            },
            _ => Ok(()),
        }
    }
}

/// `paginate_find_where` on the synchronous client with a literal page `v`
/// is reported exactly when `v` is 0: every page from 1 on is accepted.
pub proof fn law_paginate_page_from_one(m: Method, v: u128)
    requires
        m.path@ == "elephantry::Connection"@,
        m.name@ == "paginate_find_where"@,
        m.args.len() >= 4,
        m.args[3] == Arg::Int(v),
    ensures
        (is_paginate_find_where(m) && is_zero_literal(m.args[3])) <==> v == 0,
{
}

/// `Pager::new` with a literal page `v` is reported exactly when `v` is 0.
pub proof fn law_pager_new_page_from_one(f: Function, v: u128)
    requires
        f.path@ == "elephantry::Pager::<E>::new"@,
        f.args.len() >= 3,
        f.args[2] == Arg::Int(v),
    ensures
        (is_pager_new(f) && is_zero_literal(f.args[2])) <==> v == 0,
{
}

/// A page that is not an integer literal, or a call of anything else, is
/// never reported.
pub proof fn law_pager_ignores_others(m: Method, f: Function)
    ensures
        !(m.args[3] is Int) || m.path@ != "elephantry::Connection"@ || m.name@
            != "paginate_find_where"@ ==> !(is_paginate_find_where(m) && is_zero_literal(
            m.args[3],
        )),
        !(f.args[2] is Int) || f.path@ != "elephantry::Pager::<E>::new"@ ==> !(is_pager_new(f)
            && is_zero_literal(f.args[2])),
{
}

} // verus!
