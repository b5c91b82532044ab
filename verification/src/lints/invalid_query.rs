//! Which SQL a database is asked to validate for a call, and how.
//!
//! The database itself is not consulted here: each check yields the text to
//! report and the statement that validates it without running it.

use vstd::prelude::*;
use crate::text::{chars_of, decimal, ends_with, has_pair, push_decimal, push_str, str_eq, str_ends_with, string_of};
use crate::patterns::split_at_placeholders;
use super::{
    Arg, ExprRef, Method, arg_text, is_client, is_client_path, is_connection,
    is_connection_path, numbered_pieces, ordered_parameters, lemma_numbered_pieces,
};

verus! {

/// A statement to run against the database, about one expression of a call.
pub struct SqlCheck {
    /// The expression whose SQL is checked.
    pub expr: ExprRef,
    /// The SQL as a report shows it.
    pub sql: String,
    /// The statement that validates `sql`.
    pub statement: String,
}

impl View for SqlCheck {
    type V = (ExprRef, Seq<char>, Seq<char>);

    open spec fn view(&self) -> (ExprRef, Seq<char>, Seq<char>) {
        (self.expr, self.sql@, self.statement@)
    }
}

/// The view of an optional check.
pub open spec fn opt_view(c: Option<SqlCheck>) -> Option<(ExprRef, Seq<char>, Seq<char>)> {
    match c {
        Some(c) => Some(c@),
        None => None,
    }
}

/// `q`, ending with `;`.
pub open spec fn terminated(q: Seq<char>) -> Seq<char> {
    if ends_with(q, seq![';']) {
        q
    } else {
        q.push(';')
    }
}

/// The statement that validates `sql`: it sits in an anonymous block that
/// returns before reaching it, so the server parses and plans it without
/// running it. With `order`, its `$*` placeholders are numbered first.
pub open spec fn check_statement(sql: Seq<char>, order: bool) -> Seq<char> {
    "DO $TEST$ BEGIN RETURN;"@ + terminated(if order { ordered_parameters(sql) } else { sql })
        + "END; $TEST$;"@
}

/// A check of `sql`, where there is one, about `expr`.
pub open spec fn planned(expr: ExprRef, sql: Option<Seq<char>>, order: bool) -> Option<
    (ExprRef, Seq<char>, Seq<char>),
> {
    match sql {
        Some(q) => Some((expr, q, check_statement(q, order))),
        None => None,
    }
}

/// The text of a string literal argument after `prefix` and a space.
pub open spec fn query_text(prefix: Seq<char>, a: Arg) -> Option<Seq<char>> {
    match arg_text(a) {
        Some(s) => Some(prefix + " "@ + s),
        None => None,
    }
}

/// Argument `arg` itself.
pub open spec fn at(arg: usize) -> ExprRef {
    ExprRef { arg, inside_some: false }
}

/// The expression inside the `Some(..)` that argument `arg` is.
pub open spec fn inside(arg: usize) -> ExprRef {
    ExprRef { arg, inside_some: true }
}

/// `execute` on either client: its statement.
pub open spec fn execute_check(m: Method) -> Option<(ExprRef, Seq<char>, Seq<char>)> {
    if is_client(m.path@) && m.name@ == "execute"@ {
        planned(at(0), query_text(seq![], m.args[0]), false)
    } else {
        None
    }
}

/// A `..._where` method of the synchronous client: its condition, after
/// `select 1 where`.
pub open spec fn clause_check(m: Method) -> Option<(ExprRef, Seq<char>, Seq<char>)> {
    if is_connection(m.path@) && ends_with(m.name@, "_where"@) {
        planned(at(0), query_text("select 1 where"@, m.args[0]), true)
    } else {
        None
    }
}

/// The argument of a `find_...` method that the suffix check reads: the
/// optional suffix of `find_all` and `find_where`. For `paginate_find_where`
/// argument 2 is the number of rows per page, never a `Some(..)` literal, so
/// that call's suffix is not checked.
pub open spec fn suffix_arg(name: Seq<char>) -> Option<usize> {
    if name == "find_all"@ {
        Some(0)
    } else if name == "find_where"@ || name == "paginate_find_where"@ {
        Some(2)
    } else {
        None
    }
}

/// The `Some(..)` suffix of a `find_...` method of the synchronous client,
/// after `select 1`.
pub open spec fn suffix_check(m: Method) -> Option<(ExprRef, Seq<char>, Seq<char>)> {
    if is_connection(m.path@) {
        match suffix_arg(m.name@) {
            Some(k) => match m.args[k as int] {
                Arg::SomeOf(inner) => planned(inside(k), query_text("select 1"@, *inner), false),
                _ => None,
            },
            None => None,
        }
    } else {
        None
    }
}

/// `upsert_one` on the synchronous client: its conflict target.
pub open spec fn upsert_target_check(m: Method) -> Option<(ExprRef, Seq<char>, Seq<char>)> {
    if is_connection(m.path@) && m.name@ == "upsert_one"@ {
        match arg_text(m.args[1]) {
            Some(t) => planned(
                at(1),
                Some("insert into test values(1) on conflict "@ + t + " do nothing"@),
                false,
            ),
            None => None,
        }
    } else {
        None
    }
}

/// `upsert_one` on the synchronous client: its conflict action.
pub open spec fn upsert_action_check(m: Method) -> Option<(ExprRef, Seq<char>, Seq<char>)> {
    if is_connection(m.path@) && m.name@ == "upsert_one"@ {
        match arg_text(m.args[2]) {
            Some(t) => planned(
                at(2),
                Some("insert into test values(1) on conflict (test) do "@ + t),
                false,
            ),
            None => None,
        }
    } else {
        None
    }
}

/// The arguments that the checks read are there.
pub open spec fn has_checked_args(m: Method) -> bool {
    &&& is_client(m.path@) && m.name@ == "execute"@ ==> m.args.len() >= 1
    &&& is_connection(m.path@) && ends_with(m.name@, "_where"@) ==> m.args.len() >= 1
    &&& is_connection(m.path@) && suffix_arg(m.name@) is Some ==> m.args.len() > suffix_arg(
        m.name@,
    )->0
    &&& is_connection(m.path@) && m.name@ == "upsert_one"@ ==> m.args.len() >= 3
}

/// A sequence of the check that there is, if any.
pub open spec fn listed(c: Option<(ExprRef, Seq<char>, Seq<char>)>) -> Seq<
    (ExprRef, Seq<char>, Seq<char>),
> {
    match c {
        Some(c) => seq![c],
        None => seq![],
    }
}

/// Every check of a call, in the order in which they are reported.
pub open spec fn planned_checks(m: Method) -> Seq<(ExprRef, Seq<char>, Seq<char>)> {
    listed(execute_check(m)) + listed(suffix_check(m)) + listed(clause_check(m)) + listed(
        upsert_target_check(m),
    ) + listed(upsert_action_check(m))
}

/// Whether `statement` is an anonymous block that returns before anything
/// else in it runs.
pub open spec fn returns_first(statement: Seq<char>) -> bool {
    let head = "DO $TEST$ BEGIN RETURN;"@;
    let tail = "END; $TEST$;"@;
    &&& head.len() + tail.len() <= statement.len()
    &&& statement.take(head.len() as int) == head
    &&& statement.skip(statement.len() - tail.len()) == tail
}

/// Every statement in `cs` returns before anything else in it runs.
pub open spec fn all_return_first(cs: Seq<(ExprRef, Seq<char>, Seq<char>)>) -> bool {
    forall|i: int| 0 <= i < cs.len() ==> returns_first(#[trigger] cs[i].2)
}

/// A validating statement returns first.
pub proof fn lemma_check_statement_returns_first(sql: Seq<char>, order: bool)
    ensures
        returns_first(check_statement(sql, order)),
{
    let head = "DO $TEST$ BEGIN RETURN;"@;
    let tail = "END; $TEST$;"@;
    let body = terminated(if order { ordered_parameters(sql) } else { sql });
    let st = check_statement(sql, order);
    assert(st == head + body + tail);
    assert(st.take(head.len() as int) =~= head);
    assert(st.skip(st.len() - tail.len()) =~= tail);
}

/// A planned check's statement returns first.
pub proof fn lemma_planned_returns_first(expr: ExprRef, sql: Option<Seq<char>>, order: bool)
    ensures
        all_return_first(listed(planned(expr, sql, order))),
{
    if let Some(q) = sql {
        lemma_check_statement_returns_first(q, order);
        assert(listed(planned(expr, sql, order)) =~= seq![(expr, q, check_statement(q, order))]);
    }
}

/// Two lists of statements that return first make one.
pub proof fn lemma_all_return_first_concat(
    a: Seq<(ExprRef, Seq<char>, Seq<char>)>,
    b: Seq<(ExprRef, Seq<char>, Seq<char>)>,
)
    requires
        all_return_first(a),
        all_return_first(b),
    ensures
        all_return_first(a + b),
{
    assert forall|i: int| 0 <= i < (a + b).len() implies returns_first(#[trigger] (a + b)[i].2) by {
        if i < a.len() {
            assert((a + b)[i] == a[i]);
        } else {
            assert((a + b)[i] == b[i - a.len()]);
        }
    }
}

/// None of the statements planned for a call runs the SQL it validates:
/// each is an anonymous block that returns first.
pub proof fn law_checks_return_before_the_sql(m: Method)
    ensures
        all_return_first(planned_checks(m)),
{
    assert(all_return_first(listed(None))) by {
        assert(listed(None) =~= Seq::<(ExprRef, Seq<char>, Seq<char>)>::empty());
    }
    if is_client(m.path@) && m.name@ == "execute"@ {
        lemma_planned_returns_first(at(0), query_text(seq![], m.args[0]), false);
    }
    if is_connection(m.path@) && suffix_arg(m.name@) is Some {
        let k = suffix_arg(m.name@)->0;
        if let Arg::SomeOf(inner) = m.args[k as int] {
            lemma_planned_returns_first(inside(k), query_text("select 1"@, *inner), false);
        }
    }
    if is_connection(m.path@) && ends_with(m.name@, "_where"@) {
        lemma_planned_returns_first(at(0), query_text("select 1 where"@, m.args[0]), true);
    }
    if is_connection(m.path@) && m.name@ == "upsert_one"@ {
        if let Some(t) = arg_text(m.args[1]) {
            lemma_planned_returns_first(
                at(1),
                Some("insert into test values(1) on conflict "@ + t + " do nothing"@),
                false,
            );
        }
        if let Some(t) = arg_text(m.args[2]) {
            lemma_planned_returns_first(
                at(2),
                Some("insert into test values(1) on conflict (test) do "@ + t),
                false,
            );
        }
    }
    let a = listed(execute_check(m));
    let b = listed(suffix_check(m));
    let c = listed(clause_check(m));
    let d = listed(upsert_target_check(m));
    let e = listed(upsert_action_check(m));
    lemma_all_return_first_concat(a, b);
    lemma_all_return_first_concat(a + b, c);
    lemma_all_return_first_concat(a + b + c, d);
    lemma_all_return_first_concat(a + b + c + d, e);
}

/// The validating statement is the block's head, the SQL (with its `$*`
/// numbered when asked), a `;` unless the SQL's last character already is
/// one, and the block's tail.
pub proof fn law_check_statement_shape(sql: Seq<char>, order: bool)
    ensures
        ({
            let q = if order { ordered_parameters(sql) } else { sql };
            check_statement(sql, order) == "DO $TEST$ BEGIN RETURN;"@ + q + (if q.len() > 0
                && q[q.len() - 1] == ';' {
                Seq::<char>::empty()
            } else {
                seq![';']
            }) + "END; $TEST$;"@
        }),
{
    let q = if order { ordered_parameters(sql) } else { sql };
    if q.len() > 0 {
        assert(q.subrange(q.len() - 1, q.len() as int) =~= seq![q[q.len() - 1]]);
        if q[q.len() - 1] == ';' {
            assert(ends_with(q, seq![';']));
            assert(q + Seq::<char>::empty() =~= q);
        } else {
            assert(q.subrange(q.len() - 1, q.len() as int)[0] != seq![';'][0]);
            assert(!ends_with(q, seq![';']));
            assert(q.push(';') =~= q + seq![';']);
        }
    } else {
        assert(q.push(';') =~= q + seq![';']);
    }
    assert(check_statement(sql, order) =~= "DO $TEST$ BEGIN RETURN;"@ + q + (if q.len() > 0
        && q[q.len() - 1] == ';' {
        Seq::<char>::empty()
    } else {
        seq![';']
    }) + "END; $TEST$;"@);
}

/// The check that the SQL handed to the client's query methods is valid.
pub struct InvalidQuery;

impl InvalidQuery {
    /// The statements to validate for the call `method`, in the order in
    /// which their failures are reported.
    pub fn checks(method: &Method) -> (r: Vec<SqlCheck>)
        requires
            has_checked_args(*method),
        ensures
            r@.map_values(|c: SqlCheck| c@) == planned_checks(*method),
    {
        let mut r: Vec<SqlCheck> = Vec::new();
        let ghost m = *method;
        if let Some(c) = Self::check_execute(method) {
            r.push(c);
        }
        assert(r@.map_values(|c: SqlCheck| c@) =~= listed(execute_check(m)));
        if let Some(c) = Self::check_query(method) {
            r.push(c);
        }
        if let Some(c) = Self::check_suffix(method) {
            r.push(c);
        }
        assert(r@.map_values(|c: SqlCheck| c@) =~= listed(execute_check(m)) + listed(
            suffix_check(m),
        ));
        if let Some(c) = Self::check_clause(method) {
            r.push(c);
        }
        assert(r@.map_values(|c: SqlCheck| c@) =~= listed(execute_check(m)) + listed(
            suffix_check(m),
        ) + listed(clause_check(m)));
        if let Some(c) = Self::check_upsert_target(method) {
            r.push(c);
        }
        assert(r@.map_values(|c: SqlCheck| c@) =~= listed(execute_check(m)) + listed(
            suffix_check(m),
        ) + listed(clause_check(m)) + listed(upsert_target_check(m)));
        if let Some(c) = Self::check_upsert_action(method) {
            r.push(c);
        }
        assert(r@.map_values(|c: SqlCheck| c@) =~= planned_checks(m));
        r
    }

    /// `execute` on either client: the statement it runs.
    pub fn check_execute(method: &Method) -> (r: Option<SqlCheck>)
        requires
            has_checked_args(*method),
        ensures
            opt_view(r) == execute_check(*method),
    {
        if !is_client_path(&method.path) {
            return None;
        }
        if !str_eq(method.name.as_str(), "execute") {
            return None;
        }
        Self::check_expr(None, &method.args[0], ExprRef { arg: 0, inside_some: false }, false)
    }

    /// `query` and `query_one`: the test that selects them passes no method
    /// name, since no name is both, so this yields no check.
    pub fn check_query(method: &Method) -> (r: Option<SqlCheck>)
        requires
            has_checked_args(*method),
        ensures
            r is None,
    {
        if !is_client_path(&method.path) {
            return None;
        }
        if !str_eq(method.name.as_str(), "query") || !str_eq(method.name.as_str(), "query_one") {
            return None;
        }
        proof {
            reveal_strlit("query");
            reveal_strlit("query_one");
            assert("query"@.len() != "query_one"@.len());
        }
        Self::check_expr(None, &method.args[0], ExprRef { arg: 0, inside_some: false }, true)
    }

    /// A `..._where` method of the synchronous client: its condition, after
    /// `select 1 where`, with `$*` placeholders numbered.
    pub fn check_clause(method: &Method) -> (r: Option<SqlCheck>)
        requires
            has_checked_args(*method),
        ensures
            opt_view(r) == clause_check(*method),
    {
        if !is_connection_path(&method.path) {
            return None;
        }
        if !str_ends_with(method.name.as_str(), "_where") {
            return None;
        }
        Self::check_expr(
            Some("select 1 where"),
            &method.args[0],
            ExprRef { arg: 0, inside_some: false },
            true,
        )
    }

    /// `find_all`, `find_where` and `paginate_find_where` on the synchronous
    /// client: the suffix inside their `Some(..)` argument, after `select 1`.
    pub fn check_suffix(method: &Method) -> (r: Option<SqlCheck>)
        requires
            has_checked_args(*method),
        ensures
            opt_view(r) == suffix_check(*method),
    {
        if !is_connection_path(&method.path) {
            return None;
        }
        let k: usize = if str_eq(method.name.as_str(), "find_all") {
            0
        } else if str_eq(method.name.as_str(), "find_where") || str_eq(
            method.name.as_str(),
            "paginate_find_where",
        ) {
            2
        } else {
            return None;
        };
        match &method.args[k] {
            Arg::SomeOf(inner) => Self::check_expr(
                Some("select 1"),
                &**inner,
                ExprRef { arg: k, inside_some: true },
                false,
            ),
            _ => None,
        }
    }

    /// `upsert_one` on the synchronous client: its conflict target, in an
    /// `insert ... on conflict` statement.
    pub fn check_upsert_target(method: &Method) -> (r: Option<SqlCheck>)
        requires
            has_checked_args(*method),
        ensures
            opt_view(r) == upsert_target_check(*method),
    {
        if !is_connection_path(&method.path) {
            return None;
        }
        if !str_eq(method.name.as_str(), "upsert_one") {
            return None;
        }
        let arg = match super::expr_to_string(&method.args[1]) {
            Some(a) => a,
            None => {
                return None;
            },
        };
        let mut q: Vec<char> = Vec::new();
        push_str(&mut q, "insert into test values(1) on conflict ");
        push_str(&mut q, arg.as_str());
        push_str(&mut q, " do nothing");
        let query = string_of(&q);
        let statement = Self::check_sql(query.as_str(), false);
        Some(SqlCheck { expr: ExprRef { arg: 1, inside_some: false }, sql: query, statement })
    }

    /// `upsert_one` on the synchronous client: its conflict action, in an
    /// `insert ... on conflict` statement.
    pub fn check_upsert_action(method: &Method) -> (r: Option<SqlCheck>)
        requires
            has_checked_args(*method),
        ensures
            opt_view(r) == upsert_action_check(*method),
    {
        if !is_connection_path(&method.path) {
            return None;
        }
        if !str_eq(method.name.as_str(), "upsert_one") {
            return None;
        }
        let arg = match super::expr_to_string(&method.args[2]) {
            Some(a) => a,
            None => {
                return None;
            },
        };
        let mut q: Vec<char> = Vec::new();
        push_str(&mut q, "insert into test values(1) on conflict (test) do ");
        push_str(&mut q, arg.as_str());
        let query = string_of(&q);
        let statement = Self::check_sql(query.as_str(), false);
        Some(SqlCheck { expr: ExprRef { arg: 2, inside_some: false }, sql: query, statement })
    }

    /// The check of a string literal `arg`, after `prefix` (none: empty) and
    /// a space; no check for another expression.
    pub fn check_expr(prefix: Option<&str>, arg: &Arg, expr: ExprRef, order: bool) -> (r: Option<
        SqlCheck,
    >)
        ensures
            opt_view(r) == planned(
                expr,
                query_text(
                    match prefix {
                        Some(p) => p@,
                        None => seq![],
                    },
                    *arg,
                ),
                order,
            ),
    {
        let s = match super::expr_to_string(arg) {
            Some(s) => s,
            None => {
                return None;
            },
        };
        let mut q: Vec<char> = Vec::new();
        match prefix {
            Some(p) => push_str(&mut q, p),
            None => {},
        }
        q.push(' ');
        push_str(&mut q, s.as_str());
        let query = string_of(&q);
        proof {
            reveal_strlit(" ");
            assert(query@ =~= (match prefix {
                Some(p) => p@,
                None => seq![],
            }) + " "@ + s@);
        }
        let statement = Self::check_sql(query.as_str(), order);
        Some(SqlCheck { expr, sql: query, statement })
    }

    /// The statement that validates `sql` without running it; with `order`,
    /// the `$*` placeholders of `sql` are numbered first.
    pub fn check_sql(sql: &str, order: bool) -> (r: String)
        ensures
            r@ == check_statement(sql@, order),
    {
        let query = if order {
            Self::order_parameters(sql)
        } else {
            string_of(&chars_of(sql))
        };
        assert(query@ == (if order { ordered_parameters(sql@) } else { sql@ }));
        let mut body = chars_of(query.as_str());
        let n = body.len();
        let ghost q = query@;
        proof {
            if n > 0 {
                assert(q.subrange(n - 1, n as int) =~= seq![q[n - 1]]);
            }
            if n > 0 && q[n - 1] == ';' {
                assert(ends_with(q, seq![';']));
            } else if n > 0 {
                assert(q.subrange(n - 1, n as int)[0] != seq![';'][0]);
            }
        }
        if !(n > 0 && body[n - 1] == ';') {
            body.push(';');
        }
        assert(body@ =~= terminated(if order { ordered_parameters(sql@) } else { sql@ }));
        let ghost b = body@;
        let mut out: Vec<char> = Vec::new();
        push_str(&mut out, "DO $TEST$ BEGIN RETURN;");
        out.append(&mut body);
        push_str(&mut out, "END; $TEST$;");
        assert(out@ =~= "DO $TEST$ BEGIN RETURN;"@ + b + "END; $TEST$;"@);
        string_of(&out)
    }

    /// Numbers the `$*` placeholders of `query` `$1`, `$2`, ... from left to
    /// right, as a search for `\$\*` meets them.
    pub fn order_parameters(query: &str) -> (r: String)
        ensures
            r@ == ordered_parameters(query@),
    {
        let pieces = split_at_placeholders(query);
        let ghost ps = pieces@.map_values(|p: String| p@);
        proof {
            assert forall|k: int| 0 <= k < ps.len() implies !has_pair(#[trigger] ps[k], '$', '*') by {
                assert(ps[k] == pieces@[k]@);
            }
            lemma_numbered_pieces(ps, 0);
        }
        let n = pieces.len();
        let mut out = chars_of(pieces[0].as_str());
        let mut i: usize = 1;
        assert(ps.skip(1) =~= ps.drop_first());
        while i < n
            invariant
                n == ps.len(),
                ps == pieces@.map_values(|p: String| p@),
                1 <= i <= n,
                out@ + (if i < n {
                    seq!['$'] + decimal(i as nat) + numbered_pieces(ps.skip(i as int), i as nat)
                } else {
                    seq![]
                }) == numbered_pieces(ps, 0),
            decreases n - i,
        {
            let ghost tail = ps.skip(i as int);
            assert(tail[0] == pieces@[i as int]@);
            assert(tail.drop_first() =~= ps.skip(i + 1));
            out.push('$');
            push_decimal(&mut out, i);
            push_str(&mut out, pieces[i].as_str());
            i = i + 1;
            assert(out@ + (if i < n {
                seq!['$'] + decimal(i as nat) + numbered_pieces(ps.skip(i as int), i as nat)
            } else {
                seq![]
            }) =~= numbered_pieces(ps, 0));
        }
        assert(out@ =~= numbered_pieces(ps, 0));
        string_of(&out)
    }
}

} // verus!
