use elephantry_lints::convert::unit;
use elephantry_lints::lints::invalid_query::InvalidQuery;
use elephantry_lints::lints::mix_param_type::MixParamType;
use elephantry_lints::lints::pager_start_page::PagerStartPage;
use elephantry_lints::lints::param_arg_count::{Error as ParamError, ParamArgCount};
use elephantry_lints::lints::{Arg, ExprRef, Function, Method};
use elephantry_lints::result::{annotate_sql_error, Error, SqlFailure};
use elephantry_lints::text::{parse_usize, push_decimal};

fn method(path: &str, name: &str, args: Vec<Arg>) -> Method {
    Method { path: path.to_string(), name: name.to_string(), args }
}

fn query_one(q: &str, n: usize) -> Method {
    method(
        "elephantry::Connection",
        "query_one",
        vec![Arg::Str(q.to_string()), Arg::Array(n)],
    )
}

fn sql_error(message: &str, sql: &str) -> Error {
    Error {
        error: SqlFailure::Sql { message: message.to_string() },
        expr: ExprRef { arg: 0, inside_some: false },
        sql: sql.to_string(),
    }
}

#[test]
fn order_parameters_numbers_from_left() {
    assert_eq!(InvalidQuery::order_parameters("select $*, $*"), "select $1, $2");
    assert_eq!(InvalidQuery::order_parameters("$**"), "$1*");
    assert_eq!(InvalidQuery::order_parameters("$$*"), "$$1");
    assert_eq!(InvalidQuery::order_parameters("$*1"), "$11");
    assert_eq!(InvalidQuery::order_parameters("é $* ü"), "é $1 ü");
    assert_eq!(InvalidQuery::order_parameters(""), "");
    assert_eq!(InvalidQuery::order_parameters("$*"), "$1");
    assert_eq!(InvalidQuery::order_parameters("$*$*"), "$1$2");
    let many = "$*,".repeat(12);
    assert_eq!(
        InvalidQuery::order_parameters(&many),
        "$1,$2,$3,$4,$5,$6,$7,$8,$9,$10,$11,$12,"
    );
}

#[test]
fn order_parameters_keeps_numbered_query_and_is_idempotent() {
    assert_eq!(InvalidQuery::order_parameters("select $1, $2"), "select $1, $2");
    let once = InvalidQuery::order_parameters("a $* b $* c");
    assert_eq!(InvalidQuery::order_parameters(&once), once);
    assert!(!once.contains("$*"));
}

#[test]
fn check_sql_wraps_and_terminates() {
    assert_eq!(
        InvalidQuery::check_sql("select $*", true),
        "DO $TEST$ BEGIN RETURN;select $1;END; $TEST$;"
    );
    assert_eq!(
        InvalidQuery::check_sql("select $*", false),
        "DO $TEST$ BEGIN RETURN;select $*;END; $TEST$;"
    );
    assert_eq!(
        InvalidQuery::check_sql("select 1;", false),
        "DO $TEST$ BEGIN RETURN;select 1;END; $TEST$;"
    );
    assert_eq!(InvalidQuery::check_sql("", false), "DO $TEST$ BEGIN RETURN;;END; $TEST$;");
}

#[test]
fn checks_skip_other_receivers_and_non_literals() {
    let m = method("other::Client", "execute", vec![Arg::Str("x".to_string())]);
    assert!(InvalidQuery::checks(&m).is_empty());
    let m = method("elephantry::Connection", "execute", vec![Arg::Other]);
    assert!(InvalidQuery::checks(&m).is_empty());
    // `..._where` on the asynchronous client is not checked
    let m = method(
        "elephantry::Async",
        "find_where",
        vec![Arg::Str("a = 1".to_string()), Arg::Array(0), Arg::Other],
    );
    assert!(InvalidQuery::checks(&m).is_empty());
}

#[test]
fn find_where_suffix_and_clause() {
    let m = method(
        "elephantry::Connection",
        "find_where",
        vec![
            Arg::Str("a = $*".to_string()),
            Arg::Array(1),
            Arg::SomeOf(Box::new(Arg::Str("order by a".to_string()))),
        ],
    );
    let checks = InvalidQuery::checks(&m);
    assert_eq!(checks.len(), 2);
    assert_eq!(checks[0].expr, ExprRef { arg: 2, inside_some: true });
    assert_eq!(checks[0].sql, "select 1 order by a");
    assert_eq!(checks[1].expr, ExprRef { arg: 0, inside_some: false });
    assert_eq!(checks[1].statement, "DO $TEST$ BEGIN RETURN;select 1 where a = $1;END; $TEST$;");
}

#[test]
fn count_param_values() {
    assert_eq!(ParamArgCount::count_param("select $*, $*"), Some(2));
    assert_eq!(ParamArgCount::count_param("select $3, $1"), Some(3));
    assert_eq!(ParamArgCount::count_param("select 1"), Some(0));
    assert_eq!(ParamArgCount::count_param("select $1, $*"), Some(1));
    assert_eq!(ParamArgCount::count_param("select $007"), Some(7));
    assert_eq!(ParamArgCount::count_param("price > $ 3"), Some(0));
    assert_eq!(ParamArgCount::count_param("select $*1"), Some(11));
    assert_eq!(ParamArgCount::count_param("select 'é', $*"), Some(1));
    assert_eq!(ParamArgCount::count_param("é $1"), Some(1));
    assert_eq!(ParamArgCount::count_param("select '1€', $*"), Some(1));
    assert_eq!(ParamArgCount::check(&query_one("select '1€', $*, $*", 2)), Some(Ok(())));
}

#[test]
fn count_param_unreadable_numbers() {
    // too large for a usize
    assert_eq!(ParamArgCount::count_param("select $99999999999999999999999"), None);
    // a decimal digit outside ASCII is matched by `\d` but not read by `parse`
    assert_eq!(ParamArgCount::count_param("select $\u{0663}"), None);
}

#[test]
fn param_check_unreadable_number() {
    assert_eq!(ParamArgCount::check(&query_one("select $99999999999999999999999", 1)), None);
}

#[test]
fn param_check_skips() {
    let m = method("elephantry::Connection", "execute", vec![Arg::Str("select $1".to_string())]);
    assert_eq!(ParamArgCount::check(&m), Some(Ok(())));
    let m = method(
        "elephantry::Connection",
        "query",
        vec![Arg::Str("select $1".to_string()), Arg::Other],
    );
    assert_eq!(ParamArgCount::check(&m), Some(Ok(())));
    assert_eq!(ParamArgCount::check(&query_one("select $1, $2", 2)), Some(Ok(())));
    let m = method(
        "elephantry::Async",
        "count_where",
        vec![Arg::Str("a = $1".to_string()), Arg::Array(0)],
    );
    assert_eq!(
        ParamArgCount::check(&m),
        Some(Err(ParamError::Missing { expected: 1, actual: 0 }))
    );
}

#[test]
fn param_error_messages() {
    assert_eq!(ParamError::NeverUse { params: 2 }.message(), "arguments never used");
    assert_eq!(
        ParamError::Missing { expected: 12, actual: 0 }.message(),
        "12 positional argument(s) in query, but there is 0 argument(s)"
    );
}

#[test]
fn mix_param_type_cases() {
    assert_eq!(MixParamType::check(&query_one("select $1, $*", 1)), Err(()));
    assert_eq!(MixParamType::check(&query_one("select $*, $*", 2)), Ok(()));
    assert_eq!(MixParamType::check(&query_one("select $1, $2", 2)), Ok(()));
    // `\d` takes any decimal digit
    assert_eq!(MixParamType::check(&query_one("select $*, $\u{0663}", 2)), Err(()));
    let m = method("elephantry::Connection", "execute", vec![Arg::Str("select $1, $*".to_string())]);
    assert_eq!(MixParamType::check(&m), Ok(()));
}

#[test]
fn pager_checks() {
    let m = method(
        "elephantry::Connection",
        "paginate_find_where",
        vec![Arg::Str("$* = 0".to_string()), Arg::Array(0), Arg::Int(20), Arg::Int(0), Arg::Other],
    );
    assert_eq!(PagerStartPage::check_paginate_find_where(&m), Err(3));
    let m = method(
        "elephantry::Connection",
        "paginate_find_where",
        vec![Arg::Str("$* = 0".to_string()), Arg::Array(0), Arg::Int(20), Arg::Int(1), Arg::Other],
    );
    assert_eq!(PagerStartPage::check_paginate_find_where(&m), Ok(()));
    let f = Function {
        path: "elephantry::Pager::<E>::new".to_string(),
        args: vec![Arg::Other, Arg::Int(10), Arg::Other, Arg::Int(10)],
    };
    assert_eq!(PagerStartPage::check_pager_new(&f), Ok(()));
    let f = Function {
        path: "other::Pager::new".to_string(),
        args: vec![Arg::Other, Arg::Int(10), Arg::Int(0), Arg::Int(10)],
    };
    assert_eq!(PagerStartPage::check_pager_new(&f), Ok(()));
}

#[test]
fn report_with_position() {
    let e = sql_error("syntax error at or near \"selec\"\n26\n", " selec 1");
    assert_eq!(
        e.display(),
        Some("syntax error at or near \"selec\"\n2:\n\n selec 1\n__^".to_string())
    );
}

#[test]
fn report_without_position() {
    let e = sql_error("relation \"test\" does not exist", "select 1");
    assert_eq!(
        e.display(),
        Some("relation \"test\" does not existselect 1\n^".to_string())
    );
}

#[test]
fn report_with_unusable_position() {
    assert_eq!(sql_error("error at 12\n", "x").display(), None);
    assert_eq!(sql_error("error at 99999999999999999999999\n", "x").display(), None);
}

#[test]
fn report_of_other_failure() {
    let e = Error {
        error: SqlFailure::Other { text: "connection refused".to_string() },
        expr: ExprRef { arg: 0, inside_some: false },
        sql: "select 1".to_string(),
    };
    assert_eq!(e.display(), Some("connection refused".to_string()));
    assert_eq!(e.span(), ExprRef { arg: 0, inside_some: false });
}

#[test]
fn annotate_with_group() {
    assert_eq!(annotate_sql_error("oops 24\n", Some("24"), "abc"), "oops 0:\n\nabc\n^");
    assert_eq!(annotate_sql_error("oops", None, "abc"), "oopsabc\n^");
}

#[test]
fn error_from_parts() {
    let e: Error = (
        SqlFailure::Sql { message: String::new() },
        ExprRef { arg: 1, inside_some: false },
        "q".to_string(),
    )
        .into();
    assert_eq!(e.span(), ExprRef { arg: 1, inside_some: false });
    assert_eq!(e.sql, "q");
}

#[test]
fn decimal_and_parse() {
    let mut out = Vec::new();
    push_decimal(&mut out, 1020);
    assert_eq!(out, vec!['1', '0', '2', '0']);
    assert_eq!(parse_usize(&vec!['+', '4', '2']), Some(42));
    assert_eq!(parse_usize(&vec!['+']), None);
    assert_eq!(parse_usize(&vec![]), None);
    assert_eq!(parse_usize(&vec!['-', '1']), None);
}

#[test]
fn unit_discards() {
    assert_eq!(unit(5), ());
}
