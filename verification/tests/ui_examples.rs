use elephantry_lints::lints::invalid_query::InvalidQuery;
use elephantry_lints::lints::mix_param_type::MixParamType;
use elephantry_lints::lints::pager_start_page::PagerStartPage;
use elephantry_lints::lints::param_arg_count::{Error as ParamError, ParamArgCount};
use elephantry_lints::lints::{Arg, ExprRef, Function, Method};

fn method(path: &str, name: &str, args: Vec<Arg>) -> Method {
    Method { path: path.to_string(), name: name.to_string(), args }
}

fn text(s: &str) -> Arg {
    Arg::Str(s.to_string())
}

fn at(arg: usize) -> ExprRef {
    ExprRef { arg, inside_some: false }
}

fn statements(m: &Method) -> Vec<(ExprRef, String, String)> {
    InvalidQuery::checks(m)
        .into_iter()
        .map(|c| (c.expr, c.sql, c.statement))
        .collect()
}

const CONNECTION: &str = "elephantry::Connection";
const ASYNC: &str = "elephantry::Async";

#[test]
fn invalid_query() {
    // elephantry.execute("select 1")
    assert_eq!(
        statements(&method(CONNECTION, "execute", vec![text("select 1")])),
        vec![(
            at(0),
            " select 1".to_string(),
            "DO $TEST$ BEGIN RETURN; select 1;END; $TEST$;".to_string()
        )]
    );
    // elephantry.execute("selec 1")
    assert_eq!(
        statements(&method(CONNECTION, "execute", vec![text("selec 1")])),
        vec![(
            at(0),
            " selec 1".to_string(),
            "DO $TEST$ BEGIN RETURN; selec 1;END; $TEST$;".to_string()
        )]
    );
    // elephantry.query::<()>("select $*", &[&1]): no statement for `query`
    assert_eq!(
        statements(&method(CONNECTION, "query", vec![text("select $*"), Arg::Array(1)])),
        vec![]
    );
    // elephantry.find_all::<Model>(Some("order y 1"))
    assert_eq!(
        statements(&method(
            CONNECTION,
            "find_all",
            vec![Arg::SomeOf(Box::new(text("order y 1")))]
        )),
        vec![(
            ExprRef { arg: 0, inside_some: true },
            "select 1 order y 1".to_string(),
            "DO $TEST$ BEGIN RETURN;select 1 order y 1;END; $TEST$;".to_string()
        )]
    );
    // elephantry.find_where::<Model>("$* =", &[], None)
    assert_eq!(
        statements(&method(
            CONNECTION,
            "find_where",
            vec![text("$* ="), Arg::Array(0), Arg::Other]
        )),
        vec![(
            at(0),
            "select 1 where $* =".to_string(),
            "DO $TEST$ BEGIN RETURN;select 1 where $1 =;END; $TEST$;".to_string()
        )]
    );
    // elephantry.paginate_find_where::<Model>("$* = 0", &[], 20, 0, None)
    assert_eq!(
        statements(&method(
            CONNECTION,
            "paginate_find_where",
            vec![text("$* = 0"), Arg::Array(0), Arg::Int(20), Arg::Int(0), Arg::Other]
        )),
        vec![(
            at(0),
            "select 1 where $* = 0".to_string(),
            "DO $TEST$ BEGIN RETURN;select 1 where $1 = 0;END; $TEST$;".to_string()
        )]
    );
    // elephantry.count_where::<Model>("valid = $", &[&true])
    assert_eq!(
        statements(&method(CONNECTION, "count_where", vec![text("valid = $"), Arg::Array(1)])),
        vec![(
            at(0),
            "select 1 where valid = $".to_string(),
            "DO $TEST$ BEGIN RETURN;select 1 where valid = $;END; $TEST$;".to_string()
        )]
    );
    // elephantry.exist_where::<Model>("valid = $", &[&true])
    assert_eq!(
        statements(&method(CONNECTION, "exist_where", vec![text("valid = $"), Arg::Array(1)])).len(),
        1
    );
    // elephantry.delete_where::<Model>("", &[])
    assert_eq!(
        statements(&method(CONNECTION, "delete_where", vec![text(""), Arg::Array(0)])),
        vec![(
            at(0),
            "select 1 where ".to_string(),
            "DO $TEST$ BEGIN RETURN;select 1 where ;END; $TEST$;".to_string()
        )]
    );
    // elephantry.r#async().execute("s")
    assert_eq!(
        statements(&method(ASYNC, "execute", vec![text("s")])),
        vec![(
            at(0),
            " s".to_string(),
            "DO $TEST$ BEGIN RETURN; s;END; $TEST$;".to_string()
        )]
    );
    // elephantry.upsert_one::<Model>(&entity, "invalid_target", "invalid_action")
    assert_eq!(
        statements(&method(
            CONNECTION,
            "upsert_one",
            vec![Arg::Other, text("invalid_target"), text("invalid_action")]
        )),
        vec![
            (
                at(1),
                "insert into test values(1) on conflict invalid_target do nothing".to_string(),
                "DO $TEST$ BEGIN RETURN;insert into test values(1) on conflict invalid_target do nothing;END; $TEST$;".to_string()
            ),
            (
                at(2),
                "insert into test values(1) on conflict (test) do invalid_action".to_string(),
                "DO $TEST$ BEGIN RETURN;insert into test values(1) on conflict (test) do invalid_action;END; $TEST$;".to_string()
            ),
        ]
    );
}

#[test]
fn mix_param_type() {
    // elephantry.query_one::<()>("select $1, $*", &[&1])
    let m = method(CONNECTION, "query_one", vec![text("select $1, $*"), Arg::Array(1)]);
    assert_eq!(MixParamType::check(&m), Err(()));
}

#[test]
fn pager_start_page() {
    // elephantry::Pager::<()>::new(rows.into(), 10, 0, 10)
    let f = Function {
        path: "elephantry::Pager::<E>::new".to_string(),
        args: vec![Arg::Other, Arg::Int(10), Arg::Int(0), Arg::Int(10)],
    };
    assert_eq!(PagerStartPage::check_pager_new(&f), Err(2));
}

#[test]
fn param_arg_count() {
    // pass: elephantry.query_one("select $*", &[&1])
    let pass = method(CONNECTION, "query_one", vec![text("select $*"), Arg::Array(1)]);
    assert_eq!(ParamArgCount::check(&pass), Some(Ok(())));
    // fail: elephantry.query_one::<()>("select $*", &[])
    let m = method(CONNECTION, "query_one", vec![text("select $*"), Arg::Array(0)]);
    assert_eq!(
        ParamArgCount::check(&m),
        Some(Err(ParamError::Missing { expected: 1, actual: 0 }))
    );
    // fail: elephantry.query_one::<()>("select $1, $2", &[&1, &2, &3])
    let m = method(CONNECTION, "query_one", vec![text("select $1, $2"), Arg::Array(3)]);
    assert_eq!(
        ParamArgCount::check(&m),
        Some(Err(ParamError::Missing { expected: 2, actual: 3 }))
    );
    // fail: elephantry.query_one::<()>("select 1", &[&1, &2])
    let m = method(CONNECTION, "query_one", vec![text("select 1"), Arg::Array(2)]);
    assert_eq!(
        ParamArgCount::check(&m),
        Some(Err(ParamError::NeverUse { params: 2 }))
    );
}
