//! A query that the database refused, and how it is reported.

use vstd::prelude::*;
use crate::text::{chars_of, decimal, ends_with, parse_usize, parsed_usize, push_decimal, push_str, string_of};
use crate::patterns::{trailing_number, trailing_number_text, trailing_digit_run, trailing_digits_ascii};
use crate::lints::ExprRef;

verus! {

/// Why the database refused a statement.
pub enum SqlFailure {
    /// The server answered with an error; `message` is its text (empty when
    /// it gave none).
    Sql { message: String },
    /// Any other failure, with the text that describes it.
    Other { text: String },
}

/// A statement that the database refused, the expression it came from and
/// the SQL as it is shown.
pub struct Error {
    pub error: SqlFailure,
    pub expr: ExprRef,
    pub sql: String,
}

/// `n` underscores and a caret: the caret stands under column `n` of the
/// line above it.
pub open spec fn caret_line(n: nat) -> Seq<char> {
    Seq::new(n, |_i: int| '_').push('^')
}

/// The report of a server error `message` about `sql`. Where `group` holds
/// the position that ends `message` (counted from 1 in the statement sent,
/// whose first 23 characters come before `sql`), that position becomes the
/// column in `sql`, and a caret points at it.
pub open spec fn annotated(message: Seq<char>, group: Option<Seq<char>>, sql: Seq<char>) -> Seq<
    char,
> {
    match group {
        None => message + sql + seq!['\n'] + caret_line(0),
        Some(g) => {
            let n = (parsed_usize(g)->0 - 24) as nat;
            message.take(message.len() - g.len() - 1) + decimal(n) + seq![':', '\n', '\n'] + sql
                + seq!['\n'] + caret_line(n)
        },
    }
}

/// The report of `e`, where `group` is the position that ends the server's
/// message, if any; `None` where that position does not read as a `usize` of
/// at least 24.
pub open spec fn report(e: Error, group: Option<Seq<char>>) -> Option<Seq<char>> {
    match e.error {
        SqlFailure::Other { text } => Some(text@),
        SqlFailure::Sql { message } => match group {
            None => Some(annotated(message@, None, e.sql@)),
            Some(g) => match parsed_usize(g) {
                Some(v) => if v >= 24 {
                    Some(annotated(message@, Some(g), e.sql@))
                } else {
                    None
                },
                None => None,
            },
        },
    }
}

/// The report of `e`, with the position that a search for `(\d+)\n$` finds
/// at the end of the server's message.
pub open spec fn rendered(e: Error) -> Option<Seq<char>> {
    match e.error {
        SqlFailure::Sql { message } => report(e, trailing_number(message@)),
        SqlFailure::Other { .. } => report(e, None),
    }
}

/// The server's message of `e` does not end with `\n`, or the character
/// before the ASCII digits that precede that `\n` is ASCII.
pub open spec fn plain_message(e: Error) -> bool {
    match e.error {
        SqlFailure::Sql { message } => !(message@.len() > 0 && message@.last() == '\n')
            || trailing_digits_ascii(message@),
        SqlFailure::Other { .. } => true,
    }
}

/// The ASCII digits right before the final `\n` of the server's message.
pub open spec fn message_group(e: Error) -> Option<Seq<char>> {
    match e.error {
        SqlFailure::Sql { message } => trailing_digit_run(message@),
        SqlFailure::Other { .. } => None,
    }
}

/// The view of an optional text.
pub open spec fn opt_text(r: Option<String>) -> Option<Seq<char>> {
    match r {
        Some(s) => Some(s@),
        None => None,
    }
}

/// The report of a server error `message` about `sql`, where `group` is the
/// position that ends `message`, if any.
pub fn annotate_sql_error(message: &str, group: Option<&str>, sql: &str) -> (r: String)
    requires
        group matches Some(g) ==> (ends_with(message@, g@.push('\n')) && (parsed_usize(g@) matches Some(
            v,
        ) && v >= 24)),
    ensures
        r@ == annotated(
            message@,
            match group {
                Some(g) => Some(g@),
                None => None,
            },
            sql@,
        ),
{
    let text = chars_of(message);
    let mut out: Vec<char> = Vec::new();
    let mut n: usize = 0;
    match group {
        None => {
            out.append(&mut chars_of(message));
        },
        Some(g) => {
            let digits = chars_of(g);
            let v = match parse_usize(&digits) {
                Some(v) => v,
                None => {
                    proof {
                        assert(false);
                    }
                    0
                },
            };
            n = v - 24;
            let keep = text.len() - digits.len() - 1;
            let mut i: usize = 0;
            while i < keep
                invariant
                    keep <= text@.len(),
                    i <= keep,
                    out@ == text@.take(i as int),
                decreases keep - i,
            {
                out.push(text[i]);
                i = i + 1;
            }
            push_decimal(&mut out, n);
            out.push(':');
            out.push('\n');
            out.push('\n');
        },
    }
    let ghost head = out@;
    push_str(&mut out, sql);
    out.push('\n');
    let mut k: usize = 0;
    while k < n
        invariant
            k <= n,
            out@ == head + sql@ + seq!['\n'] + Seq::new(k as nat, |_i: int| '_'),
        decreases n - k,
    {
        out.push('_');
        k = k + 1;
        assert(Seq::new(k as nat, |_i: int| '_') =~= Seq::new((k - 1) as nat, |_i: int| '_').push('_'));
    }
    out.push('^');
    assert(out@ =~= annotated(
        message@,
        match group {
            Some(g) => Some(g@),
            None => None,
        },
        sql@,
    ));
    string_of(&out)
}

/// A server error's report ends with a line that holds a caret under the
/// column of the SQL that the position at the end of the message names (the
/// first column when the message names none), and the SQL on the line above.
pub proof fn law_report_caret_under_position(e: Error, group: Option<Seq<char>>)
    requires
        e.error is Sql,
        report(e, group) is Some,
    ensures
        ({
            let column: nat = match group {
                Some(g) => (parsed_usize(g)->0 - 24) as nat,
                None => 0,
            };
            let text = report(e, group)->0;
            &&& ends_with(text, e.sql@ + seq!['\n'] + caret_line(column))
            &&& caret_line(column).len() == column + 1
            &&& caret_line(column)[column as int] == '^'
            &&& forall|i: int| 0 <= i < column ==> caret_line(column)[i] == '_'
        }),
{
    let column: nat = match group {
        Some(g) => (parsed_usize(g)->0 - 24) as nat,
        None => 0,
    };
    let text = report(e, group)->0;
    let tail = e.sql@ + seq!['\n'] + caret_line(column);
    assert(text.subrange(text.len() - tail.len(), text.len() as int) =~= tail);
}

impl Error {
    /// The expression that the refused SQL came from.
    pub fn span(&self) -> (r: ExprRef)
        ensures
            r == self.expr,
    {
        self.expr
    }

    /// The report of this error: a server error's message with its position
    /// turned into a column of the SQL, the SQL, and a caret under that
    /// column; another failure's own text. `None` where the position that
    /// ends a server message does not read as a `usize` of at least 24.
    pub fn display(&self) -> (r: Option<String>)
        ensures
            opt_text(r) == rendered(*self),
            plain_message(*self) ==> opt_text(r) == report(*self, message_group(*self)),
    {
        match &self.error {
            SqlFailure::Other { text } => Some(text.clone()),
            SqlFailure::Sql { message } => {
                match trailing_number_text(message.as_str()) {
                    None => Some(annotate_sql_error(message.as_str(), None, self.sql.as_str())),
                    Some(g) => {
                        match parse_usize(&chars_of(g.as_str())) {
                            Some(v) => {
                                if v >= 24 {
                                    Some(
                                        annotate_sql_error(
                                            message.as_str(),
                                            Some(g.as_str()),
                                            self.sql.as_str(),
                                        ),
                                    )
                                } else {
                                    None
                                }
                            },
                            None => None,
                        }
                    },
                }
            },
        }
    }
}

impl From<(SqlFailure, ExprRef, String)> for Error {
    fn from(value: (SqlFailure, ExprRef, String)) -> (r: Error) {
        Error { error: value.0, expr: value.1, sql: value.2 }
    }
}

impl vstd::std_specs::convert::FromSpecImpl<(SqlFailure, ExprRef, String)> for Error {
    open spec fn obeys_from_spec() -> bool {
        true
    }

    open spec fn from_spec(value: (SqlFailure, ExprRef, String)) -> Error {
        Error { error: value.0, expr: value.1, sql: value.2 }
    }
}

} // verus!
