//! The invalid-template rule: a chained new-then-parse call on one of
//! the two template packages has its template string submitted to the
//! matching oracle dialect; only messages phrased as parse errors
//! become diagnostics, so unrelated execution errors are not flagged.

use vstd::prelude::*;
use vstd::string::*;

use crate::ast::Expression;
use crate::configuration::Configuration;
use crate::configuration::enabled_spec;
use crate::error::Error;
use crate::error::Point;
use crate::scope::Scope;
use crate::scope::eval;
use crate::scope::eval_spec;
use crate::scope::eval_with_loc;
use crate::scope::expr_loc;
use crate::text::spec_contains;
use crate::text::str_contains;
use crate::text::str_eq;

verus! {

/// The two template dialects the oracle can validate.
#[derive(Debug, Clone, Copy, PartialEq, Eq, Structural)]
pub enum Dialect {
    HtmlTemplate,
    TextTemplate,
}

/// A candidate for oracle validation: which dialect to consult, the
/// resolved template string and the argument's character offset.
pub struct Request {
    pub dialect: Dialect,
    pub expr: String,
    pub loc: usize,
}

/// The dialect a resolved package path selects.
pub open spec fn dialect_of(pkg: Seq<char>) -> Option<Dialect> {
    if pkg == "html/template"@ {
        Some(Dialect::HtmlTemplate)
    } else if pkg == "text/template"@ {
        Some(Dialect::TextTemplate)
    } else {
        None
    }
}

/// What the rule submits to the oracle, from the two captures of the
/// chained-call pattern: the package identifier must resolve to a
/// template package and the template argument to a literal.
pub open spec fn request_spec(
    c: &Configuration,
    m: Map<Seq<char>, Seq<char>>,
    package: Expression,
    expr: Expression,
) -> Option<(Dialect, Seq<char>, int)> {
    if !enabled_spec(c, "SA1001"@) {
        None
    } else {
        match eval_spec(m, &package) {
            Some(pkg) => match dialect_of(pkg) {
                Some(d) => match eval_spec(m, &expr) {
                    Some(s) => Some((d, s, expr_loc(expr))),
                    None => None,
                },
                None => None,
            },
            None => None,
        }
    }
}

/// Extracts the oracle candidate from the pattern's captures, or
/// nothing when the rule does not apply; unresolved captures stay
/// silent.
pub fn run(configuration: &Configuration, scope: &Scope, package: &Expression, expr: &Expression)
    -> (r: Option<Request>)
    ensures
        match r {
            Some(req) => request_spec(configuration, scope@, *package, *expr) == Some(
                (req.dialect, req.expr@, req.loc as int),
            ),
            None => request_spec(configuration, scope@, *package, *expr) is None,
        },
{
    if !configuration.is_enabled(String::from_str("SA1001")) {
        return None;
    }
    let pkg = match eval(scope, package) {
        Some(p) => p,
        None => {
            return None;
        },
    };
    let dialect = if str_eq(pkg.as_str(), "html/template") {
        Dialect::HtmlTemplate
    } else if str_eq(pkg.as_str(), "text/template") {
        Dialect::TextTemplate
    } else {
        return None;
    };
    match eval_with_loc(scope, expr) {
        Some(v) => Some(Request { dialect, expr: v.0, loc: v.1 }),
        None => None,
    }
}

/// The phrasings that mark an oracle message as a parse error.
pub open spec fn parse_error_message(msg: Seq<char>) -> bool {
    spec_contains(msg, "bad character"@) || spec_contains(msg, "unexpected"@)
}

/// Turns the oracle's verdict into the rule's diagnostic: only a
/// message phrased as a parse error is reported, verbatim, anchored at
/// the template argument's position.
pub fn report(filename: &str, position: Point, result: Option<String>) -> (r: Option<Error>)
    ensures
        match result {
            Some(msg) => if parse_error_message(msg@) {
                r is Some && r->Some_0.filename@ == filename@ && r->Some_0.position == position
                    && r->Some_0.rule@ == "SA1001"@ && r->Some_0.message@ == msg@
            } else {
                r is None
            },
            None => r is None,
        },
{
    match result {
        Some(msg) => {
            if !(str_contains(msg.as_str(), "bad character") || str_contains(
                msg.as_str(),
                "unexpected",
            )) {
                return None;
            }
            Some(
                Error {
                    filename: filename.to_owned(),
                    position,
                    rule: String::from_str("SA1001"),
                    message: msg,
                },
            )
        },
        None => None,
    }
}

} // verus!
