//! The invalid-regular-expression rule: a call of a compile or match
//! function of the regular-expression package whose first argument
//! resolves to a literal is submitted to the semantic oracle; a
//! non-empty oracle message becomes a diagnostic at the argument.

use vstd::prelude::*;
use vstd::string::*;

use crate::ast::PrimaryExpr;
use crate::configuration::Configuration;
use crate::configuration::enabled_spec;
use crate::error::Error;
use crate::error::Point;
use crate::scope::Scope;
use crate::scope::eval_spec;
use crate::scope::eval_with_loc;
use crate::scope::expr_loc;
use crate::text::str_eq;

verus! {

/// A candidate for oracle validation: the resolved literal and the
/// argument's character offset.
pub struct Request {
    pub expr: String,
    pub loc: usize,
}

/// The method names the rule watches on the regular-expression package.
pub open spec fn watched_method(m: Seq<char>) -> bool {
    m == "Compile"@ || m == "Match"@ || m == "MatchReader"@ || m == "MatchString"@ || m
        == "MustCompile"@
}

/// What the rule submits to the oracle for a call node: the first
/// argument's resolved literal, provided the rule is enabled, the
/// callee is a watched method selected from an identifier that resolves
/// to the regular-expression package, and the argument resolves.
pub open spec fn request_spec(
    c: &Configuration,
    m: Map<Seq<char>, Seq<char>>,
    call: PrimaryExpr,
) -> Option<(Seq<char>, int)> {
    if !enabled_spec(c, "SA1000"@) {
        None
    } else if call.operand is Some && call.operand->Some_0.operand_name is Some && call.selector
        is Some && watched_method(call.selector->Some_0.identifier@) && call.arguments is Some
        && call.arguments->Some_0.expression_list@.len() > 0 {
        let pkg = call.operand->Some_0.operand_name->Some_0.identifier@;
        if m.contains_key(pkg) && m[pkg] == "regexp"@ {
            let arg = call.arguments->Some_0.expression_list@[0];
            match eval_spec(m, &arg) {
                Some(s) => Some((s, expr_loc(arg))),
                None => None,
            }
        } else {
            None
        }
    } else {
        None
    }
}

/// Extracts the oracle candidate from a call node, or nothing when the
/// rule does not apply; an unresolved package or argument stays silent.
pub fn run(configuration: &Configuration, scope: &Scope, call: &PrimaryExpr) -> (r: Option<
    Request,
>)
    ensures
        match r {
            Some(req) => request_spec(configuration, scope@, *call) == Some(
                (req.expr@, req.loc as int),
            ),
            None => request_spec(configuration, scope@, *call) is None,
        },
{
    if !configuration.is_enabled(String::from_str("SA1000")) {
        return None;
    }
    let op = match &call.operand {
        Some(op) => op,
        None => {
            return None;
        },
    };
    let pkg = match &op.operand_name {
        Some(n) => &n.identifier,
        None => {
            return None;
        },
    };
    let sel = match &call.selector {
        Some(s) => &s.identifier,
        None => {
            return None;
        },
    };
    if !(str_eq(sel.as_str(), "Compile") || str_eq(sel.as_str(), "Match") || str_eq(
        sel.as_str(),
        "MatchReader",
    ) || str_eq(sel.as_str(), "MatchString") || str_eq(sel.as_str(), "MustCompile")) {
        return None;
    }
    let args = match &call.arguments {
        Some(a) => a,
        None => {
            return None;
        },
    };
    if args.expression_list.len() == 0 {
        return None;
    }
    let resolved = match scope.get(pkg.as_str()) {
        Some(v) => v,
        None => {
            return None;
        },
    };
    if !str_eq(resolved.as_str(), "regexp") {
        return None;
    }
    match eval_with_loc(scope, &args.expression_list[0]) {
        Some(v) => Some(Request { expr: v.0, loc: v.1 }),
        None => None,
    }
}

/// Turns the oracle's verdict into the rule's diagnostic: the message
/// is carried verbatim, anchored at the argument's position.
pub fn report(filename: &str, position: Point, result: Option<String>) -> (r: Option<Error>)
    ensures
        match result {
            Some(msg) => r is Some && r->Some_0.filename@ == filename@ && r->Some_0.position
                == position && r->Some_0.rule@ == "SA1000"@ && r->Some_0.message@ == msg@,
            None => r is None,
        },
{
    match result {
        Some(msg) => Some(
            Error {
                filename: filename.to_owned(),
                position,
                rule: String::from_str("SA1000"),
                message: msg,
            },
        ),
        None => None,
    }
}

} // verus!
