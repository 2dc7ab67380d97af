//! The invalid-time-layout rule: a call of the time package's parse
//! function whose first argument resolves to a literal has that layout
//! string normalized and submitted to the semantic oracle.

use vstd::prelude::*;
use vstd::string::*;

use crate::ast::PrimaryExpr;
use crate::configuration::Configuration;
use crate::configuration::enabled_spec;
use crate::error::Error;
use crate::error::Point;
use crate::scope::Scope;
use crate::scope::eval_spec;
use crate::scope::eval_with_loc;
use crate::scope::expr_loc;
use crate::text::replace_char;
use crate::text::replace_spec;
use crate::text::str_eq;

verus! {

/// A candidate for oracle validation: the normalized layout string and
/// the argument's character offset.
pub struct Request {
    pub expr: String,
    pub loc: usize,
}

/// The normalization applied before validation: underscores become
/// spaces and zone letters become a sign.
pub open spec fn normalized(s: Seq<char>) -> Seq<char> {
    replace_spec(replace_spec(s, '_', ' '), 'Z', '-')
}

/// What the rule submits to the oracle for a call node: the normalized
/// first argument, provided the rule is enabled, the callee is `Parse`
/// selected from an identifier resolving to the time package, and the
/// argument resolves.
pub open spec fn request_spec(
    c: &Configuration,
    m: Map<Seq<char>, Seq<char>>,
    call: PrimaryExpr,
) -> Option<(Seq<char>, int)> {
    if !enabled_spec(c, "SA1002"@) {
        None
    } else if call.operand is Some && call.operand->Some_0.operand_name is Some && call.selector
        is Some && call.selector->Some_0.identifier@ == "Parse"@ && call.arguments is Some
        && call.arguments->Some_0.expression_list@.len() > 0 {
        let pkg = call.operand->Some_0.operand_name->Some_0.identifier@;
        if m.contains_key(pkg) && m[pkg] == "time"@ {
            let arg = call.arguments->Some_0.expression_list@[0];
            match eval_spec(m, &arg) {
                Some(s) => Some((normalized(s), expr_loc(arg))),
                None => None,
            }
        } else {
            None
        }
    } else {
        None
    }
}

/// Extracts the oracle candidate from a call node, or nothing when the
/// rule does not apply; an unresolved package or argument stays silent.
pub fn run(configuration: &Configuration, scope: &Scope, call: &PrimaryExpr) -> (r: Option<
    Request,
>)
    ensures
        match r {
            Some(req) => request_spec(configuration, scope@, *call) == Some(
                (req.expr@, req.loc as int),
            ),
            None => request_spec(configuration, scope@, *call) is None,
        },
{
    if !configuration.is_enabled(String::from_str("SA1002")) {
        return None;
    }
    let op = match &call.operand {
        Some(op) => op,
        None => {
            return None;
        },
    };
    let pkg = match &op.operand_name {
        Some(n) => &n.identifier,
        None => {
            return None;
        },
    };
    let sel = match &call.selector {
        Some(s) => &s.identifier,
        None => {
            return None;
        },
    };
    if !str_eq(sel.as_str(), "Parse") {
        return None;
    }
    let args = match &call.arguments {
        Some(a) => a,
        None => {
            return None;
        },
    };
    if args.expression_list.len() == 0 {
        return None;
    }
    let resolved = match scope.get(pkg.as_str()) {
        Some(v) => v,
        None => {
            return None;
        },
    };
    if !str_eq(resolved.as_str(), "time") {
        return None;
    }
    match eval_with_loc(scope, &args.expression_list[0]) {
        Some(v) => {
            let spaced = replace_char(v.0.as_str(), '_', ' ');
            let signed = replace_char(spaced.as_str(), 'Z', '-');
            Some(Request { expr: signed, loc: v.1 })
        },
        None => None,
    }
}

/// Turns the oracle's verdict into the rule's diagnostic: the message
/// is carried verbatim, anchored at the argument's position.
pub fn report(filename: &str, position: Point, result: Option<String>) -> (r: Option<Error>)
    ensures
        match result {
            Some(msg) => r is Some && r->Some_0.filename@ == filename@ && r->Some_0.position
                == position && r->Some_0.rule@ == "SA1002"@ && r->Some_0.message@ == msg@,
            None => r is None,
        },
{
    match result {
        Some(msg) => Some(
            Error {
                filename: filename.to_owned(),
                position,
                rule: String::from_str("SA1002"),
                message: msg,
            },
        ),
        None => None,
    }
}

} // verus!
