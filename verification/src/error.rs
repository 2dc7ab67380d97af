//! Diagnostics: a violation's location, rule identifier and message, and
//! the one-line rendering `<path>:<line>:<column>: <message> (<rule>)`.

use vstd::prelude::*;
use vstd::string::*;

use crate::text::dec_spec;
use crate::text::dec_of;

verus! {

/// A zero-based row/column position in a source file.
#[derive(Debug, Clone, Copy, PartialEq, Eq, Structural)]
pub struct Point {
    pub row: usize,
    pub column: usize,
}

/// One reported violation.
#[derive(Debug, Clone)]
pub struct Error {
    pub filename: String,
    pub position: Point,
    pub rule: String,
    pub message: String,
}

/// The row and column reached after reading `s`: rows count newlines,
/// and the column restarts at zero after each newline.
pub open spec fn row_col(s: Seq<char>) -> (nat, nat)
    decreases s.len(),
{
    if s.len() == 0 {
        (0nat, 0nat)
    } else {
        let rc = row_col(s.drop_last());
        if s.last() == '\n' {
            ((rc.0 + 1) as nat, 0nat)
        } else {
            (rc.0, (rc.1 + 1) as nat)
        }
    }
}

/// The position of character offset `loc` in `source`.
pub fn position_of(source: &str, loc: usize) -> (p: Point)
    requires
        loc <= source@.len(),
    ensures
        p.row == row_col(source@.subrange(0, loc as int)).0,
        p.column == row_col(source@.subrange(0, loc as int)).1,
{
    let mut row: usize = 0;
    let mut column: usize = 0;
    let mut i: usize = 0;
    while i < loc
        invariant
            i <= loc <= source@.len(),
            row <= i,
            column <= i,
            row == row_col(source@.subrange(0, i as int)).0,
            column == row_col(source@.subrange(0, i as int)).1,
        decreases loc - i,
    {
        let c = source.get_char(i);
        proof {
            assert(source@.subrange(0, i + 1).drop_last() =~= source@.subrange(0, i as int));
            assert(source@.subrange(0, i + 1).last() == source@[i as int]);
        }
        if c == '\n' {
            row = row + 1;
            column = 0;
        } else {
            column = column + 1;
        }
        i = i + 1;
    }
    Point { row, column }
}

/// The rendered diagnostic line, with one-based line and column.
pub open spec fn error_line_spec(e: &Error) -> Seq<char> {
    e.filename@ + ":"@ + dec_spec((e.position.row + 1) as nat) + ":"@ + dec_spec(
        (e.position.column + 1) as nat,
    ) + ": "@ + e.message@ + " ("@ + e.rule@ + ")"@
}

impl Error {
    /// Renders the diagnostic as `<path>:<line>:<column>: <message> (<rule>)`.
    pub fn text(&self) -> (r: String)
        requires
            self.position.row < usize::MAX,
            self.position.column < usize::MAX,
        ensures
            r@ == error_line_spec(self),
    {
        let mut out = String::new();
        out.append(self.filename.as_str());
        out.append(":");
        let line = dec_of(self.position.row + 1);
        out.append(line.as_str());
        out.append(":");
        let column = dec_of(self.position.column + 1);
        out.append(column.as_str());
        out.append(": ");
        out.append(self.message.as_str());
        out.append(" (");
        out.append(self.rule.as_str());
        out.append(")");
        proof {
            assert(out@ =~= error_line_spec(self));
        }
        out
    }
}

} // verus!
