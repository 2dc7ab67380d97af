//! Per-file rule dispatch: every rule runs over the file's matches,
//! their diagnostics and edits are collected in rule order, and fix
//! mode hands the collected edits to the edit engine.

use vstd::prelude::*;

use crate::configuration::Configuration;
use crate::configuration::enabled_spec;
use crate::edit::Edit;
use crate::error::Error;
use crate::f001;
use crate::f001::DiagModel;
use crate::f001::EditModel;
use crate::f001::Parameter;
use crate::f001::edit_view;
use crate::f001::error_view;
use crate::f002;
use crate::f002::ImportList;
use crate::f002::f002_init;
use crate::f002::f002_result;
use crate::f002::has_token;
use crate::f002::is_blank;
use crate::f002::is_skipped;

verus! {

/// What the redundant-parameter-type rule contributes, as a pair of
/// diagnostic and edit sequences.
pub open spec fn f001_output(
    path: Seq<char>,
    fix: bool,
    c: &Configuration,
    ps: Seq<Parameter>,
) -> (Seq<DiagModel>, Seq<EditModel>) {
    if !enabled_spec(c, "F001"@) {
        (Seq::empty(), Seq::empty())
    } else if fix {
        (Seq::empty(), f001::f001_edits(ps))
    } else {
        (f001::f001_diags(path, ps), Seq::empty())
    }
}

/// What the import-order rule contributes.
pub open spec fn f002_output(
    path: Seq<char>,
    c: &Configuration,
    lists: Seq<ImportList>,
) -> (Seq<DiagModel>, Seq<EditModel>) {
    if !enabled_spec(c, "F002"@) || c.settings is None {
        (Seq::empty(), Seq::empty())
    } else {
        let groups = c.settings->Some_0.F002@;
        match f002_result(groups, path, f002_init(groups.len() as int), lists) {
            Some(de) => (seq![de.0], seq![de.1]),
            None => (Seq::empty(), Seq::empty()),
        }
    }
}

/// Runs every file rule over one file's matches and appends their
/// results in rule order, as the per-file driver does before printing
/// or rewriting.
pub fn run(
    path: &str,
    fix: bool,
    configuration: &Configuration,
    params: &Vec<Parameter>,
    lists: &Vec<ImportList>,
) -> (r: (Vec<Error>, Vec<Edit>))
    requires
        forall|li: int, k: int|
            0 <= li < lists@.len() && 0 <= k < lists@[li].items@.len() ==> {
                let t = (#[trigger] lists@[li].items@[k]).text@;
                !is_skipped(t) && !is_blank(t) ==> has_token(t)
            },
    ensures
        r.0@.map_values(|e: Error| error_view(e)) == f001_output(path@, fix, configuration, params@).0
            + f002_output(path@, configuration, lists@).0,
        r.1@.map_values(|e: Edit| edit_view(e)) == f001_output(path@, fix, configuration, params@).1
            + f002_output(path@, configuration, lists@).1,
{
    let mut out = f001::run(path, fix, configuration, params);
    let mut out2 = f002::run(path, configuration, lists);
    let ghost e1 = out.0@;
    let ghost d1 = out.1@;
    let ghost e2 = out2.0@;
    let ghost d2 = out2.1@;
    out.0.append(&mut out2.0);
    out.1.append(&mut out2.1);
    proof {
        assert(out.0@ == e1 + e2);
        assert(out.1@ == d1 + d2);
        assert(out.0@.map_values(|e: Error| error_view(e)) =~= e1.map_values(
            |e: Error| error_view(e),
        ) + e2.map_values(|e: Error| error_view(e)));
        assert(out.1@.map_values(|e: Edit| edit_view(e)) =~= d1.map_values(|e: Edit| edit_view(e))
            + d2.map_values(|e: Edit| edit_view(e)));
        assert(e1.map_values(|e: Error| error_view(e)) + e2.map_values(|e: Error| error_view(e))
            =~= f001_output(path@, fix, configuration, params@).0 + f002_output(
            path@,
            configuration,
            lists@,
        ).0);
        assert(d1.map_values(|e: Edit| edit_view(e)) + d2.map_values(|e: Edit| edit_view(e))
            =~= f001_output(path@, fix, configuration, params@).1 + f002_output(
            path@,
            configuration,
            lists@,
        ).1);
    }
    out
}

} // verus!
