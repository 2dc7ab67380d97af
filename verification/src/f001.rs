//! The redundant-parameter-type rule: two adjacent parameter
//! declarations of one list with the same type text make the earlier
//! type redundant under the grouping sugar; fix mode merges the broken
//! group's names into one comma-joined declaration.

use vstd::prelude::*;
use vstd::string::*;

use crate::configuration::Configuration;
use crate::configuration::enabled_spec;
use crate::edit::Edit;
use crate::error::Error;
use crate::error::Point;
use crate::text::join;
use crate::text::join_with;

verus! {

/// One match of the parameter-declaration pattern: the enclosing list
/// and declaration node identities, the declaration's span, and the
/// parameter's name and type texts.
pub struct Parameter {
    pub list: usize,
    pub decl: usize,
    pub decl_start: usize,
    pub decl_end: usize,
    pub name: String,
    pub kind: String,
    pub kind_pos: Point,
}

/// A diagnostic, viewed at the specification level.
pub ghost struct DiagModel {
    pub file: Seq<char>,
    pub pos: Point,
    pub rule: Seq<char>,
    pub msg: Seq<char>,
}

/// An edit, viewed at the specification level.
pub ghost struct EditModel {
    pub start: int,
    pub end: int,
    pub text: Seq<char>,
}

/// The specification-level view of a diagnostic.
pub open spec fn error_view(e: Error) -> DiagModel {
    DiagModel { file: e.filename@, pos: e.position, rule: e.rule@, msg: e.message@ }
}

/// The specification-level view of an edit.
pub open spec fn edit_view(e: Edit) -> EditModel {
    EditModel { start: e.start as int, end: e.end as int, text: e.text@ }
}

/// Parameters `i` and `i + 1` sit in the same list, in different
/// declarations, with identical type text: the type at `i` is
/// redundant.
pub open spec fn adjacent_redundant(ps: Seq<Parameter>, i: int) -> bool {
    &&& 0 <= i && i + 1 < ps.len()
    &&& ps[i].list == ps[i + 1].list
    &&& ps[i].decl != ps[i + 1].decl
    &&& ps[i].kind@ == ps[i + 1].kind@
}

/// The start of the maximal run of parameters sharing `ps[i]`'s list
/// and declaration.
pub open spec fn group_start(ps: Seq<Parameter>, i: int) -> int
    decreases i,
{
    if i <= 0 {
        0
    } else if ps[i - 1].list == ps[i].list && ps[i - 1].decl == ps[i].decl {
        group_start(ps, i - 1)
    } else {
        i
    }
}

/// The diagnostic for a redundant type at `ps[i]`.
pub open spec fn f001_diag_at(path: Seq<char>, ps: Seq<Parameter>, i: int) -> DiagModel {
    DiagModel {
        file: path,
        pos: ps[i].kind_pos,
        rule: "F001"@,
        msg: "redundant parameter type \""@ + ps[i].kind@ + "\""@,
    }
}

/// The fix for a redundant type at `ps[i]`: the earlier declaration is
/// replaced by the comma-joined names of its group.
pub open spec fn f001_edit_at(ps: Seq<Parameter>, i: int) -> EditModel {
    EditModel {
        start: ps[i].decl_start as int,
        end: ps[i].decl_end as int,
        text: join_with(
            ps.subrange(group_start(ps, i), i + 1).map_values(|p: Parameter| p.name@),
            ", "@,
        ),
    }
}

/// The rule's diagnostics, in match order.
pub open spec fn f001_diags(path: Seq<char>, ps: Seq<Parameter>) -> Seq<DiagModel>
    decreases ps.len(),
{
    if ps.len() < 2 {
        Seq::empty()
    } else {
        f001_diags(path, ps.subrange(0, ps.len() - 1)) + if adjacent_redundant(ps, ps.len() - 2) {
            seq![f001_diag_at(path, ps, ps.len() - 2)]
        } else {
            Seq::empty()
        }
    }
}

/// The rule's edits, in match order.
pub open spec fn f001_edits(ps: Seq<Parameter>) -> Seq<EditModel>
    decreases ps.len(),
{
    if ps.len() < 2 {
        Seq::empty()
    } else {
        f001_edits(ps.subrange(0, ps.len() - 1)) + if adjacent_redundant(ps, ps.len() - 2) {
            seq![f001_edit_at(ps, ps.len() - 2)]
        } else {
            Seq::empty()
        }
    }
}

proof fn lemma_group_start_prefix(ps: Seq<Parameter>, t: Seq<Parameter>, i: int)
    requires
        0 <= i < t.len() <= ps.len(),
        t == ps.subrange(0, t.len() as int),
    ensures
        group_start(t, i) == group_start(ps, i),
        0 <= group_start(ps, i) <= i,
    decreases i,
{
    if i <= 0 {
    } else {
        assert(t[i - 1] == ps[i - 1]);
        assert(t[i] == ps[i]);
        if ps[i - 1].list == ps[i].list && ps[i - 1].decl == ps[i].decl {
            lemma_group_start_prefix(ps, t, i - 1);
        }
    }
}

proof fn lemma_diag_at_prefix(path: Seq<char>, ps: Seq<Parameter>, t: Seq<Parameter>, i: int)
    requires
        0 <= i,
        i + 1 < t.len() <= ps.len(),
        t == ps.subrange(0, t.len() as int),
    ensures
        adjacent_redundant(t, i) == adjacent_redundant(ps, i),
        adjacent_redundant(ps, i) ==> f001_diag_at(path, t, i) == f001_diag_at(path, ps, i),
        adjacent_redundant(ps, i) ==> f001_edit_at(t, i) == f001_edit_at(ps, i),
{
    assert(t[i] == ps[i]);
    assert(t[i + 1] == ps[i + 1]);
    if adjacent_redundant(ps, i) {
        lemma_group_start_prefix(ps, t, i);
        assert(t.subrange(group_start(t, i), i + 1) =~= ps.subrange(group_start(ps, i), i + 1));
    }
}

/// Runs the redundant-parameter-type rule over the matches of one file,
/// in match order: report mode collects one diagnostic per redundant
/// type, fix mode one merge edit per redundant type.
pub fn run(path: &str, fix: bool, configuration: &Configuration, params: &Vec<Parameter>) -> (r: (
    Vec<Error>,
    Vec<Edit>,
))
    ensures
        !enabled_spec(configuration, "F001"@) ==> r.0@.len() == 0 && r.1@.len() == 0,
        enabled_spec(configuration, "F001"@) && !fix ==> r.0@.map_values(|e: Error| error_view(e))
            == f001_diags(path@, params@) && r.1@.len() == 0,
        enabled_spec(configuration, "F001"@) && fix ==> r.1@.map_values(|e: Edit| edit_view(e))
            == f001_edits(params@) && r.0@.len() == 0,
{
    if !configuration.is_enabled(String::from_str("F001")) {
        return (Vec::new(), Vec::new());
    }

    let mut errors: Vec<Error> = Vec::new();
    let mut editors: Vec<Edit> = Vec::new();
    let mut parameters: Vec<String> = Vec::new();

    let n = params.len();
    if n == 0 {
        proof {
            assert(errors@.map_values(|e: Error| error_view(e)) =~= f001_diags(path@, params@));
            assert(editors@.map_values(|e: Edit| edit_view(e)) =~= f001_edits(params@));
        }
        return (errors, editors);
    }
    parameters.push(params[0].name.clone());

    let mut i: usize = 1;
    proof {
        let t = params@.subrange(0, 1);
        assert(f001_diags(path@, t) =~= Seq::<DiagModel>::empty());
        assert(f001_edits(t) =~= Seq::<EditModel>::empty());
        assert(group_start(params@, 0) == 0);
        assert(parameters@.map_values(|p: String| p@) =~= params@.subrange(0, 1).map_values(
            |p: Parameter| p.name@,
        ));
    }
    while i < n
        invariant
            n == params@.len(),
            1 <= i <= n,
            !fix ==> errors@.map_values(|e: Error| error_view(e)) == f001_diags(
                path@,
                params@.subrange(0, i as int),
            ) && editors@.len() == 0,
            fix ==> editors@.map_values(|e: Edit| edit_view(e)) == f001_edits(
                params@.subrange(0, i as int),
            ) && errors@.len() == 0,
            0 <= group_start(params@, i - 1) <= i - 1,
            parameters@.map_values(|p: String| p@) == params@.subrange(
                group_start(params@, i - 1),
                i as int,
            ).map_values(|p: Parameter| p.name@),
        decreases n - i,
    {
        let ghost pre = params@.subrange(0, i as int);
        let ghost cur = params@.subrange(0, i + 1);
        proof {
            assert(cur.subrange(0, cur.len() - 1) =~= pre);
            assert(cur[i as int] == params@[i as int]);
            assert(cur[i - 1] == params@[i - 1]);
            lemma_diag_at_prefix(path@, params@, cur, i - 1);
        }
        let last = &params[i - 1];
        let curr = &params[i];
        let same_kind = crate::text::str_eq(last.kind.as_str(), curr.kind.as_str());

        if last.list == curr.list {
            if last.decl != curr.decl {
                if same_kind {
                    if fix {
                        let merged = join(&parameters, ", ");
                        editors.push(
                            Edit { start: last.decl_start, end: last.decl_end, text: merged },
                        );
                        proof {
                            assert(adjacent_redundant(params@, i - 1));
                            assert(editors@.map_values(|e: Edit| edit_view(e)) =~= f001_edits(pre)
                                + seq![f001_edit_at(params@, i - 1)]);
                            assert(f001_edits(cur) == f001_edits(pre) + seq![
                                f001_edit_at(cur, i - 1),
                            ]);
                        }
                    } else {
                        let mut msg = String::from_str("redundant parameter type \"");
                        msg.append(last.kind.as_str());
                        msg.append("\"");
                        errors.push(
                            Error {
                                filename: path.to_owned(),
                                position: last.kind_pos,
                                rule: String::from_str("F001"),
                                message: msg,
                            },
                        );
                        proof {
                            assert(adjacent_redundant(params@, i - 1));
                            assert(errors@.map_values(|e: Error| error_view(e)) =~= f001_diags(
                                path@,
                                pre,
                            ) + seq![f001_diag_at(path@, params@, i - 1)]);
                            assert(f001_diags(path@, cur) == f001_diags(path@, pre) + seq![
                                f001_diag_at(path@, cur, i - 1),
                            ]);
                        }
                    }
                } else {
                    proof {
                        assert(!adjacent_redundant(params@, i - 1));
                        assert(f001_diags(path@, cur) =~= f001_diags(path@, pre));
                        assert(f001_edits(cur) =~= f001_edits(pre));
                    }
                }
                parameters = Vec::new();
            } else {
                proof {
                    assert(!adjacent_redundant(params@, i - 1));
                    assert(f001_diags(path@, cur) =~= f001_diags(path@, pre));
                    assert(f001_edits(cur) =~= f001_edits(pre));
                }
            }
        } else {
            proof {
                assert(!adjacent_redundant(params@, i - 1));
                assert(f001_diags(path@, cur) =~= f001_diags(path@, pre));
                assert(f001_edits(cur) =~= f001_edits(pre));
            }
            parameters = Vec::new();
        }

        let ghost before_push = parameters@;
        parameters.push(curr.name.clone());
        proof {
            assert(parameters@.map_values(|p: String| p@) =~= before_push.map_values(
                |p: String| p@,
            ).push(params@[i as int].name@));
            if params@[i - 1].list == params@[i as int].list && params@[i - 1].decl
                == params@[i as int].decl {
                let gs = group_start(params@, i - 1);
                assert(group_start(params@, i as int) == gs);
                assert(params@.subrange(gs, i + 1).map_values(|p: Parameter| p.name@)
                    =~= params@.subrange(gs, i as int).map_values(|p: Parameter| p.name@).push(
                    params@[i as int].name@,
                ));
            } else {
                assert(group_start(params@, i as int) == i);
                assert(before_push =~= Seq::<String>::empty());
                assert(params@.subrange(i as int, i + 1).map_values(|p: Parameter| p.name@)
                    =~= Seq::<Seq<char>>::empty().push(params@[i as int].name@));
            }
        }
        i = i + 1;
    }
    proof {
        assert(params@.subrange(0, n as int) =~= params@);
    }
    (errors, editors)
}

} // verus!
