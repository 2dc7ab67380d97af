//! Properties the library guarantees across its functions, each stated
//! and proved over the same specifications the functions' contracts
//! use.

use vstd::prelude::*;

use crate::ast::PrimaryExpr;
use crate::configuration::Configuration;
use crate::edit::Edit;
use crate::edit::applied;
use crate::f001::adjacent_redundant;
use crate::f001::f001_diags;
use crate::f001::f001_edits;
use crate::f001::DiagModel;
use crate::f001::EditModel;
use crate::f001::Parameter;
use crate::f002::F002State;
use crate::f002::ImportItem;
use crate::f002::ImportList;
use crate::f002::best_prefix;
use crate::f002::f002_fold;
use crate::f002::f002_init;
use crate::f002::f002_result;
use crate::f002::f002_step;
use crate::f002::import_of;
use crate::f002::index_spec;
use crate::f002::is_blank;
use crate::f002::is_skipped;
use crate::f002::prefix_len;
use crate::f002::prefix_match_at;
use crate::file_linter::f001_output;
use crate::file_linter::f002_output;
use crate::sa1000::request_spec;
use crate::scope::eval_spec;
use crate::std_imports::spec_is_standard_import;

verus! {

/// Import classification is deterministic: any two results that meet
/// the classifier's contract for the same section configuration and
/// import path are the same result.
pub proof fn lemma_classify_deterministic(
    groups: Seq<String>,
    import: Seq<char>,
    r1: Option<usize>,
    r2: Option<usize>,
)
    requires
        match r1 {
            Some(u) => index_spec(groups, import) == Some(u as int),
            None => index_spec(groups, import) is None,
        },
        match r2 {
            Some(u) => index_spec(groups, import) == Some(u as int),
            None => index_spec(groups, import) is None,
        },
    ensures
        r1 == r2,
{
}

proof fn lemma_best_prefix_props(groups: Seq<String>, import: Seq<char>)
    ensures
        best_prefix(groups, import) is Some ==> prefix_match_at(
            groups,
            import,
            best_prefix(groups, import)->Some_0,
        ),
        forall|i: int|
            prefix_match_at(groups, import, i) ==> best_prefix(groups, import) is Some
                && prefix_len(groups, best_prefix(groups, import)->Some_0) >= prefix_len(
                groups,
                i,
            ),
    decreases groups.len(),
{
    if groups.len() == 0 {
        assert(forall|i: int| !prefix_match_at(groups, import, i));
    } else {
        let sub = groups.subrange(0, groups.len() - 1);
        lemma_best_prefix_props(sub, import);
        assert(forall|k: int| 0 <= k < sub.len() ==> sub[k] == groups[k]);
        assert(forall|k: int|
            0 <= k < sub.len() ==> prefix_match_at(sub, import, k) == prefix_match_at(
                groups,
                import,
                k,
            ) && prefix_len(sub, k) == prefix_len(groups, k));
        assert forall|i: int| prefix_match_at(groups, import, i) implies best_prefix(
            groups,
            import,
        ) is Some && prefix_len(groups, best_prefix(groups, import)->Some_0) >= prefix_len(
            groups,
            i,
        ) by {
            if i < groups.len() - 1 {
                assert(prefix_match_at(sub, import, i));
            }
        }
    }
}

/// Longest prefix wins: when the import is not a standard-library path
/// and two prefix rules both match, the classifier never selects the
/// shorter one, and what it selects is a matching rule at least as long
/// as any match.
pub proof fn lemma_longest_prefix_wins(groups: Seq<String>, import: Seq<char>, i: int, j: int)
    requires
        !spec_is_standard_import(import),
        prefix_match_at(groups, import, i),
        prefix_match_at(groups, import, j),
        prefix_len(groups, i) > prefix_len(groups, j),
    ensures
        index_spec(groups, import) is Some,
        prefix_match_at(groups, import, index_spec(groups, import)->Some_0),
        prefix_len(groups, index_spec(groups, import)->Some_0) >= prefix_len(groups, i),
        index_spec(groups, import) != Some(j),
{
    lemma_best_prefix_props(groups, import);
}

/// Unresolved values never produce a diagnostic: a watched call whose
/// first argument is an identifier with no recorded binding yields no
/// oracle request at all.
pub proof fn lemma_unresolved_silent(
    c: &Configuration,
    m: Map<Seq<char>, Seq<char>>,
    call: PrimaryExpr,
)
    requires
        call.arguments is Some,
        call.arguments->Some_0.expression_list@.len() > 0,
        ({
            let arg = call.arguments->Some_0.expression_list@[0];
            &&& arg.unary_expr is Some
            &&& arg.unary_expr->Some_0.primary_expr.operand is Some
            &&& arg.unary_expr->Some_0.primary_expr.operand->Some_0.operand_name is Some
            &&& !m.contains_key(
                arg.unary_expr->Some_0.primary_expr.operand->Some_0.operand_name->Some_0.identifier@,
            )
        }),
    ensures
        request_spec(c, m, call) is None,
{
    let arg = call.arguments->Some_0.expression_list@[0];
    assert(eval_spec(m, &arg) is None);
}

/// Parameters that all share one declaration group never trip the
/// redundant-type rule: no diagnostics and no edits.
pub proof fn lemma_no_redundancy_no_output(path: Seq<char>, ps: Seq<Parameter>)
    requires
        forall|i: int| !adjacent_redundant(ps, i),
    ensures
        f001_diags(path, ps) == Seq::<DiagModel>::empty(),
        f001_edits(ps) == Seq::<EditModel>::empty(),
    decreases ps.len(),
{
    if ps.len() < 2 {
    } else {
        let sub = ps.subrange(0, ps.len() - 1);
        assert forall|i: int| !adjacent_redundant(sub, i) by {
            assert(!adjacent_redundant(ps, i));
            if 0 <= i && i + 1 < sub.len() {
                assert(sub[i] == ps[i]);
                assert(sub[i + 1] == ps[i + 1]);
            }
        }
        lemma_no_redundancy_no_output(path, sub);
        assert(f001_diags(path, ps) =~= Seq::<DiagModel>::empty());
        assert(f001_edits(ps) =~= Seq::<EditModel>::empty());
    }
}

proof fn lemma_fold_singleton(
    groups: Seq<String>,
    path: Seq<char>,
    st: F002State,
    it: ImportItem,
)
    ensures
        f002_fold(groups, path, st, seq![it]) == f002_step(groups, path, st, it),
{
    assert(seq![it][0] == it);
    assert(seq![it].subrange(0, 0) =~= Seq::<ImportItem>::empty());
    assert(f002_fold(groups, path, st, Seq::<ImportItem>::empty()) == st);
    assert(f002_fold(groups, path, st, seq![it].subrange(0, 0)) == st);
}

proof fn lemma_fold_append(
    groups: Seq<String>,
    path: Seq<char>,
    st: F002State,
    a: Seq<ImportItem>,
    b: Seq<ImportItem>,
)
    ensures
        f002_fold(groups, path, st, a + b) == f002_fold(
            groups,
            path,
            f002_fold(groups, path, st, a),
            b,
        ),
    decreases b.len(),
{
    if b.len() == 0 {
        assert(a + b =~= a);
    } else {
        let ab = a + b;
        assert(ab[ab.len() - 1] == b[b.len() - 1]);
        assert(ab.subrange(0, ab.len() - 1) =~= a + b.subrange(0, b.len() - 1));
        lemma_fold_append(groups, path, st, a, b.subrange(0, b.len() - 1));
    }
}

proof fn lemma_fold_group(
    groups: Seq<String>,
    path: Seq<char>,
    st: F002State,
    its: Seq<ImportItem>,
    k: int,
)
    requires
        st.err is None,
        st.curr <= k,
        forall|j: int|
            0 <= j < its.len() ==> {
                let t = (#[trigger] its[j]).text@;
                !is_skipped(t) && !is_blank(t) && index_spec(groups, import_of(t)) == Some(k)
            },
    ensures
        f002_fold(groups, path, st, its).err is None,
        f002_fold(groups, path, st, its).curr == if its.len() > 0 {
            k
        } else {
            st.curr
        },
    decreases its.len(),
{
    if its.len() > 0 {
        let sub = its.subrange(0, its.len() - 1);
        assert forall|j: int|
            0 <= j < sub.len() implies {
                let t = (#[trigger] sub[j]).text@;
                !is_skipped(t) && !is_blank(t) && index_spec(groups, import_of(t)) == Some(k)
            } by {
            assert(sub[j] == its[j]);
            assert({
                let t = its[j].text@;
                !is_skipped(t) && !is_blank(t) && index_spec(groups, import_of(t)) == Some(k)
            });
        }
        lemma_fold_group(groups, path, st, sub, k);
        let st1 = f002_fold(groups, path, st, sub);
        let it = its[its.len() - 1];
        assert({
            let t = its[its.len() - 1].text@;
            !is_skipped(t) && !is_blank(t) && index_spec(groups, import_of(t)) == Some(k)
        });
        assert(f002_fold(groups, path, st, its) == f002_step(groups, path, st1, it));
    }
}

/// The groups joined by a single separator item.
pub open spec fn interleave(gs: Seq<Seq<ImportItem>>, blank: ImportItem) -> Seq<ImportItem>
    decreases gs.len(),
{
    if gs.len() == 0 {
        Seq::empty()
    } else if gs.len() == 1 {
        gs[0]
    } else {
        gs[0] + seq![blank] + interleave(gs.drop_first(), blank)
    }
}

proof fn lemma_fold_interleave(
    groups: Seq<String>,
    path: Seq<char>,
    st: F002State,
    ks: Seq<int>,
    gs: Seq<Seq<ImportItem>>,
    blank: ImportItem,
)
    requires
        ks.len() == gs.len(),
        gs.len() > 0,
        st.err is None,
        st.curr <= ks[0],
        forall|a: int, b: int| 0 <= a < b < ks.len() ==> ks[a] < ks[b],
        forall|a: int| 0 <= a < gs.len() ==> (#[trigger] gs[a]).len() > 0,
        is_blank(blank.text@),
        !is_skipped(blank.text@),
        forall|a: int, j: int|
            0 <= a < gs.len() && 0 <= j < gs[a].len() ==> {
                let t = (#[trigger] gs[a][j]).text@;
                !is_skipped(t) && !is_blank(t) && index_spec(groups, import_of(t)) == Some(ks[a])
            },
    ensures
        f002_fold(groups, path, st, interleave(gs, blank)).err is None,
        f002_fold(groups, path, st, interleave(gs, blank)).curr == ks[ks.len() - 1],
    decreases gs.len(),
{
    if gs.len() == 1 {
        lemma_fold_group(groups, path, st, gs[0], ks[0]);
    } else {
        lemma_fold_group(groups, path, st, gs[0], ks[0]);
        let st1 = f002_fold(groups, path, st, gs[0]);
        lemma_fold_append(groups, path, st, gs[0], seq![blank]);
        let stb = f002_fold(groups, path, st1, seq![blank]);
        lemma_fold_singleton(groups, path, st1, blank);
        assert(stb == f002_step(groups, path, st1, blank));
        assert(stb.curr == ks[0] + 1);
        assert(stb.err is None);
        lemma_fold_append(
            groups,
            path,
            st,
            gs[0] + seq![blank],
            interleave(gs.drop_first(), blank),
        );
        let ksd = ks.drop_first();
        let gsd = gs.drop_first();
        assert(ksd[0] == ks[1]);
        assert(ks[0] < ks[1]);
        assert forall|a: int, b: int| 0 <= a < b < ksd.len() implies ksd[a] < ksd[b] by {
            assert(ksd[a] == ks[a + 1]);
            assert(ksd[b] == ks[b + 1]);
        }
        assert forall|a: int| 0 <= a < gsd.len() implies (#[trigger] gsd[a]).len() > 0 by {
            assert(gsd[a] == gs[a + 1]);
        }
        assert forall|a: int, j: int|
            0 <= a < gsd.len() && 0 <= j < gsd[a].len() implies {
                let t = (#[trigger] gsd[a][j]).text@;
                !is_skipped(t) && !is_blank(t) && index_spec(groups, import_of(t)) == Some(ksd[a])
            } by {
            assert(gsd[a] == gs[a + 1]);
            assert(ksd[a] == ks[a + 1]);
            assert({
                let t = gs[a + 1][j].text@;
                !is_skipped(t) && !is_blank(t) && index_spec(groups, import_of(t)) == Some(
                    ks[a + 1],
                )
            });
        }
        lemma_fold_interleave(groups, path, stb, ksd, gsd, blank);
        assert(interleave(gs, blank) == gs[0] + seq![blank] + interleave(gsd, blank));
        assert(f002_fold(groups, path, st, gs[0] + seq![blank]) == stb);
        assert(ksd[ksd.len() - 1] == ks[ks.len() - 1]);
    }
}

/// Every collected import sits in the section its path classifies to:
/// each stored text is a tab-indented specifier whose import path
/// belongs to exactly the group holding it.
pub open spec fn sorted_classified(groups: Seq<String>, sorted: Seq<Seq<Seq<char>>>) -> bool {
    forall|k: int, j: int|
        0 <= k < sorted.len() && 0 <= j < sorted[k].len() ==> {
            let t = #[trigger] sorted[k][j];
            t.len() >= 1 && t[0] == '\t' && index_spec(
                groups,
                import_of(t.subrange(1, t.len() as int)),
            ) == Some(k)
        }
}

/// The initial state classifies trivially: every section is empty.
pub proof fn lemma_init_classified(groups: Seq<String>, glen: int)
    requires
        glen >= 0,
    ensures
        sorted_classified(groups, f002_init(glen).sorted),
        f002_init(glen).sorted.len() == glen,
{
    crate::f002::lemma_empty_sections(glen);
}

/// Processing any child sequence keeps the classification invariant:
/// the rule appends a specifier only to the group its import path
/// belongs to, so the rewritten block lists each import under its own
/// section.
pub proof fn lemma_fold_keeps_classification(
    groups: Seq<String>,
    path: Seq<char>,
    st: F002State,
    items: Seq<ImportItem>,
)
    requires
        sorted_classified(groups, st.sorted),
        st.sorted.len() == groups.len(),
    ensures
        sorted_classified(groups, f002_fold(groups, path, st, items).sorted),
        f002_fold(groups, path, st, items).sorted.len() == groups.len(),
    decreases items.len(),
{
    if items.len() > 0 {
        lemma_fold_keeps_classification(groups, path, st, items.subrange(0, items.len() - 1));
        let st1 = f002_fold(groups, path, st, items.subrange(0, items.len() - 1));
        let st2 = f002_fold(groups, path, st, items);
        let it = items[items.len() - 1];
        assert(st2 == f002_step(groups, path, st1, it));
        let t = it.text@;
        if !is_skipped(t) && !is_blank(t) {
            match index_spec(groups, import_of(t)) {
                Some(g) => {
                    crate::f002::lemma_index_spec_bounds(groups, import_of(t));
                    reveal_strlit("\t");
                    let stored = "\t"@ + t;
                    assert(stored.subrange(1, stored.len() as int) =~= t);
                    assert(stored[0] == '\t');
                    assert forall|k: int, j: int|
                        0 <= k < st2.sorted.len() && 0 <= j < st2.sorted[k].len() implies {
                            let u = #[trigger] st2.sorted[k][j];
                            u.len() >= 1 && u[0] == '\t' && index_spec(
                                groups,
                                import_of(u.subrange(1, u.len() as int)),
                            ) == Some(k)
                        } by {
                        if k == g && 0 <= g < st1.sorted.len() && j == st1.sorted[g].len() {
                            assert(st2.sorted[k][j] == stored);
                        } else {
                            assert(st2.sorted[k][j] == st1.sorted[k][j]);
                        }
                    }
                },
                None => {},
            }
        }
    }
}

proof fn lemma_nonspace_suffix_after_tab(s: Seq<char>)
    ensures
        crate::text::nonspace_suffix("\t"@ + s) == crate::text::nonspace_suffix(s),
    decreases s.len(),
{
    reveal_strlit("\t");
    if s.len() == 0 {
        assert("\t"@ + s =~= "\t"@);
        assert(crate::text::is_space('\t'));
    } else {
        assert(("\t"@ + s).last() == s.last());
        assert(("\t"@ + s).drop_last() =~= "\t"@ + s.drop_last());
        lemma_nonspace_suffix_after_tab(s.drop_last());
    }
}

proof fn lemma_strip_after_tab(t: Seq<char>)
    requires
        crate::f002::has_token(t),
    ensures
        crate::text::strip_trailing_space("\t"@ + t) == "\t"@ + crate::text::strip_trailing_space(
            t,
        ),
    decreases t.len(),
{
    reveal_strlit("\t");
    assert(t.len() > 0);
    assert(("\t"@ + t).last() == t.last());
    if crate::text::is_space(t.last()) {
        let i = choose|i: int| 0 <= i < t.len() && !crate::text::is_space(t[i]);
        assert(i < t.len() - 1);
        assert(t.drop_last()[i] == t[i]);
        assert(crate::f002::has_token(t.drop_last()));
        assert(("\t"@ + t).drop_last() =~= "\t"@ + t.drop_last());
        lemma_strip_after_tab(t.drop_last());
    }
}

/// The tab indent the rewrite adds never changes what an import
/// specifier denotes: the import path read from a stored, tab-indented
/// text is the path of the bare text.
pub proof fn lemma_tab_keeps_import(t: Seq<char>)
    requires
        crate::f002::has_token(t),
    ensures
        import_of("\t"@ + t) == import_of(t),
{
    lemma_strip_after_tab(t);
    lemma_nonspace_suffix_after_tab(crate::text::strip_trailing_space(t));
}

/// Autofix output of the import rule lints clean: a block whose
/// classified imports stand grouped in strictly ascending section
/// order, one blank line between consecutive non-empty groups — the
/// shape the rule's rewrite produces — folds to a state without any
/// diagnostic, so a second pass straight after a fix reports nothing
/// and rewrites nothing.
pub proof fn lemma_sorted_block_lints_clean(
    groups: Seq<String>,
    path: Seq<char>,
    st0: F002State,
    ks: Seq<int>,
    gs: Seq<Seq<ImportItem>>,
    open_item: ImportItem,
    close_item: ImportItem,
    blank: ImportItem,
)
    requires
        ks.len() == gs.len(),
        st0.err is None,
        gs.len() > 0 ==> st0.curr <= ks[0],
        forall|a: int, b: int| 0 <= a < b < ks.len() ==> ks[a] < ks[b],
        forall|a: int| 0 <= a < gs.len() ==> (#[trigger] gs[a]).len() > 0,
        is_skipped(open_item.text@),
        is_skipped(close_item.text@),
        is_blank(blank.text@),
        !is_skipped(blank.text@),
        forall|a: int, j: int|
            0 <= a < gs.len() && 0 <= j < gs[a].len() ==> {
                let t = (#[trigger] gs[a][j]).text@;
                !is_skipped(t) && !is_blank(t) && index_spec(groups, import_of(t)) == Some(ks[a])
            },
    ensures
        f002_fold(
            groups,
            path,
            st0,
            seq![open_item] + interleave(gs, blank) + seq![close_item],
        ).err is None,
{
    let items = seq![open_item] + interleave(gs, blank) + seq![close_item];
    lemma_fold_append(groups, path, st0, seq![open_item], interleave(gs, blank));
    let sta = f002_fold(groups, path, st0, seq![open_item]);
    lemma_fold_singleton(groups, path, st0, open_item);
    assert(sta == f002_step(groups, path, st0, open_item));
    assert(sta == st0);
    let stm = f002_fold(groups, path, st0, seq![open_item] + interleave(gs, blank));
    if gs.len() > 0 {
        lemma_fold_interleave(groups, path, sta, ks, gs, blank);
    } else {
        assert(interleave(gs, blank) == Seq::<ImportItem>::empty());
        assert(seq![open_item] + interleave(gs, blank) =~= seq![open_item]);
    }
    assert(stm.err is None);
    lemma_fold_append(
        groups,
        path,
        st0,
        seq![open_item] + interleave(gs, blank),
        seq![close_item],
    );
    lemma_fold_singleton(groups, path, stm, close_item);
    assert(f002_fold(groups, path, stm, seq![close_item]) == f002_step(
        groups,
        path,
        stm,
        close_item,
    ));
}

/// Clean input round-trips: a file without violations gets no
/// diagnostics from either rule, and an empty edit list leaves any
/// buffer byte-for-byte unchanged.
pub proof fn lemma_clean_round_trip(
    source: Seq<char>,
    path: Seq<char>,
    fix: bool,
    c: &Configuration,
    ps: Seq<Parameter>,
    lists: Seq<ImportList>,
)
    requires
        forall|i: int| !adjacent_redundant(ps, i),
        c.settings is Some ==> f002_result(
            c.settings->Some_0.F002@,
            path,
            f002_init(c.settings->Some_0.F002@.len() as int),
            lists,
        ) is None,
    ensures
        f001_output(path, fix, c, ps).0 == Seq::<DiagModel>::empty(),
        f001_output(path, fix, c, ps).1 == Seq::<EditModel>::empty(),
        f002_output(path, c, lists).0 == Seq::<DiagModel>::empty(),
        f002_output(path, c, lists).1 == Seq::<EditModel>::empty(),
        applied(source, Seq::<Edit>::empty()) == source,
{
    lemma_no_redundancy_no_output(path, ps);
}

} // verus!
