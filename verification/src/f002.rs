//! The import-order rule: classifies each import path into a configured
//! section and reports the first unsorted or unclassified import; in
//! fix mode it re-renders the whole import block in section order.

use vstd::prelude::*;
use vstd::string::*;

use crate::configuration::Configuration;
use crate::configuration::enabled_spec;
use crate::edit::Edit;
use crate::error::Error;
use crate::error::Point;
use crate::f001::DiagModel;
use crate::f001::EditModel;
use crate::f001::edit_view;
use crate::f001::error_view;
use crate::std_imports::is_standard_import;
use crate::std_imports::spec_is_standard_import;
use crate::text::is_space;
use crate::text::join;
use crate::text::join_with;
use crate::text::last_token;
use crate::text::last_token_spec;
use crate::text::lemma_last_token_at;
use crate::text::spec_starts_with;
use crate::text::str_eq;
use crate::text::str_starts_with;
use crate::text::trim_quotes;
use crate::text::trim_quotes_spec;

verus! {

/// `"prefix("` opens at position `i` of the rule text.
pub open spec fn prefix_head_at(r: Seq<char>, i: int) -> bool {
    0 <= i && i + 7 <= r.len() && r.subrange(i, i + 7) == "prefix("@
}

/// The position of the first `"prefix("` at or after `i`.
pub open spec fn find_head(r: Seq<char>, i: int) -> Option<int>
    decreases r.len() - i,
{
    if i < 0 || i + 7 > r.len() {
        None
    } else if r.subrange(i, i + 7) == "prefix("@ {
        Some(i)
    } else {
        find_head(r, i + 1)
    }
}

/// The position of the last closing parenthesis.
pub open spec fn find_last_rp(r: Seq<char>) -> Option<int>
    decreases r.len(),
{
    if r.len() == 0 {
        None
    } else if r.last() == ')' {
        Some(r.len() - 1)
    } else {
        find_last_rp(r.drop_last())
    }
}

/// The prefix a `"prefix(<P>)"` section rule carries: the text between
/// the first `"prefix("` and the last closing parenthesis after it.
pub open spec fn rule_prefix(r: Seq<char>) -> Option<Seq<char>> {
    match find_head(r, 0) {
        Some(i) => match find_last_rp(r) {
            Some(j) => if j >= i + 7 {
                Some(r.subrange(i + 7, j))
            } else {
                None
            },
            None => None,
        },
        None => None,
    }
}

proof fn lemma_find_head_props(r: Seq<char>, i0: int, i: int)
    requires
        find_head(r, i0) == Some(i),
    ensures
        i0 <= i,
        prefix_head_at(r, i),
    decreases r.len() - i0,
{
    if i0 < 0 || i0 + 7 > r.len() {
    } else if r.subrange(i0, i0 + 7) == "prefix("@ {
    } else {
        lemma_find_head_props(r, i0 + 1, i);
    }
}

proof fn lemma_find_last_rp_props(r: Seq<char>, j: int)
    requires
        find_last_rp(r) == Some(j),
    ensures
        0 <= j < r.len(),
        r[j] == ')',
    decreases r.len(),
{
    if r.len() == 0 {
    } else if r.last() == ')' {
    } else {
        lemma_find_last_rp_props(r.drop_last(), j);
    }
}

fn exec_find_head(rule: &str) -> (r: Option<usize>)
    ensures
        match r {
            Some(u) => find_head(rule@, 0) == Some(u as int),
            None => find_head(rule@, 0) is None,
        },
{
    let n = rule.unicode_len();
    if n < 7 {
        return None;
    }
    let mut i: usize = 0;
    while i <= n - 7
        invariant
            n == rule@.len(),
            7 <= n,
            i <= n - 7 + 1,
            find_head(rule@, 0) == find_head(rule@, i as int),
        decreases n - i,
    {
        if str_eq(rule.substring_char(i, i + 7), "prefix(") {
            return Some(i);
        }
        i = i + 1;
    }
    None
}

fn exec_find_last_rp(rule: &str) -> (r: Option<usize>)
    ensures
        match r {
            Some(u) => find_last_rp(rule@) == Some(u as int),
            None => find_last_rp(rule@) is None,
        },
{
    let n = rule.unicode_len();
    proof {
        assert(rule@.subrange(0, n as int) =~= rule@);
    }
    let mut j: usize = n;
    while j > 0
        invariant
            n == rule@.len(),
            j <= n,
            find_last_rp(rule@) == find_last_rp(rule@.subrange(0, j as int)),
        decreases j,
    {
        if rule.get_char(j - 1) == ')' {
            proof {
                let t = rule@.subrange(0, j as int);
                assert(t.last() == rule@[j - 1]);
            }
            return Some(j - 1);
        }
        proof {
            let t = rule@.subrange(0, j as int);
            assert(t.drop_last() =~= rule@.subrange(0, j - 1));
        }
        j = j - 1;
    }
    proof {
        assert(rule@.subrange(0, 0) =~= Seq::<char>::empty());
    }
    None
}

/// Parses a section rule's prefix form.
pub fn parse_prefix_rule(rule: &str) -> (r: Option<String>)
    ensures
        r.deep_view() == rule_prefix(rule@),
{
    let hd = match exec_find_head(rule) {
        Some(h) => h,
        None => {
            return None;
        },
    };
    let last = match exec_find_last_rp(rule) {
        Some(l) => l,
        None => {
            return None;
        },
    };
    let n = rule.unicode_len();
    proof {
        lemma_find_head_props(rule@, 0, hd as int);
        lemma_find_last_rp_props(rule@, last as int);
    }
    if last >= hd + 7 {
        Some(rule.substring_char(hd + 7, last).to_owned())
    } else {
        None
    }
}

/// The least index holding a `"standard"` section rule.
pub open spec fn first_standard(groups: Seq<String>) -> Option<int>
    decreases groups.len(),
{
    if groups.len() == 0 {
        None
    } else {
        let prev = first_standard(groups.subrange(0, groups.len() - 1));
        if prev is Some {
            prev
        } else if groups[groups.len() - 1]@ == "standard"@ {
            Some(groups.len() - 1)
        } else {
            None
        }
    }
}

/// The greatest index holding a `"default"` section rule.
pub open spec fn last_default(groups: Seq<String>) -> Option<int>
    decreases groups.len(),
{
    if groups.len() == 0 {
        None
    } else if groups[groups.len() - 1]@ == "default"@ {
        Some(groups.len() - 1)
    } else {
        last_default(groups.subrange(0, groups.len() - 1))
    }
}

/// Section rule `i` carries a non-empty prefix that the import path
/// starts with.
pub open spec fn prefix_match_at(groups: Seq<String>, import: Seq<char>, i: int) -> bool {
    &&& 0 <= i < groups.len()
    &&& rule_prefix(groups[i]@) is Some
    &&& rule_prefix(groups[i]@)->Some_0.len() > 0
    &&& spec_starts_with(import, rule_prefix(groups[i]@)->Some_0)
}

/// The prefix length of a matching rule.
pub open spec fn prefix_len(groups: Seq<String>, i: int) -> int {
    rule_prefix(groups[i]@)->Some_0.len() as int
}

/// The longest-prefix match: among the section rules whose prefix the
/// import starts with, the one with the longest prefix; the earliest
/// wins a length tie.
pub open spec fn best_prefix(groups: Seq<String>, import: Seq<char>) -> Option<int>
    decreases groups.len(),
{
    if groups.len() == 0 {
        None
    } else {
        let prev = best_prefix(groups.subrange(0, groups.len() - 1), import);
        let cur = groups.len() - 1;
        if prefix_match_at(groups, import, cur) && (match prev {
            Some(p) => prefix_len(groups, cur) > prefix_len(groups, p),
            None => true,
        }) {
            Some(cur)
        } else {
            prev
        }
    }
}

/// The section an import path belongs to: a `"standard"` hit wins
/// outright, then the longest matching prefix, then the last
/// `"default"` rule; no match leaves the import unclassified.
pub open spec fn index_spec(groups: Seq<String>, import: Seq<char>) -> Option<int> {
    if spec_is_standard_import(import) && first_standard(groups) is Some {
        first_standard(groups)
    } else {
        match best_prefix(groups, import) {
            Some(p) => Some(p),
            None => last_default(groups),
        }
    }
}

/// Classifies an import path against the configured section rules.
pub fn index(groups: &Vec<String>, import: &str) -> (r: Option<usize>)
    ensures
        match r {
            Some(u) => index_spec(groups@, import@) == Some(u as int),
            None => index_spec(groups@, import@) is None,
        },
{
    let mut default_group: Option<usize> = None;
    let mut prefix_group: Option<usize> = None;
    let mut longest_prefix: usize = 0;

    let n = groups.len();
    let mut i: usize = 0;
    proof {
        assert(groups@.subrange(0, 0) =~= Seq::<String>::empty());
    }
    while i < n
        invariant
            n == groups@.len(),
            i <= n,
            first_standard(groups@.subrange(0, i as int)) is None || !spec_is_standard_import(
                import@,
            ),
            match default_group {
                Some(d) => d < i && last_default(groups@.subrange(0, i as int)) == Some(d as int),
                None => last_default(groups@.subrange(0, i as int)) is None,
            },
            match prefix_group {
                Some(p) => p < i && best_prefix(groups@.subrange(0, i as int), import@) == Some(
                    p as int,
                ) && longest_prefix == prefix_len(groups@, p as int),
                None => best_prefix(groups@.subrange(0, i as int), import@) is None
                    && longest_prefix == 0,
            },
        decreases n - i,
    {
        let ghost pre = groups@.subrange(0, i as int);
        let ghost cur = groups@.subrange(0, i + 1);
        proof {
            assert(cur.subrange(0, cur.len() - 1) =~= pre);
            assert(cur[cur.len() - 1] == groups@[i as int]);
            assert(forall|k: int| 0 <= k < i ==> cur[k] == pre[k]);
            assert(forall|k: int| 0 <= k < i ==> prefix_match_at(cur, import@, k)
                == prefix_match_at(pre, import@, k));
        }
        let rule = &groups[i];
        let parsed = parse_prefix_rule(rule.as_str());
        if str_eq(rule.as_str(), "standard") && is_standard_import(import) {
            proof {
                assert(first_standard(cur) is Some);
                lemma_first_standard_extend(groups@, i as int);
            }
            return Some(i);
        } else if str_eq(rule.as_str(), "default") {
            default_group = Some(i);
            proof {
                lemma_default_rule_prefix();
                assert(cur[i as int]@ == "default"@);
                assert(!prefix_match_at(cur, import@, i as int));
                assert(best_prefix(cur, import@) == best_prefix(pre, import@));
            }
        } else {
            match parsed {
                Some(prefix) => {
                    if str_starts_with(import, prefix.as_str()) && prefix.unicode_len()
                        > longest_prefix {
                        prefix_group = Some(i);
                        longest_prefix = prefix.unicode_len();
                        proof {
                            assert(prefix_match_at(cur, import@, i as int));
                            assert(prefix_match_at(groups@, import@, i as int));
                        }
                    } else {
                        proof {
                            if prefix@.len() > 0 && spec_starts_with(import@, prefix@) {
                                assert(prefix_match_at(cur, import@, i as int));
                            }
                        }
                    }
                },
                None => {},
            }
        }
        i = i + 1;
    }
    proof {
        assert(groups@.subrange(0, n as int) =~= groups@);
    }
    match prefix_group {
        Some(p) => Some(p),
        None => default_group,
    }
}

proof fn lemma_default_rule_prefix()
    ensures
        rule_prefix("default"@) is None,
{
    reveal_strlit("default");
    reveal_strlit("prefix(");
    assert("default"@.len() == 7);
    assert(find_head("default"@, 1) is None);
    assert("default"@.subrange(0, 7) =~= "default"@);
    assert("default"@[0] == 'd');
    assert("prefix("@[0] == 'p');
    assert(find_head("default"@, 0) is None);
}

proof fn lemma_first_standard_extend(groups: Seq<String>, i: int)
    requires
        0 <= i < groups.len(),
        first_standard(groups.subrange(0, i)) is None,
        groups[i]@ == "standard"@,
    ensures
        first_standard(groups) == Some(i),
    decreases groups.len(),
{
    if groups.len() == i + 1 {
        assert(groups.subrange(0, groups.len() - 1) =~= groups.subrange(0, i));
    } else {
        assert(groups.subrange(0, groups.len() - 1).subrange(0, i) =~= groups.subrange(0, i));
        assert(groups.subrange(0, groups.len() - 1)[i] == groups[i]);
        lemma_first_standard_extend(groups.subrange(0, groups.len() - 1), i);
    }
}

proof fn lemma_first_standard_bounds(groups: Seq<String>)
    ensures
        first_standard(groups) is Some ==> 0 <= first_standard(groups)->Some_0 < groups.len(),
    decreases groups.len(),
{
    if groups.len() > 0 {
        lemma_first_standard_bounds(groups.subrange(0, groups.len() - 1));
    }
}

proof fn lemma_last_default_bounds(groups: Seq<String>)
    ensures
        last_default(groups) is Some ==> 0 <= last_default(groups)->Some_0 < groups.len(),
    decreases groups.len(),
{
    if groups.len() > 0 {
        lemma_last_default_bounds(groups.subrange(0, groups.len() - 1));
    }
}

proof fn lemma_best_prefix_bounds(groups: Seq<String>, import: Seq<char>)
    ensures
        best_prefix(groups, import) is Some ==> 0 <= best_prefix(groups, import)->Some_0
            < groups.len(),
    decreases groups.len(),
{
    if groups.len() > 0 {
        lemma_best_prefix_bounds(groups.subrange(0, groups.len() - 1), import);
    }
}

/// A classified import always lands inside the configured section list.
pub proof fn lemma_index_spec_bounds(groups: Seq<String>, import: Seq<char>)
    ensures
        index_spec(groups, import) is Some ==> 0 <= index_spec(groups, import)->Some_0
            < groups.len(),
{
    lemma_first_standard_bounds(groups);
    lemma_last_default_bounds(groups);
    lemma_best_prefix_bounds(groups, import);
}

/// One child of an import block: its source text and start position.
pub struct ImportItem {
    pub text: String,
    pub pos: Point,
}

/// One import block: the span of its list node and its children, in
/// source order.
pub struct ImportList {
    pub start: usize,
    pub end: usize,
    pub items: Vec<ImportItem>,
}

/// Punctuation and single newlines between import specifiers are
/// skipped outright.
pub open spec fn is_skipped(t: Seq<char>) -> bool {
    t == "("@ || t == ")"@ || t == "\n"@
}

/// A blank line separates two groups and bumps the expected section.
pub open spec fn is_blank(t: Seq<char>) -> bool {
    t == "\n\n"@
}

/// The text holds at least one non-whitespace character.
pub open spec fn has_token(t: Seq<char>) -> bool {
    exists|i: int| 0 <= i < t.len() && !is_space(#[trigger] t[i])
}

/// The import path an import-specifier text denotes: its last
/// whitespace-separated token, unquoted.
pub open spec fn import_of(t: Seq<char>) -> Seq<char> {
    trim_quotes_spec(last_token_spec(t))
}

/// The rule's running state: the highest section seen so far, the
/// imports collected per section (tab-indented), and the first
/// diagnostic, if any.
pub ghost struct F002State {
    pub curr: int,
    pub sorted: Seq<Seq<Seq<char>>>,
    pub err: Option<DiagModel>,
}

/// The state after one import-block child.
pub open spec fn f002_step(
    groups: Seq<String>,
    path: Seq<char>,
    st: F002State,
    it: ImportItem,
) -> F002State {
    let t = it.text@;
    if is_skipped(t) {
        st
    } else if is_blank(t) {
        F002State { curr: st.curr + 1, sorted: st.sorted, err: st.err }
    } else {
        let imp = import_of(t);
        match index_spec(groups, imp) {
            Some(g) => F002State {
                curr: g,
                sorted: st.sorted.update(g, st.sorted[g].push("\t"@ + t)),
                err: if g < st.curr && st.err is None {
                    Some(
                        DiagModel {
                            file: path,
                            pos: it.pos,
                            rule: "F002"@,
                            msg: "unsorted import \""@ + imp + "\""@,
                        },
                    )
                } else {
                    st.err
                },
            },
            None => F002State {
                curr: st.curr,
                sorted: st.sorted,
                err: if st.err is None {
                    Some(
                        DiagModel {
                            file: path,
                            pos: it.pos,
                            rule: "F002"@,
                            msg: "unclassified import \""@ + imp + "\""@,
                        },
                    )
                } else {
                    st.err
                },
            },
        }
    }
}

/// The state after an import block's children, in order.
pub open spec fn f002_fold(
    groups: Seq<String>,
    path: Seq<char>,
    st: F002State,
    items: Seq<ImportItem>,
) -> F002State
    decreases items.len(),
{
    if items.len() == 0 {
        st
    } else {
        f002_step(
            groups,
            path,
            f002_fold(groups, path, st, items.subrange(0, items.len() - 1)),
            items[items.len() - 1],
        )
    }
}

/// The non-empty sections, each newline-joined, in section order.
pub open spec fn sections_of(sorted: Seq<Seq<Seq<char>>>) -> Seq<Seq<char>>
    decreases sorted.len(),
{
    if sorted.len() == 0 {
        Seq::empty()
    } else {
        sections_of(sorted.subrange(0, sorted.len() - 1)) + if sorted[sorted.len() - 1].len()
            > 0 {
            seq![join_with(sorted[sorted.len() - 1], "\n"@)]
        } else {
            Seq::empty()
        }
    }
}

/// The re-rendered import block: parenthesized groups, tab-indented,
/// blank-line separated, non-empty groups only, in section order.
pub open spec fn render_block(sorted: Seq<Seq<Seq<char>>>) -> Seq<char> {
    "(\n"@ + join_with(sections_of(sorted), "\n\n"@) + "\n)"@
}

/// `n` empty sections.
pub open spec fn empty_sections(n: int) -> Seq<Seq<Seq<char>>>
    decreases n,
{
    if n <= 0 {
        Seq::empty()
    } else {
        empty_sections(n - 1).push(Seq::empty())
    }
}

pub proof fn lemma_empty_sections(n: int)
    requires
        n >= 0,
    ensures
        empty_sections(n).len() == n,
        forall|k: int| 0 <= k < n ==> (#[trigger] empty_sections(n)[k]).len() == 0,
    decreases n,
{
    if n > 0 {
        lemma_empty_sections(n - 1);
    }
}

/// The initial state: expecting the first section, nothing collected.
pub open spec fn f002_init(glen: int) -> F002State {
    F002State { curr: 0, sorted: empty_sections(glen), err: None }
}

/// What the rule returns over a file's import blocks: carrying the
/// state across blocks, the first block whose processing leaves a
/// diagnostic yields that diagnostic and a full-block rewrite.
pub open spec fn f002_result(
    groups: Seq<String>,
    path: Seq<char>,
    st: F002State,
    lists: Seq<ImportList>,
) -> Option<(DiagModel, EditModel)>
    decreases lists.len(),
{
    if lists.len() == 0 {
        None
    } else {
        let st1 = f002_fold(groups, path, st, lists[0].items@);
        if st1.err is Some {
            Some(
                (
                    st1.err->Some_0,
                    EditModel {
                        start: lists[0].start as int,
                        end: lists[0].end as int,
                        text: render_block(st1.sorted),
                    },
                ),
            )
        } else {
            f002_result(groups, path, st1, lists.subrange(1, lists.len() as int))
        }
    }
}

spec fn opt_err_view(e: Option<Error>) -> Option<DiagModel> {
    match e {
        Some(err) => Some(error_view(err)),
        None => None,
    }
}

fn render_sections(sorted: &Vec<Vec<String>>) -> (r: String)
    ensures
        r@ == render_block(sorted.deep_view()),
{
    let mut sections: Vec<String> = Vec::new();
    let n = sorted.len();
    let mut i: usize = 0;
    proof {
        assert(sorted.deep_view().subrange(0, 0) =~= Seq::<Seq<Seq<char>>>::empty());
        assert(sections.deep_view() =~= Seq::<Seq<char>>::empty());
    }
    while i < n
        invariant
            n == sorted@.len(),
            i <= n,
            sections@.map_values(|s: String| s@) == sections_of(
                sorted.deep_view().subrange(0, i as int),
            ),
        decreases n - i,
    {
        let ghost pre = sorted.deep_view().subrange(0, i as int);
        let ghost cur = sorted.deep_view().subrange(0, i + 1);
        proof {
            assert(cur.subrange(0, cur.len() - 1) =~= pre);
            assert(cur[cur.len() - 1] == sorted.deep_view()[i as int]);
            assert(sorted.deep_view()[i as int] == sorted@[i as int].deep_view());
            assert(sorted@[i as int].deep_view().len() == sorted@[i as int]@.len());
        }
        if sorted[i].len() > 0 {
            let joined = join(&sorted[i], "\n");
            sections.push(joined);
            proof {
                assert(sorted@[i as int]@.map_values(|p: String| p@) =~= sorted@[
                    i as int].deep_view());
                assert(sections@.map_values(|s: String| s@) =~= sections_of(pre) + seq![
                    join_with(sorted.deep_view()[i as int], "\n"@),
                ]);
            }
        } else {
            proof {
                assert(sections_of(cur) =~= sections_of(pre));
            }
        }
        i = i + 1;
    }
    proof {
        assert(sorted.deep_view().subrange(0, n as int) =~= sorted.deep_view());
    }
    let mut out = String::from_str("(\n");
    out.append(join(&sections, "\n\n").as_str());
    out.append("\n)");
    proof {
        assert(sections@.map_values(|s: String| s@) == sections_of(sorted.deep_view()));
    }
    out
}

/// Runs the import-order rule: reports the first unsorted or
/// unclassified import of the first offending block, together with the
/// block's re-rendered replacement.
pub fn run(path: &str, configuration: &Configuration, lists: &Vec<ImportList>) -> (r: (
    Vec<Error>,
    Vec<Edit>,
))
    requires
        forall|li: int, k: int|
            0 <= li < lists@.len() && 0 <= k < lists@[li].items@.len() ==> {
                let t = (#[trigger] lists@[li].items@[k]).text@;
                !is_skipped(t) && !is_blank(t) ==> has_token(t)
            },
    ensures
        !enabled_spec(configuration, "F002"@) ==> r.0@.len() == 0 && r.1@.len() == 0,
        enabled_spec(configuration, "F002"@) && configuration.settings is None ==> r.0@.len() == 0
            && r.1@.len() == 0,
        enabled_spec(configuration, "F002"@) && configuration.settings is Some ==> {
            let groups = configuration.settings->Some_0.F002@;
            match f002_result(groups, path@, f002_init(groups.len() as int), lists@) {
                Some(de) => r.0@.map_values(|e: Error| error_view(e)) == seq![de.0]
                    && r.1@.map_values(|e: Edit| edit_view(e)) == seq![de.1],
                None => r.0@.len() == 0 && r.1@.len() == 0,
            }
        },
{
    if !configuration.is_enabled(String::from_str("F002")) {
        return (Vec::new(), Vec::new());
    }
    let groups = match &configuration.settings {
        Some(s) => &s.F002,
        None => {
            return (Vec::new(), Vec::new());
        },
    };
    let glen = groups.len();

    let mut sorted: Vec<Vec<String>> = Vec::new();
    let mut gi: usize = 0;
    while gi < glen
        invariant
            gi <= glen,
            sorted@.len() == gi,
            forall|k: int| 0 <= k < gi ==> (#[trigger] sorted@[k])@.len() == 0,
        decreases glen - gi,
    {
        sorted.push(Vec::new());
        gi = gi + 1;
    }
    proof {
        lemma_empty_sections(glen as int);
        assert(sorted.deep_view() =~~= f002_init(glen as int).sorted);
    }

    let mut curr: usize = 0;
    let ghost mut spec_curr: int = 0;
    let mut error: Option<Error> = None;

    let ghost groups_v = configuration.settings->Some_0.F002@;
    let ghost init = f002_init(glen as int);
    let ghost mut st: F002State = init;

    let n = lists.len();
    let mut li: usize = 0;
    proof {
        assert(lists@.subrange(0, n as int) =~= lists@);
    }
    while li < n
        invariant
            n == lists@.len(),
            li <= n,
            glen == groups_v.len(),
            groups@ == groups_v,
            init == f002_init(glen as int),
            configuration.settings is Some,
            configuration.settings->Some_0.F002@ == groups_v,
            enabled_spec(configuration, "F002"@),
            forall|a: int, k: int|
                0 <= a < lists@.len() && 0 <= k < lists@[a].items@.len() ==> {
                    let t = (#[trigger] lists@[a].items@[k]).text@;
                    !is_skipped(t) && !is_blank(t) ==> has_token(t)
                },
            st == (F002State {
                curr: spec_curr,
                sorted: sorted.deep_view(),
                err: opt_err_view(error),
            }),
            st.err is None,
            error is None,
            sorted@.len() == glen,
            curr as int == if spec_curr > glen as int {
                glen as int
            } else {
                spec_curr
            },
            0 <= spec_curr,
            f002_result(groups_v, path@, init, lists@) == f002_result(
                groups_v,
                path@,
                st,
                lists@.subrange(li as int, n as int),
            ),
        decreases n - li,
    {
        let list = &lists[li];
        let items = &list.items;
        let m = items.len();
        let ghost st_entry = st;
        let mut k: usize = 0;
        proof {
            assert(items@.subrange(0, 0) =~= Seq::<ImportItem>::empty());
        }
        while k < m
            invariant
                m == items@.len(),
                k <= m,
                glen == groups_v.len(),
                groups@ == groups_v,
                li < n == lists@.len(),
                items@ == lists@[li as int].items@,
                forall|j: int|
                    0 <= j < m ==> {
                        let t = (#[trigger] items@[j]).text@;
                        !is_skipped(t) && !is_blank(t) ==> has_token(t)
                    },
                st == f002_fold(groups_v, path@, st_entry, items@.subrange(0, k as int)),
                st == (F002State {
                    curr: spec_curr,
                    sorted: sorted.deep_view(),
                    err: opt_err_view(error),
                }),
                sorted@.len() == glen,
                curr as int == if spec_curr > glen as int {
                    glen as int
                } else {
                    spec_curr
                },
                0 <= spec_curr,
            decreases m - k,
        {
            let ghost st_before = st;
            let it = &items[k];
            let text = it.text.as_str();
            proof {
                let t = items@.subrange(0, k + 1);
                assert(t.subrange(0, t.len() - 1) =~= items@.subrange(0, k as int));
                assert(t[t.len() - 1] == items@[k as int]);
            }
            if str_eq(text, "(") || str_eq(text, ")") || str_eq(text, "\n") {
                proof {
                    st = f002_step(groups_v, path@, st_before, items@[k as int]);
                    assert(st == st_before);
                }
            } else if str_eq(text, "\n\n") {
                if curr < glen {
                    curr = curr + 1;
                }
                proof {
                    spec_curr = spec_curr + 1;
                    st = f002_step(groups_v, path@, st_before, items@[k as int]);
                }
            } else {
                let token = match last_token(text) {
                    Some(tk) => tk,
                    None => {
                        proof {
                            assert(has_token(text@));
                        }
                        vstd::pervasive::unreached()
                    },
                };
                let import = trim_quotes(token.as_str());
                proof {
                    let (b, e) = choose|b: int, e: int|
                        crate::text::token_at(text@, b, e) && token@ == text@.subrange(b, e + 1);
                    lemma_last_token_at(text@, b, e);
                    assert(import@ == import_of(text@));
                }
                let g_opt = index(groups, import.as_str());
                proof {
                    lemma_index_spec_bounds(groups_v, import@);
                    st = f002_step(groups_v, path@, st_before, items@[k as int]);
                }
                match g_opt {
                    Some(g) => {
                        let mut tabbed = String::from_str("\t");
                        tabbed.append(text);
                        let ghost sorted_before = sorted.deep_view();
                        sorted[g].push(tabbed);
                        proof {
                            assert(tabbed@ == "\t"@ + text@);
                            assert(sorted.deep_view() =~~= sorted_before.update(
                                g as int,
                                sorted_before[g as int].push("\t"@ + text@),
                            ));
                        }
                        if g < curr {
                            if error.is_none() {
                                let mut msg = String::from_str("unsorted import \"");
                                msg.append(import.as_str());
                                msg.append("\"");
                                error = Some(
                                    Error {
                                        filename: path.to_owned(),
                                        position: it.pos,
                                        rule: String::from_str("F002"),
                                        message: msg,
                                    },
                                );
                            }
                        }
                        curr = g;
                        proof {
                            spec_curr = g as int;
                        }
                    },
                    None => {
                        if error.is_none() {
                            let mut msg = String::from_str("unclassified import \"");
                            msg.append(import.as_str());
                            msg.append("\"");
                            error = Some(
                                Error {
                                    filename: path.to_owned(),
                                    position: it.pos,
                                    rule: String::from_str("F002"),
                                    message: msg,
                                },
                            );
                        }
                    },
                }
            }
            k = k + 1;
        }
        proof {
            assert(items@.subrange(0, m as int) =~= items@);
            assert(st == f002_fold(groups_v, path@, st_entry, lists@[li as int].items@));
            assert(lists@.subrange(li as int, n as int)[0] == lists@[li as int]);
        }
        if error.is_some() {
            let err = match error {
                Some(e) => e,
                None => vstd::pervasive::unreached(),
            };
            let rendered = render_sections(&sorted);
            let mut errors: Vec<Error> = Vec::new();
            let mut editors: Vec<Edit> = Vec::new();
            errors.push(err);
            editors.push(Edit { start: list.start, end: list.end, text: rendered });
            proof {
                assert(errors@.map_values(|e: Error| error_view(e)) =~= seq![st.err->Some_0]);
                assert(editors@.map_values(|e: Edit| edit_view(e)) =~= seq![
                    EditModel {
                        start: lists@[li as int].start as int,
                        end: lists@[li as int].end as int,
                        text: render_block(st.sorted),
                    },
                ]);
                let suffix = lists@.subrange(li as int, n as int);
                assert(suffix.len() > 0);
                assert(suffix[0] == lists@[li as int]);
                let st1 = f002_fold(groups_v, path@, st_entry, suffix[0].items@);
                assert(st1 == st);
                assert(f002_result(groups_v, path@, st_entry, suffix) == Some(
                    (
                        st.err->Some_0,
                        EditModel {
                            start: lists@[li as int].start as int,
                            end: lists@[li as int].end as int,
                            text: render_block(st.sorted),
                        },
                    ),
                ));
                let ghost groups2 = configuration.settings->Some_0.F002@;
                assert(f002_init(groups2.len() as int) == init);
            }
            return (errors, editors);
        }
        proof {
            assert(lists@.subrange(li as int, n as int).subrange(
                1,
                lists@.subrange(li as int, n as int).len() as int,
            ) =~= lists@.subrange(li + 1, n as int));
        }
        li = li + 1;
    }
    proof {
        assert(lists@.subrange(n as int, n as int) =~= Seq::<ImportList>::empty());
    }
    (Vec::new(), Vec::new())
}

} // verus!
