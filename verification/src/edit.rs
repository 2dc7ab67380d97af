//! The autofix edit engine: byte-span snapshots of rewrite targets and
//! their application against the original buffer, in reverse discovery
//! order, with a loud overlap check instead of corrupted output.

use vstd::prelude::*;
use vstd::string::*;

verus! {

/// One proposed rewrite: replace the span `[start, end)` of the
/// original buffer (character offsets) with `text`.
#[derive(Debug, Clone)]
pub struct Edit {
    pub start: usize,
    pub end: usize,
    pub text: String,
}

/// The edit's span lies inside a buffer of length `n`.
pub open spec fn edit_in_bounds(e: Edit, n: int) -> bool {
    e.start <= e.end <= n
}

/// Edits are individually in bounds, and pairwise non-overlapping in
/// discovery order: each edit ends before the next one starts.
pub open spec fn edits_well_formed(es: Seq<Edit>, n: int) -> bool {
    &&& (forall|i: int| 0 <= i < es.len() ==> edit_in_bounds(#[trigger] es[i], n))
    &&& (forall|i: int, j: int|
        0 <= i < j < es.len() ==> (#[trigger] es[i]).end <= (#[trigger] es[j]).start)
}

/// The buffer after one edit: everything outside the span is kept
/// verbatim.
pub open spec fn splice(s: Seq<char>, e: Edit) -> Seq<char> {
    s.subrange(0, e.start as int) + e.text@ + s.subrange(e.end as int, s.len() as int)
}

/// The buffer after all edits, applied in reverse discovery order: the
/// last-collected edit first, so that the spans of the edits still to
/// come stay valid.
pub open spec fn applied(s: Seq<char>, es: Seq<Edit>) -> Seq<char>
    decreases es.len(),
{
    if es.len() == 0 {
        s
    } else {
        applied(splice(s, es[es.len() - 1]), es.subrange(0, es.len() - 1))
    }
}

/// Applies one edit to a buffer.
pub fn apply_edit(source: &str, edit: &Edit) -> (r: String)
    requires
        edit_in_bounds(*edit, source@.len() as int),
    ensures
        r@ == splice(source@, *edit),
{
    let n = source.unicode_len();
    let mut out = source.substring_char(0, edit.start).to_owned();
    out.append(edit.text.as_str());
    out.append(source.substring_char(edit.end, n));
    out
}

/// Applies a discovery-ordered edit list to the original buffer, the
/// last edit first. Overlapping or out-of-bounds edits are refused
/// rather than applied.
pub fn apply_edits(source: &str, edits: &Vec<Edit>) -> (r: Option<String>)
    ensures
        match r {
            Some(out) => edits_well_formed(edits@, source@.len() as int) && out@ == applied(
                source@,
                edits@,
            ),
            None => !edits_well_formed(edits@, source@.len() as int),
        },
{
    let n = source.unicode_len();
    let m = edits.len();
    let mut i: usize = 0;
    while i < m
        invariant
            n == source@.len(),
            m == edits@.len(),
            i <= m,
            forall|k: int| 0 <= k < i ==> edit_in_bounds(#[trigger] edits@[k], n as int),
            forall|k: int| 0 < k < i ==> edits@[k - 1].end <= (#[trigger] edits@[k]).start,
        decreases m - i,
    {
        if !(edits[i].start <= edits[i].end && edits[i].end <= n) {
            return None;
        }
        if i > 0 && !(edits[i - 1].end <= edits[i].start) {
            return None;
        }
        i = i + 1;
    }
    proof {
        assert forall|a: int, b: int| 0 <= a < b < m implies (#[trigger] edits@[a]).end <= (
        #[trigger] edits@[b]).start by {
            lemma_chain(edits@, a, b);
        }
    }
    let mut out = source.to_owned();
    let mut k = m;
    proof {
        assert(edits@.subrange(0, m as int) =~= edits@);
    }
    while k > 0
        invariant
            n == source@.len(),
            m == edits@.len(),
            k <= m,
            edits_well_formed(edits@, n as int),
            applied(source@, edits@) == applied(out@, edits@.subrange(0, k as int)),
            forall|j: int| 0 <= j < k ==> (#[trigger] edits@[j]).end <= out@.len(),
        decreases k,
    {
        k = k - 1;
        let ghost before = out@;
        out = apply_edit(out.as_str(), &edits[k]);
        proof {
            let t = edits@.subrange(0, k + 1);
            assert(t[t.len() - 1] == edits@[k as int]);
            assert(t.subrange(0, t.len() - 1) =~= edits@.subrange(0, k as int));
            assert(out@.len() == edits@[k as int].start + edits@[k as int].text@.len() + (
            before.len() - edits@[k as int].end));
        }
    }
    proof {
        assert(edits@.subrange(0, 0) =~= Seq::<Edit>::empty());
    }
    Some(out)
}

proof fn lemma_chain(es: Seq<Edit>, a: int, b: int)
    requires
        0 <= a < b < es.len(),
        forall|k: int| 0 < k < es.len() ==> es[k - 1].end <= (#[trigger] es[k]).start,
        forall|k: int| 0 <= k < es.len() ==> (#[trigger] es[k]).start <= es[k].end,
    ensures
        es[a].end <= es[b].start,
    decreases b - a,
{
    if a + 1 == b {
    } else {
        lemma_chain(es, a, b - 1);
        assert(es[b - 1].end <= es[b].start);
        assert(es[b - 1].start <= es[b - 1].end);
    }
}

} // verus!
