//! What a join returns, stated over sequences of rows.

use vstd::prelude::*;
use crate::join::row::{spec_slot_of, JoinType, JoinedRowView, Marker, RowView};

verus! {

/// The indices, ascending, of the build rows whose key equals `key`.
/// A null key matches nothing.
pub open spec fn build_matches(build: Seq<RowView>, key: Option<Seq<Option<u64>>>) -> Seq<usize>
    decreases build.len(),
{
    if build.len() == 0 {
        Seq::empty()
    } else {
        let n = build.len() - 1;
        let rest = build_matches(build.take(n), key);
        if key is Some && build[n].key == key {
            rest.push(n as usize)
        } else {
            rest
        }
    }
}

/// The candidates that a selection mask lets through, in their order.
pub open spec fn selected(cands: Seq<usize>, mask: Seq<bool>) -> Seq<usize>
    decreases cands.len(),
{
    if cands.len() == 0 {
        Seq::empty()
    } else {
        let n = cands.len() - 1;
        let rest = selected(cands.take(n), mask);
        if mask[n] {
            rest.push(cands[n])
        } else {
            rest
        }
    }
}

/// What the probe side must know of the whole build side, beyond the rows
/// it can reach through the hash table.
#[derive(Clone, Copy, Debug, PartialEq, Eq, Structural)]
pub struct BuildFacts {
    pub any_rows: bool,
    pub any_null_key: bool,
}

pub open spec fn has_null_key(build: Seq<RowView>) -> bool {
    exists|j: int| 0 <= j < build.len() && (#[trigger] build[j]).key is None
}

pub open spec fn facts_of(build: Seq<RowView>) -> BuildFacts {
    BuildFacts { any_rows: build.len() > 0, any_null_key: has_null_key(build) }
}

pub open spec fn joined(p: RowView, b: RowView) -> JoinedRowView {
    JoinedRowView { probe: Some(p), build: Some(b), marker: None }
}

pub open spec fn probe_only(p: RowView) -> JoinedRowView {
    JoinedRowView { probe: Some(p), build: None, marker: None }
}

pub open spec fn build_only(b: RowView) -> JoinedRowView {
    JoinedRowView { probe: None, build: Some(b), marker: None }
}

pub open spec fn marked(p: RowView, m: Marker) -> JoinedRowView {
    JoinedRowView { probe: Some(p), build: None, marker: Some(m) }
}

/// The marker of a probe row: true where it has a match; unknown where it has
/// none but a null stands in the way (its own key, or a key of the build
/// side); false otherwise.
pub open spec fn marker_of(p: RowView, has_match: bool, facts: BuildFacts) -> Marker {
    if has_match {
        Marker::True
    } else if (p.key is None && facts.any_rows) || facts.any_null_key {
        Marker::Unknown
    } else {
        Marker::False
    }
}

/// The probe row joined to each of the build rows in `sel`, in order.
pub open spec fn pairs_of(p: RowView, build: Seq<RowView>, sel: Seq<usize>) -> Seq<JoinedRowView> {
    Seq::new(sel.len(), |c: int| joined(p, build[sel[c] as int]))
}

/// What one probe row contributes to the output, given the build rows `sel`
/// that it matches.
pub open spec fn probe_row_output(
    jt: JoinType,
    build: Seq<RowView>,
    p: RowView,
    sel: Seq<usize>,
    facts: BuildFacts,
) -> Seq<JoinedRowView> {
    match jt {
        JoinType::Inner | JoinType::Right => pairs_of(p, build, sel),
        JoinType::Left | JoinType::Full => if sel.len() == 0 {
            seq![probe_only(p)]
        } else {
            pairs_of(p, build, sel)
        },
        JoinType::Semi => if sel.len() > 0 {
            seq![probe_only(p)]
        } else {
            Seq::empty()
        },
        JoinType::Anti => if sel.len() == 0 {
            seq![probe_only(p)]
        } else {
            Seq::empty()
        },
        JoinType::Mark => seq![marked(p, marker_of(p, sel.len() > 0, facts))],
    }
}

/// What a batch of probe rows contributes: the rows' contributions in order.
/// `sels[i]` holds the build rows that probe row `i` matches.
pub open spec fn probe_output(
    jt: JoinType,
    build: Seq<RowView>,
    probe: Seq<RowView>,
    sels: Seq<Seq<usize>>,
    facts: BuildFacts,
) -> Seq<JoinedRowView>
    decreases probe.len(),
{
    if probe.len() == 0 {
        Seq::empty()
    } else {
        let n = probe.len() - 1;
        probe_output(jt, build, probe.take(n), sels, facts) + probe_row_output(
            jt,
            build,
            probe[n],
            sels[n],
            facts,
        )
    }
}

/// Whether some probe row among the first `rows` matched build row `j`.
pub open spec fn reached(sels: Seq<Seq<usize>>, rows: int, j: usize) -> bool {
    exists|i: int| 0 <= i < rows && (#[trigger] sels[i]).contains(j)
}

/// The build rows never visited, each extended with nulls, in order.
pub open spec fn unvisited_rows(build: Seq<RowView>, visited: Seq<bool>) -> Seq<JoinedRowView>
    decreases build.len(),
{
    if build.len() == 0 {
        Seq::empty()
    } else {
        let n = build.len() - 1;
        let rest = unvisited_rows(build.take(n), visited);
        if visited[n] {
            rest
        } else {
            rest.push(build_only(build[n]))
        }
    }
}

/// The build rows that fall into one slot of a table of `slots` slots, ascending.
/// Rows with a null key fall into none.
pub open spec fn bucket_rows(build: Seq<RowView>, slots: usize, slot: usize) -> Seq<usize>
    decreases build.len(),
{
    if build.len() == 0 {
        Seq::empty()
    } else {
        let n = build.len() - 1;
        let rest = bucket_rows(build.take(n), slots, slot);
        if build[n].key is Some && spec_slot_of(build[n].key, slots) == slot {
            rest.push(n as usize)
        } else {
            rest
        }
    }
}

/// The entries of a bucket whose row has the key `key`, in order.
pub open spec fn matches_in(entries: Seq<usize>, build: Seq<RowView>, key: Seq<Option<u64>>) -> Seq<usize>
    decreases entries.len(),
{
    if entries.len() == 0 {
        Seq::empty()
    } else {
        let n = entries.len() - 1;
        let rest = matches_in(entries.take(n), build, key);
        if build[entries[n] as int].key == Some(key) {
            rest.push(entries[n])
        } else {
            rest
        }
    }
}

/// Every entry of a bucket names a row.
pub proof fn lemma_bucket_rows_in_range(build: Seq<RowView>, slots: usize, slot: usize)
    requires
        build.len() <= usize::MAX,
    ensures
        forall|c: int|
            0 <= c < bucket_rows(build, slots, slot).len() ==> (#[trigger] bucket_rows(
                build,
                slots,
                slot,
            )[c]) < build.len(),
    decreases build.len(),
{
    if build.len() > 0 {
        let n = build.len() - 1;
        lemma_bucket_rows_in_range(build.take(n), slots, slot);
        let rest = bucket_rows(build.take(n), slots, slot);
        let all = bucket_rows(build, slots, slot);
        assert forall|c: int| 0 <= c < all.len() implies (#[trigger] all[c]) < build.len() by {
            if c < rest.len() {
                assert(all[c] == rest[c]);
            }
        }
    }
}

/// The rows that `matches_in` keeps depend only on the rows the entries name.
pub proof fn lemma_matches_in_prefix(entries: Seq<usize>, build: Seq<RowView>, n: int, key: Seq<Option<u64>>)
    requires
        0 <= n <= build.len(),
        forall|c: int| 0 <= c < entries.len() ==> (#[trigger] entries[c]) < n,
    ensures
        matches_in(entries, build.take(n), key) == matches_in(entries, build, key),
    decreases entries.len(),
{
    if entries.len() > 0 {
        let m = entries.len() - 1;
        lemma_matches_in_prefix(entries.take(m), build, n, key);
    }
}

/// Scanning the bucket of a key for that key finds exactly the build rows that
/// carry it.
pub proof fn lemma_bucket_scan(build: Seq<RowView>, slots: usize, key: Seq<Option<u64>>)
    requires
        slots > 0,
        build.len() <= usize::MAX,
    ensures
        matches_in(bucket_rows(build, slots, spec_slot_of(Some(key), slots)), build, key)
            == build_matches(build, Some(key)),
    decreases build.len(),
{
    let slot = spec_slot_of(Some(key), slots);
    if build.len() > 0 {
        let n = build.len() - 1;
        let shorter = build.take(n);
        lemma_bucket_scan(shorter, slots, key);
        lemma_bucket_rows_in_range(shorter, slots, slot);
        let rest = bucket_rows(shorter, slots, slot);
        lemma_matches_in_prefix(rest, build, n, key);
        if build[n].key is Some && spec_slot_of(build[n].key, slots) == slot {
            let full = rest.push(n as usize);
            assert(full.take(full.len() - 1) == rest);
        }
    }
}

/// Whether a probe row and a build row pair up: their keys are equal and not
/// null, and the residual predicate accepts the pair.
pub open spec fn pair_matches(
    p: RowView,
    b: RowView,
    residual: spec_fn(RowView, RowView) -> bool,
) -> bool {
    p.key is Some && p.key == b.key && residual(p, b)
}

/// The residual predicate of a join that has none.
pub open spec fn no_residual() -> spec_fn(RowView, RowView) -> bool {
    |p: RowView, b: RowView| true
}

/// The build rows that pair up with a probe row, in build order.
pub open spec fn matching_rows(
    build: Seq<RowView>,
    p: RowView,
    residual: spec_fn(RowView, RowView) -> bool,
) -> Seq<
    RowView,
>
    decreases build.len(),
{
    if build.len() == 0 {
        Seq::empty()
    } else {
        let n = build.len() - 1;
        let rest = matching_rows(build.take(n), p, residual);
        if pair_matches(p, build[n], residual) {
            rest.push(build[n])
        } else {
            rest
        }
    }
}

/// What one probe row contributes to the output, given the build rows that
/// pair up with it.
pub open spec fn row_output(jt: JoinType, p: RowView, matched: Seq<RowView>, facts: BuildFacts) -> Seq<JoinedRowView> {
    match jt {
        JoinType::Inner | JoinType::Right => Seq::new(matched.len(), |c: int| joined(p, matched[c])),
        JoinType::Left | JoinType::Full => if matched.len() == 0 {
            seq![probe_only(p)]
        } else {
            Seq::new(matched.len(), |c: int| joined(p, matched[c]))
        },
        JoinType::Semi => if matched.len() > 0 {
            seq![probe_only(p)]
        } else {
            Seq::empty()
        },
        JoinType::Anti => if matched.len() == 0 {
            seq![probe_only(p)]
        } else {
            Seq::empty()
        },
        JoinType::Mark => seq![marked(p, marker_of(p, matched.len() > 0, facts))],
    }
}

/// The output that the probe rows give rise to, in probe order.
pub open spec fn probe_part(
    jt: JoinType,
    build: Seq<RowView>,
    probe: Seq<RowView>,
    residual: spec_fn(RowView, RowView) -> bool,
    facts: BuildFacts,
) -> Seq<JoinedRowView>
    decreases probe.len(),
{
    if probe.len() == 0 {
        Seq::empty()
    } else {
        let n = probe.len() - 1;
        probe_part(jt, build, probe.take(n), residual, facts) + row_output(
            jt,
            probe[n],
            matching_rows(build, probe[n], residual),
            facts,
        )
    }
}

/// Whether some probe row pairs up with a build row.
pub open spec fn has_match(
    probe: Seq<RowView>,
    b: RowView,
    residual: spec_fn(RowView, RowView) -> bool,
) -> bool {
    exists|i: int| 0 <= i < probe.len() && pair_matches(#[trigger] probe[i], b, residual)
}

/// The build rows that no probe row pairs up with, each extended with nulls,
/// in build order.
pub open spec fn unmatched_part(
    build: Seq<RowView>,
    probe: Seq<RowView>,
    residual: spec_fn(RowView, RowView) -> bool,
) -> Seq<JoinedRowView>
    decreases build.len(),
{
    if build.len() == 0 {
        Seq::empty()
    } else {
        let n = build.len() - 1;
        let rest = unmatched_part(build.take(n), probe, residual);
        if has_match(probe, build[n], residual) {
            rest
        } else {
            rest.push(build_only(build[n]))
        }
    }
}

/// Whether a join type emits the build rows that no probe row matched.
pub open spec fn keeps_build_side(jt: JoinType) -> bool {
    jt is Right || jt is Full
}

/// The whole output of a join: what the probe rows give rise to, then, for
/// the joins that keep the build side, the build rows left unmatched.
pub open spec fn join_output(
    jt: JoinType,
    build: Seq<RowView>,
    probe: Seq<RowView>,
    residual: spec_fn(RowView, RowView) -> bool,
    facts: BuildFacts,
) -> Seq<JoinedRowView> {
    probe_part(jt, build, probe, residual, facts) + (if keeps_build_side(jt) {
        unmatched_part(build, probe, residual)
    } else {
        Seq::empty()
    })
}

/// The rows of a store that a list of indices names.
pub open spec fn rows_at(build: Seq<RowView>, sel: Seq<usize>) -> Seq<RowView> {
    Seq::new(sel.len(), |c: int| build[sel[c] as int])
}

/// A mask over a row's candidates says what the residual predicate says.
pub open spec fn mask_agrees(
    build: Seq<RowView>,
    p: RowView,
    cands: Seq<usize>,
    mask: Seq<bool>,
    residual: spec_fn(RowView, RowView) -> bool,
) -> bool {
    &&& mask.len() == cands.len()
    &&& forall|c: int| 0 <= c < cands.len() ==> (#[trigger] mask[c]) == residual(p, build[cands[c] as int])
}

/// Every candidate of a key names a build row with that key.
pub proof fn lemma_build_matches_sound(build: Seq<RowView>, key: Option<Seq<Option<u64>>>)
    requires
        build.len() <= usize::MAX,
    ensures
        forall|c: int|
            0 <= c < build_matches(build, key).len() ==> {
                let j = #[trigger] build_matches(build, key)[c];
                j < build.len() && key is Some && build[j as int].key == key
            },
    decreases build.len(),
{
    if build.len() > 0 {
        let n = build.len() - 1;
        lemma_build_matches_sound(build.take(n), key);
        let rest = build_matches(build.take(n), key);
        let all = build_matches(build, key);
        assert forall|c: int| 0 <= c < all.len() implies {
            let j = #[trigger] all[c];
            j < build.len() && key is Some && build[j as int].key == key
        } by {
            if c < rest.len() {
                assert(all[c] == rest[c]);
            }
        }
    }
}

/// A build row is among the candidates of a key exactly if it carries the key.
pub proof fn lemma_build_matches_complete(build: Seq<RowView>, key: Option<Seq<Option<u64>>>, j: usize)
    requires
        build.len() <= usize::MAX,
    ensures
        build_matches(build, key).contains(j) <==> (j < build.len() && key is Some
            && build[j as int].key == key),
    decreases build.len(),
{
    if build.len() > 0 {
        let n = build.len() - 1;
        lemma_build_matches_complete(build.take(n), key, j);
        lemma_build_matches_sound(build, key);
        let rest = build_matches(build.take(n), key);
        let all = build_matches(build, key);
        if rest.contains(j) {
            let c = choose|c: int| 0 <= c < rest.len() && rest[c] == j;
            assert(all[c] == j);
        }
        if j == n && key is Some && build[n].key == key {
            assert(all[all.len() - 1] == j);
        }
        if all.contains(j) {
            let c = choose|c: int| 0 <= c < all.len() && all[c] == j;
            if c < rest.len() {
                assert(rest[c] == j);
            }
        }
    }
}

/// An entry that the mask lets through is a candidate that the mask accepts.
pub proof fn lemma_selected_contains(cands: Seq<usize>, mask: Seq<bool>, j: usize)
    requires
        mask.len() == cands.len(),
    ensures
        selected(cands, mask).contains(j) <==> (exists|c: int|
            0 <= c < cands.len() && #[trigger] cands[c] == j && mask[c]),
    decreases cands.len(),
{
    if cands.len() > 0 {
        let n = cands.len() - 1;
        let shorter = cands.take(n);
        lemma_selected_contains(shorter, mask.take(n), j);
        lemma_selected_mask_prefix(shorter, mask, n);
        let rest = selected(shorter, mask);
        let all = selected(cands, mask);
        if rest.contains(j) {
            let d = choose|d: int| 0 <= d < rest.len() && rest[d] == j;
            assert(all[d] == j);
            let c = choose|c: int| 0 <= c < shorter.len() && #[trigger] shorter[c] == j && mask.take(n)[c];
            assert(cands[c] == j && mask[c]);
        }
        if mask[n] && cands[n] == j {
            assert(all[all.len() - 1] == j);
        }
        if all.contains(j) {
            let d = choose|d: int| 0 <= d < all.len() && all[d] == j;
            if d < rest.len() {
                assert(rest[d] == j);
            }
        }
        if exists|c: int| 0 <= c < cands.len() && #[trigger] cands[c] == j && mask[c] {
            let c = choose|c: int| 0 <= c < cands.len() && #[trigger] cands[c] == j && mask[c];
            if c < n {
                assert(shorter[c] == j && mask.take(n)[c]);
            }
        }
    }
}

/// The selection reads the mask only where there are candidates.
pub proof fn lemma_selected_mask_prefix(cands: Seq<usize>, mask: Seq<bool>, n: int)
    requires
        cands.len() <= n <= mask.len(),
    ensures
        selected(cands, mask.take(n)) == selected(cands, mask),
    decreases cands.len(),
{
    if cands.len() > 0 {
        let m = cands.len() - 1;
        lemma_selected_mask_prefix(cands.take(m), mask, n);
    }
}

/// What a mask lets through stays below any bound on the candidates.
pub proof fn lemma_selected_in_range(cands: Seq<usize>, mask: Seq<bool>, n: int)
    requires
        forall|c: int| 0 <= c < cands.len() ==> (#[trigger] cands[c]) < n,
    ensures
        forall|c: int|
            0 <= c < selected(cands, mask).len() ==> (#[trigger] selected(cands, mask)[c]) < n,
    decreases cands.len(),
{
    if cands.len() > 0 {
        let m = cands.len() - 1;
        lemma_selected_in_range(cands.take(m), mask, n);
        let rest = selected(cands.take(m), mask);
        let all = selected(cands, mask);
        assert forall|c: int| 0 <= c < all.len() implies (#[trigger] all[c]) < n by {
            if c < rest.len() {
                assert(all[c] == rest[c]);
            } else {
                assert(all[c] == cands[m]);
            }
        }
    }
}

/// A mask that accepts everything selects every candidate.
pub proof fn lemma_selected_all(cands: Seq<usize>, mask: Seq<bool>)
    requires
        mask.len() == cands.len(),
        forall|c: int| 0 <= c < mask.len() ==> #[trigger] mask[c],
    ensures
        selected(cands, mask) == cands,
    decreases cands.len(),
{
    if cands.len() > 0 {
        let n = cands.len() - 1;
        lemma_selected_all(cands.take(n), mask.take(n));
        lemma_selected_mask_prefix(cands.take(n), mask, n);
        assert(cands.take(n).push(cands[n]) == cands);
    } else {
        assert(cands == Seq::<usize>::empty());
    }
}

/// Narrowing the candidates of a probe row by a mask that agrees with the
/// residual predicate leaves exactly the build rows that pair up with it.
pub proof fn lemma_selection_is_matching(
    build: Seq<RowView>,
    p: RowView,
    mask: Seq<bool>,
    residual: spec_fn(RowView, RowView) -> bool,
)
    requires
        build.len() <= usize::MAX,
        mask_agrees(build, p, build_matches(build, p.key), mask, residual),
    ensures
        rows_at(build, selected(build_matches(build, p.key), mask)) == matching_rows(
            build,
            p,
            residual,
        ),
    decreases build.len(),
{
    let cands = build_matches(build, p.key);
    if build.len() > 0 {
        let n = build.len() - 1;
        let shorter = build.take(n);
        let rest = build_matches(shorter, p.key);
        lemma_build_matches_sound(shorter, p.key);
        if p.key is Some && build[n].key == p.key {
            assert(cands == rest.push(n as usize));
            assert(cands.take(cands.len() - 1) == rest);
            let m = mask.take(rest.len() as int);
            assert(mask_agrees(shorter, p, rest, m, residual)) by {
                assert forall|c: int| 0 <= c < rest.len() implies (#[trigger] m[c]) == residual(
                    p,
                    shorter[rest[c] as int],
                ) by {
                    assert(mask[c] == residual(p, build[cands[c] as int]));
                }
            }
            lemma_selection_is_matching(shorter, p, m, residual);
            lemma_selected_mask_prefix(rest, mask, rest.len() as int);
            lemma_selected_in_range(rest, mask, n);
            lemma_rows_at_prefix(build, n, selected(rest, mask));
            assert(mask[rest.len() as int] == residual(p, build[n]));
            if residual(p, build[n]) {
                assert(rows_at(build, selected(rest, mask).push(n as usize)) =~= rows_at(
                    build,
                    selected(rest, mask),
                ).push(build[n]));
            }
        } else {
            assert(cands == rest);
            assert(mask_agrees(shorter, p, rest, mask, residual)) by {
                assert forall|c: int| 0 <= c < rest.len() implies (#[trigger] mask[c]) == residual(
                    p,
                    shorter[rest[c] as int],
                ) by {
                    assert(mask[c] == residual(p, build[cands[c] as int]));
                }
            }
            lemma_selection_is_matching(shorter, p, mask, residual);
            lemma_selected_in_range(rest, mask, n);
            lemma_rows_at_prefix(build, n, selected(rest, mask));
        }
    } else {
        assert(rows_at(build, selected(cands, mask)) =~= Seq::<RowView>::empty());
    }
}

/// Reading rows through indices below `n` does not look past row `n`.
pub proof fn lemma_rows_at_prefix(build: Seq<RowView>, n: int, sel: Seq<usize>)
    requires
        0 <= n <= build.len(),
    ensures
        (forall|c: int| 0 <= c < sel.len() ==> (#[trigger] sel[c]) < n) ==> rows_at(
            build.take(n),
            sel,
        ) == rows_at(build, sel),
{
    if forall|c: int| 0 <= c < sel.len() ==> (#[trigger] sel[c]) < n {
        assert(rows_at(build.take(n), sel) =~= rows_at(build, sel));
    }
}

} // verus!
