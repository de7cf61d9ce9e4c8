//! The link between what the probe computes over row indices and what a join
//! is, stated over rows.

use vstd::prelude::*;
use crate::join::probe::{all_in_range, selections};
use crate::join::row::{JoinType, RowView};
use crate::join::spec::{
    build_matches, has_match, lemma_build_matches_complete, lemma_build_matches_sound,
    lemma_selected_contains, lemma_selected_in_range, lemma_selection_is_matching, mask_agrees,
    matching_rows, pair_matches, pairs_of, probe_output, probe_part, probe_row_output, reached,
    row_output, rows_at, selected, unmatched_part, unvisited_rows, BuildFacts,
};

verus! {

/// What a probe row contributes depends on its selection only through the
/// rows selected.
pub proof fn lemma_row_output_by_rows(
    jt: JoinType,
    build: Seq<RowView>,
    p: RowView,
    sel: Seq<usize>,
    facts: BuildFacts,
)
    ensures
        probe_row_output(jt, build, p, sel, facts) == row_output(
            jt,
            p,
            rows_at(build, sel),
            facts,
        ),
{
    assert(pairs_of(p, build, sel) =~= Seq::new(
        rows_at(build, sel).len(),
        |c: int| crate::join::spec::joined(p, rows_at(build, sel)[c]),
    ));
}

/// Where every probe row's selection holds the build rows that pair up with
/// it, the probe's output is the probe part of the join.
pub proof fn lemma_probe_output_is_probe_part(
    jt: JoinType,
    build: Seq<RowView>,
    probe: Seq<RowView>,
    sels: Seq<Seq<usize>>,
    residual: spec_fn(RowView, RowView) -> bool,
    facts: BuildFacts,
)
    requires
        probe.len() <= sels.len(),
        forall|i: int|
            0 <= i < probe.len() ==> rows_at(build, #[trigger] sels[i]) == matching_rows(
                build,
                probe[i],
                residual,
            ),
    ensures
        probe_output(jt, build, probe, sels, facts) == probe_part(jt, build, probe, residual, facts),
    decreases probe.len(),
{
    if probe.len() > 0 {
        let n = probe.len() - 1;
        assert forall|i: int| 0 <= i < probe.take(n).len() implies rows_at(
            build,
            #[trigger] sels[i],
        ) == matching_rows(build, probe.take(n)[i], residual) by {
            assert(probe.take(n)[i] == probe[i]);
        }
        lemma_probe_output_is_probe_part(jt, build, probe.take(n), sels, residual, facts);
        lemma_row_output_by_rows(jt, build, probe[n], sels[n], facts);
    }
}

/// Where the visited flags say which build rows some probe row pairs up
/// with, the rows left unvisited are the unmatched part of the join.
pub proof fn lemma_unvisited_is_unmatched(
    build: Seq<RowView>,
    probe: Seq<RowView>,
    visited: Seq<bool>,
    residual: spec_fn(RowView, RowView) -> bool,
)
    requires
        build.len() <= visited.len(),
        forall|j: int|
            0 <= j < build.len() ==> (#[trigger] visited[j]) == has_match(probe, build[j], residual),
    ensures
        unvisited_rows(build, visited) == unmatched_part(build, probe, residual),
    decreases build.len(),
{
    if build.len() > 0 {
        let n = build.len() - 1;
        assert forall|j: int| 0 <= j < build.take(n).len() implies (#[trigger] visited[j])
            == has_match(probe, build.take(n)[j], residual) by {
            assert(build.take(n)[j] == build[j]);
        }
        lemma_unvisited_is_unmatched(build.take(n), probe, visited, residual);
    }
}

/// The probe, run on the candidates of each row narrowed by a mask that
/// agrees with the residual predicate, computes the join: its output is the
/// probe part, and it reaches exactly the build rows that have a match.
pub proof fn lemma_probe_agrees(
    jt: JoinType,
    build: Seq<RowView>,
    probe: Seq<RowView>,
    cands: Seq<Seq<usize>>,
    masks: Seq<Seq<bool>>,
    residual: spec_fn(RowView, RowView) -> bool,
    facts: BuildFacts,
)
    requires
        build.len() <= usize::MAX,
        cands.len() == probe.len(),
        masks.len() == probe.len(),
        forall|i: int|
            0 <= i < probe.len() ==> (#[trigger] cands[i]) == build_matches(build, probe[i].key),
        forall|i: int|
            0 <= i < probe.len() ==> mask_agrees(
                build,
                probe[i],
                cands[i],
                #[trigger] masks[i],
                residual,
            ),
    ensures
        all_in_range(selections(cands, masks), build.len() as int),
        probe_output(jt, build, probe, selections(cands, masks), facts) == probe_part(
            jt,
            build,
            probe,
            residual,
            facts,
        ),
        forall|j: int|
            0 <= j < build.len() ==> reached(selections(cands, masks), probe.len() as int, j as usize)
                == has_match(probe, #[trigger] build[j], residual),
{
    let sels = selections(cands, masks);
    assert forall|i: int| 0 <= i < probe.len() implies rows_at(build, #[trigger] sels[i])
        == matching_rows(build, probe[i], residual) by {
        assert(cands[i] == build_matches(build, probe[i].key));
        assert(mask_agrees(build, probe[i], cands[i], masks[i], residual));
        lemma_selection_is_matching(build, probe[i], masks[i], residual);
    }
    lemma_probe_output_is_probe_part(jt, build, probe, sels, residual, facts);
    assert forall|i: int, c: int| 0 <= i < sels.len() && 0 <= c < sels[i].len() implies (
    #[trigger] sels[i][c]) < build.len() by {
        assert(cands[i] == build_matches(build, probe[i].key));
        lemma_build_matches_sound(build, probe[i].key);
        lemma_selected_in_range(cands[i], masks[i], build.len() as int);
    }
    assert forall|j: int| 0 <= j < build.len() implies reached(
        sels,
        probe.len() as int,
        j as usize,
    ) == has_match(probe, #[trigger] build[j], residual) by {
        assert forall|i: int| 0 <= i < probe.len() implies (#[trigger] sels[i]).contains(
            j as usize,
        ) == pair_matches(probe[i], build[j], residual) by {
            assert(cands[i] == build_matches(build, probe[i].key));
            assert(mask_agrees(build, probe[i], cands[i], masks[i], residual));
            lemma_selected_contains(cands[i], masks[i], j as usize);
            lemma_build_matches_complete(build, probe[i].key, j as usize);
            if pair_matches(probe[i], build[j], residual) {
                let c = choose|c: int| 0 <= c < cands[i].len() && cands[i][c] == j as usize;
                assert(masks[i][c] == residual(probe[i], build[cands[i][c] as int]));
            }
            if sels[i].contains(j as usize) {
                let c = choose|c: int|
                    0 <= c < cands[i].len() && #[trigger] cands[i][c] == j as usize && masks[i][c];
                assert(masks[i][c] == residual(probe[i], build[cands[i][c] as int]));
            }
        }
        if reached(sels, probe.len() as int, j as usize) {
            let i = choose|i: int| 0 <= i < probe.len() && (#[trigger] sels[i]).contains(j as usize);
            assert(pair_matches(probe[i], build[j], residual));
        }
        if has_match(probe, build[j], residual) {
            let i = choose|i: int|
                0 <= i < probe.len() && pair_matches(#[trigger] probe[i], build[j], residual);
            assert(sels[i].contains(j as usize));
        }
    }
}

/// The candidates of a key come in the order of the build rows, each once:
/// the pairs of one probe row are emitted in an order that the build side
/// alone decides.
pub proof fn law_candidates_ascend(build: Seq<RowView>, key: Option<Seq<Option<u64>>>)
    requires
        build.len() <= usize::MAX,
    ensures
        forall|c: int, d: int|
            0 <= c < d < build_matches(build, key).len() ==> build_matches(build, key)[c]
                < build_matches(build, key)[d],
    decreases build.len(),
{
    if build.len() > 0 {
        let n = build.len() - 1;
        law_candidates_ascend(build.take(n), key);
        lemma_build_matches_sound(build.take(n), key);
        let rest = build_matches(build.take(n), key);
        let all = build_matches(build, key);
        assert forall|c: int, d: int| 0 <= c < d < all.len() implies all[c] < all[d] by {
            if d < rest.len() {
                assert(all[c] == rest[c] && all[d] == rest[d]);
            } else {
                assert(all[c] == rest[c]);
                assert(rest[c] < n);
            }
        }
    }
}

} // verus!
