//! What holds of every join, whatever the rows.

use vstd::prelude::*;
use vstd::multiset::Multiset;
use vstd::seq_lib::{lemma_multiset_commutative, to_multiset_build};
use vstd::set_lib::lemma_set_disjoint_lens;
use crate::join::row::{key_of_columns, no_nulls, spec_slot_of, JoinType, JoinedRowView, RowView};
use crate::join::spec::{
    build_only, has_match, join_output, joined, keeps_build_side, matching_rows, pair_matches,
    probe_only, probe_part, row_output, unmatched_part, BuildFacts,
};

verus! {

/// The pairs of a probe row and a build row, by their places, that pair up.
pub open spec fn matching_pairs(
    build: Seq<RowView>,
    probe: Seq<RowView>,
    residual: spec_fn(RowView, RowView) -> bool,
) -> Set<(int, int)> {
    Set::new(
        |pair: (int, int)|
            0 <= pair.0 < probe.len() && 0 <= pair.1 < build.len() && pair_matches(
                probe[pair.0],
                build[pair.1],
                residual,
            ),
    )
}

/// The pairs of one probe row, at place `i`, and a build row that pair up.
pub open spec fn row_pairs(
    build: Seq<RowView>,
    p: RowView,
    i: int,
    residual: spec_fn(RowView, RowView) -> bool,
) -> Set<(int, int)> {
    Set::new(
        |pair: (int, int)|
            pair.0 == i && 0 <= pair.1 < build.len() && pair_matches(p, build[pair.1], residual),
    )
}

/// Whether some build row pairs up with a probe row.
pub open spec fn row_has_match(
    build: Seq<RowView>,
    p: RowView,
    residual: spec_fn(RowView, RowView) -> bool,
) -> bool {
    exists|j: int| 0 <= j < build.len() && pair_matches(p, #[trigger] build[j], residual)
}

/// A probe row has as many matching build rows as there are build rows, by
/// their places, that pair up with it.
pub proof fn lemma_row_pairs_len(
    build: Seq<RowView>,
    p: RowView,
    i: int,
    residual: spec_fn(RowView, RowView) -> bool,
)
    ensures
        row_pairs(build, p, i, residual).finite(),
        row_pairs(build, p, i, residual).len() == matching_rows(build, p, residual).len(),
    decreases build.len(),
{
    let all = row_pairs(build, p, i, residual);
    if build.len() == 0 {
        assert(all =~= Set::<(int, int)>::empty());
    } else {
        let n = build.len() - 1;
        let shorter = build.take(n);
        lemma_row_pairs_len(shorter, p, i, residual);
        let rest = row_pairs(shorter, p, i, residual);
        if pair_matches(p, build[n], residual) {
            assert(all =~= rest.insert((i, n))) by {
                assert forall|pair: (int, int)| all.contains(pair) == rest.insert((i, n)).contains(
                    pair,
                ) by {
                    if pair.1 < n && 0 <= pair.1 {
                        assert(shorter[pair.1] == build[pair.1]);
                    }
                }
            }
        } else {
            assert(all =~= rest) by {
                assert forall|pair: (int, int)| all.contains(pair) == rest.contains(pair) by {
                    if pair.1 < n && 0 <= pair.1 {
                        assert(shorter[pair.1] == build[pair.1]);
                    }
                }
            }
        }
    }
}

/// A probe row pairs up with some build row exactly if its list of matching
/// rows is not empty.
pub proof fn lemma_matching_rows_nonempty(
    build: Seq<RowView>,
    p: RowView,
    residual: spec_fn(RowView, RowView) -> bool,
)
    ensures
        matching_rows(build, p, residual).len() > 0 <==> row_has_match(build, p, residual),
    decreases build.len(),
{
    if build.len() > 0 {
        let n = build.len() - 1;
        let shorter = build.take(n);
        lemma_matching_rows_nonempty(shorter, p, residual);
        if row_has_match(shorter, p, residual) {
            let j = choose|j: int|
                0 <= j < shorter.len() && pair_matches(p, #[trigger] shorter[j], residual);
            assert(build[j] == shorter[j]);
        }
        if row_has_match(build, p, residual) {
            let j = choose|j: int|
                0 <= j < build.len() && pair_matches(p, #[trigger] build[j], residual);
            if j < n {
                assert(shorter[j] == build[j]);
            }
        }
    }
}

/// The output of an inner join has as many rows as there are pairs of a
/// probe row and a build row whose keys are equal and not null and that the
/// residual predicate accepts.
pub proof fn law_inner_join_cardinality(
    build: Seq<RowView>,
    probe: Seq<RowView>,
    residual: spec_fn(RowView, RowView) -> bool,
    facts: BuildFacts,
)
    ensures
        matching_pairs(build, probe, residual).finite(),
        join_output(JoinType::Inner, build, probe, residual, facts).len() == matching_pairs(
            build,
            probe,
            residual,
        ).len(),
    decreases probe.len(),
{
    let all = matching_pairs(build, probe, residual);
    assert(join_output(JoinType::Inner, build, probe, residual, facts) =~= probe_part(
        JoinType::Inner,
        build,
        probe,
        residual,
        facts,
    ));
    if probe.len() == 0 {
        assert(all =~= Set::<(int, int)>::empty());
    } else {
        let n = probe.len() - 1;
        let shorter = probe.take(n);
        law_inner_join_cardinality(build, shorter, residual, facts);
        assert(join_output(JoinType::Inner, build, shorter, residual, facts) =~= probe_part(
            JoinType::Inner,
            build,
            shorter,
            residual,
            facts,
        ));
        lemma_row_pairs_len(build, probe[n], n, residual);
        let rest = matching_pairs(build, shorter, residual);
        let last = row_pairs(build, probe[n], n, residual);
        assert(all =~= rest + last) by {
            assert forall|pair: (int, int)| all.contains(pair) == (rest + last).contains(pair) by {
                if 0 <= pair.0 < n {
                    assert(shorter[pair.0] == probe[pair.0]);
                }
            }
        }
        assert(rest.disjoint(last));
        lemma_set_disjoint_lens(rest, last);
    }
}

/// The probe rows that have a match, or those that have none.
pub open spec fn rows_with_match(
    build: Seq<RowView>,
    probe: Seq<RowView>,
    residual: spec_fn(RowView, RowView) -> bool,
    wanted: bool,
) -> Seq<RowView> {
    probe.filter(|p: RowView| row_has_match(build, p, residual) == wanted)
}

/// Each row extended with nulls on the build side.
pub open spec fn as_probe_only(rows: Seq<RowView>) -> Seq<JoinedRowView> {
    Seq::new(rows.len(), |i: int| probe_only(rows[i]))
}

/// Each row extended with nulls on the probe side.
pub open spec fn as_build_only(rows: Seq<RowView>) -> Seq<JoinedRowView> {
    Seq::new(rows.len(), |i: int| build_only(rows[i]))
}

/// The output of a semi join is the probe rows that pair up with at least
/// one build row: a part of the probe rows, in their order, each as often as
/// it is among them and never once more for a second match. The output of an
/// anti join is the other probe rows: between them the two outputs hold
/// every probe row exactly once.
pub proof fn law_semi_and_anti_split_probe(
    build: Seq<RowView>,
    probe: Seq<RowView>,
    residual: spec_fn(RowView, RowView) -> bool,
    facts: BuildFacts,
)
    ensures
        join_output(JoinType::Semi, build, probe, residual, facts) == as_probe_only(
            rows_with_match(build, probe, residual, true),
        ),
        join_output(JoinType::Anti, build, probe, residual, facts) == as_probe_only(
            rows_with_match(build, probe, residual, false),
        ),
        join_output(JoinType::Semi, build, probe, residual, facts).to_multiset().add(
            join_output(JoinType::Anti, build, probe, residual, facts).to_multiset(),
        ) == as_probe_only(probe).to_multiset(),
    decreases probe.len(),
{
    let semi = join_output(JoinType::Semi, build, probe, residual, facts);
    let anti = join_output(JoinType::Anti, build, probe, residual, facts);
    assert(semi =~= probe_part(JoinType::Semi, build, probe, residual, facts));
    assert(anti =~= probe_part(JoinType::Anti, build, probe, residual, facts));
    let with = |p: RowView| row_has_match(build, p, residual) == true;
    let without = |p: RowView| row_has_match(build, p, residual) == false;
    if probe.len() == 0 {
        reveal(Seq::filter);
        assert(probe.filter(with) =~= Seq::<RowView>::empty());
        assert(probe.filter(without) =~= Seq::<RowView>::empty());
        assert(semi =~= as_probe_only(rows_with_match(build, probe, residual, true)));
        assert(anti =~= as_probe_only(rows_with_match(build, probe, residual, false)));
        assert(semi.to_multiset().add(anti.to_multiset()) =~= as_probe_only(probe).to_multiset()) by {
            broadcast use vstd::multiset::group_multiset_axioms;

            assert(as_probe_only(probe) =~= Seq::<JoinedRowView>::empty());
            assert(semi =~= Seq::<JoinedRowView>::empty());
            assert(anti =~= Seq::<JoinedRowView>::empty());
            vstd::seq_lib::to_multiset_len(Seq::<JoinedRowView>::empty());
        }
    } else {
        let n = probe.len() - 1;
        let shorter = probe.take(n);
        let p = probe[n];
        law_semi_and_anti_split_probe(build, shorter, residual, facts);
        let semi_before = join_output(JoinType::Semi, build, shorter, residual, facts);
        let anti_before = join_output(JoinType::Anti, build, shorter, residual, facts);
        assert(semi_before =~= probe_part(JoinType::Semi, build, shorter, residual, facts));
        assert(anti_before =~= probe_part(JoinType::Anti, build, shorter, residual, facts));
        lemma_matching_rows_nonempty(build, p, residual);
        assert(probe =~= shorter.push(p));
        shorter.lemma_filter_push(p, with);
        shorter.lemma_filter_push(p, without);
        assert(as_probe_only(probe) =~= as_probe_only(shorter).push(probe_only(p)));
        to_multiset_build(as_probe_only(shorter), probe_only(p));
        if row_has_match(build, p, residual) {
            assert(semi =~= semi_before.push(probe_only(p)));
            assert(anti =~= anti_before);
            assert(semi =~= as_probe_only(rows_with_match(build, probe, residual, true)));
            to_multiset_build(semi_before, probe_only(p));
        } else {
            assert(anti =~= anti_before.push(probe_only(p)));
            assert(semi =~= semi_before);
            assert(anti =~= as_probe_only(rows_with_match(build, probe, residual, false)));
            to_multiset_build(anti_before, probe_only(p));
        }
        assert(semi.to_multiset().add(anti.to_multiset()) =~= as_probe_only(probe).to_multiset()) by {
            broadcast use vstd::multiset::group_multiset_axioms;

        }
    }
}

/// The build rows that no probe row pairs up with.
pub open spec fn rows_without_match(
    build: Seq<RowView>,
    probe: Seq<RowView>,
    residual: spec_fn(RowView, RowView) -> bool,
) -> Seq<RowView> {
    build.filter(|b: RowView| !has_match(probe, b, residual))
}

/// The unmatched part of a join is the build rows without a match, each
/// extended with nulls.
pub proof fn law_unmatched_rows_are_the_lonely_ones(
    build: Seq<RowView>,
    probe: Seq<RowView>,
    residual: spec_fn(RowView, RowView) -> bool,
)
    ensures
        unmatched_part(build, probe, residual) == as_build_only(
            rows_without_match(build, probe, residual),
        ),
    decreases build.len(),
{
    let lonely = |b: RowView| !has_match(probe, b, residual);
    if build.len() == 0 {
        reveal(Seq::filter);
        assert(build.filter(lonely) =~= Seq::<RowView>::empty());
        assert(unmatched_part(build, probe, residual) =~= as_build_only(
            rows_without_match(build, probe, residual),
        ));
    } else {
        let n = build.len() - 1;
        let shorter = build.take(n);
        law_unmatched_rows_are_the_lonely_ones(shorter, probe, residual);
        assert(build =~= shorter.push(build[n]));
        shorter.lemma_filter_push(build[n], lonely);
        assert(unmatched_part(build, probe, residual) =~= as_build_only(
            rows_without_match(build, probe, residual),
        ));
    }
}

/// No row that the probe rows give rise to lacks its probe side.
pub proof fn lemma_probe_part_has_probe(
    jt: JoinType,
    build: Seq<RowView>,
    probe: Seq<RowView>,
    residual: spec_fn(RowView, RowView) -> bool,
    facts: BuildFacts,
)
    ensures
        forall|k: int|
            0 <= k < probe_part(jt, build, probe, residual, facts).len() ==> (#[trigger] probe_part(
                jt,
                build,
                probe,
                residual,
                facts,
            )[k]).probe is Some,
    decreases probe.len(),
{
    if probe.len() > 0 {
        let n = probe.len() - 1;
        lemma_probe_part_has_probe(jt, build, probe.take(n), residual, facts);
        let before = probe_part(jt, build, probe.take(n), residual, facts);
        let all = probe_part(jt, build, probe, residual, facts);
        assert forall|k: int| 0 <= k < all.len() implies (#[trigger] all[k]).probe is Some by {
            if k < before.len() {
                assert(all[k] == before[k]);
            }
        }
    }
}

/// A build row that pairs up with a probe row is in the output of every join
/// that emits pairs, joined to that probe row.
pub proof fn lemma_matched_pair_is_emitted(
    jt: JoinType,
    build: Seq<RowView>,
    probe: Seq<RowView>,
    residual: spec_fn(RowView, RowView) -> bool,
    facts: BuildFacts,
    i: int,
    j: int,
)
    requires
        jt is Inner || jt is Left || jt is Right || jt is Full,
        0 <= i < probe.len(),
        0 <= j < build.len(),
        pair_matches(probe[i], build[j], residual),
    ensures
        probe_part(jt, build, probe, residual, facts).contains(joined(probe[i], build[j])),
    decreases probe.len(),
{
    let n = probe.len() - 1;
    let before = probe_part(jt, build, probe.take(n), residual, facts);
    let matched = matching_rows(build, probe[n], residual);
    let last = row_output(jt, probe[n], matched, facts);
    let all = probe_part(jt, build, probe, residual, facts);
    if i < n {
        assert(probe.take(n)[i] == probe[i]);
        lemma_matched_pair_is_emitted(jt, build, probe.take(n), residual, facts, i, j);
        let k = choose|k: int| 0 <= k < before.len() && before[k] == joined(probe[i], build[j]);
        assert(all[k] == joined(probe[i], build[j]));
    } else {
        lemma_matching_rows_contains(build, probe[n], residual, j);
        let c = choose|c: int| 0 <= c < matched.len() && matched[c] == build[j];
        assert(last[c] == joined(probe[n], build[j]));
        assert(all[before.len() + c] == joined(probe[i], build[j]));
    }
}

/// A build row that pairs up with a probe row is among its matching rows.
pub proof fn lemma_matching_rows_contains(
    build: Seq<RowView>,
    p: RowView,
    residual: spec_fn(RowView, RowView) -> bool,
    j: int,
)
    requires
        0 <= j < build.len(),
        pair_matches(p, build[j], residual),
    ensures
        matching_rows(build, p, residual).contains(build[j]),
    decreases build.len(),
{
    let n = build.len() - 1;
    let rest = matching_rows(build.take(n), p, residual);
    let all = matching_rows(build, p, residual);
    if j < n {
        assert(build.take(n)[j] == build[j]);
        lemma_matching_rows_contains(build.take(n), p, residual, j);
        let c = choose|c: int| 0 <= c < rest.len() && rest[c] == build[j];
        assert(all[c] == build[j]);
    } else {
        assert(all[all.len() - 1] == build[j]);
    }
}

/// Under the joins that keep the build side, every build row is accounted
/// for exactly once: a build row that some probe row pairs up with is in the
/// output joined to that probe row, and never extended with nulls; a build
/// row that no probe row pairs up with is in the output extended with
/// nulls, as often as it is among the build rows and no more.
pub proof fn law_build_rows_kept(
    jt: JoinType,
    build: Seq<RowView>,
    probe: Seq<RowView>,
    residual: spec_fn(RowView, RowView) -> bool,
    facts: BuildFacts,
    b: RowView,
)
    requires
        keeps_build_side(jt),
    ensures
        join_output(jt, build, probe, residual, facts).to_multiset().count(build_only(b)) == (
        if has_match(probe, b, residual) {
            0
        } else {
            build.to_multiset().count(b)
        }),
        build.contains(b) && has_match(probe, b, residual) ==> exists|i: int|
            0 <= i < probe.len() && pair_matches(#[trigger] probe[i], b, residual) && join_output(
                jt,
                build,
                probe,
                residual,
                facts,
            ).contains(joined(probe[i], b)),
{
    broadcast use vstd::multiset::group_multiset_axioms;

    let front = probe_part(jt, build, probe, residual, facts);
    let back = unmatched_part(build, probe, residual);
    let all = join_output(jt, build, probe, residual, facts);
    assert(all == front + back);
    lemma_multiset_commutative(front, back);
    lemma_probe_part_has_probe(jt, build, probe, residual, facts);
    assert(front.to_multiset().count(build_only(b)) == 0) by {
        if front.to_multiset().count(build_only(b)) > 0 {
            vstd::seq_lib::to_multiset_contains(front, build_only(b));
            assert(front.contains(build_only(b)));
            let k = choose|k: int| 0 <= k < front.len() && front[k] == build_only(b);
            assert(front[k].probe is Some);
        }
    }
    lemma_unmatched_count(build, probe, residual, b);
    if build.contains(b) && has_match(probe, b, residual) {
        let j = choose|j: int| 0 <= j < build.len() && build[j] == b;
        let i = choose|i: int|
            0 <= i < probe.len() && pair_matches(#[trigger] probe[i], b, residual);
        lemma_matched_pair_is_emitted(jt, build, probe, residual, facts, i, j);
        let k = choose|k: int| 0 <= k < front.len() && front[k] == joined(probe[i], b);
        assert(all[k] == joined(probe[i], b));
    }
}

/// How often a build row is in the unmatched part, extended with nulls.
pub proof fn lemma_unmatched_count(
    build: Seq<RowView>,
    probe: Seq<RowView>,
    residual: spec_fn(RowView, RowView) -> bool,
    b: RowView,
)
    ensures
        unmatched_part(build, probe, residual).to_multiset().count(build_only(b)) == (if has_match(
            probe,
            b,
            residual,
        ) {
            0
        } else {
            build.to_multiset().count(b)
        }),
    decreases build.len(),
{
    broadcast use vstd::multiset::group_multiset_axioms;

    if build.len() == 0 {
        assert(build.to_multiset() =~= Multiset::<RowView>::empty()) by {
            assert(build =~= Seq::<RowView>::empty());
            vstd::seq_lib::to_multiset_len(build);
        }
        vstd::seq_lib::to_multiset_len(unmatched_part(build, probe, residual));
        assert(unmatched_part(build, probe, residual).to_multiset().len() == 0);
    } else {
        let n = build.len() - 1;
        let shorter = build.take(n);
        lemma_unmatched_count(shorter, probe, residual, b);
        assert(build =~= shorter.push(build[n]));
        to_multiset_build(shorter, build[n]);
        let rest = unmatched_part(shorter, probe, residual);
        if !has_match(probe, build[n], residual) {
            to_multiset_build(rest, build_only(build[n]));
        }
    }
}

/// No row of the unmatched part has a probe side.
pub proof fn lemma_unmatched_part_has_no_probe(
    build: Seq<RowView>,
    probe: Seq<RowView>,
    residual: spec_fn(RowView, RowView) -> bool,
)
    ensures
        forall|k: int|
            0 <= k < unmatched_part(build, probe, residual).len() ==> (#[trigger] unmatched_part(
                build,
                probe,
                residual,
            )[k]).probe is None,
    decreases build.len(),
{
    if build.len() > 0 {
        let n = build.len() - 1;
        lemma_unmatched_part_has_no_probe(build.take(n), probe, residual);
        let before = unmatched_part(build.take(n), probe, residual);
        let all = unmatched_part(build, probe, residual);
        assert forall|k: int| 0 <= k < all.len() implies (#[trigger] all[k]).probe is None by {
            if k < before.len() {
                assert(all[k] == before[k]);
            }
        }
    }
}

/// How often a probe row is in the probe part of a join that keeps the
/// probe side, extended with nulls.
pub proof fn lemma_probe_only_count(
    jt: JoinType,
    build: Seq<RowView>,
    probe: Seq<RowView>,
    residual: spec_fn(RowView, RowView) -> bool,
    facts: BuildFacts,
    p: RowView,
)
    requires
        jt is Left || jt is Full,
    ensures
        probe_part(jt, build, probe, residual, facts).to_multiset().count(probe_only(p)) == (
        if row_has_match(build, p, residual) {
            0
        } else {
            probe.to_multiset().count(p)
        }),
    decreases probe.len(),
{
    broadcast use vstd::multiset::group_multiset_axioms;

    if probe.len() == 0 {
        vstd::seq_lib::to_multiset_len(probe);
        vstd::seq_lib::to_multiset_len(probe_part(jt, build, probe, residual, facts));
    } else {
        let n = probe.len() - 1;
        let shorter = probe.take(n);
        let last = probe[n];
        lemma_probe_only_count(jt, build, shorter, residual, facts, p);
        assert(probe =~= shorter.push(last));
        to_multiset_build(shorter, last);
        lemma_matching_rows_nonempty(build, last, residual);
        let before = probe_part(jt, build, shorter, residual, facts);
        let matched = matching_rows(build, last, residual);
        let own = row_output(jt, last, matched, facts);
        lemma_multiset_commutative(before, own);
        if matched.len() == 0 {
            assert(own =~= Seq::<JoinedRowView>::empty().push(probe_only(last)));
            to_multiset_build(Seq::<JoinedRowView>::empty(), probe_only(last));
            vstd::seq_lib::to_multiset_len(Seq::<JoinedRowView>::empty());
        } else {
            assert(own.to_multiset().count(probe_only(p)) == 0) by {
                if own.to_multiset().count(probe_only(p)) > 0 {
                    vstd::seq_lib::to_multiset_contains(own, probe_only(p));
                    let k = choose|k: int| 0 <= k < own.len() && own[k] == probe_only(p);
                    assert(own[k].build is Some);
                }
            }
        }
    }
}

/// Under the joins that keep the probe side, every probe row is accounted
/// for: a probe row that pairs up with a build row is in the output joined
/// to that build row, and never extended with nulls; a probe row that pairs
/// up with none is in the output extended with nulls, as often as it is
/// among the probe rows and no more.
pub proof fn law_probe_rows_kept(
    jt: JoinType,
    build: Seq<RowView>,
    probe: Seq<RowView>,
    residual: spec_fn(RowView, RowView) -> bool,
    facts: BuildFacts,
    p: RowView,
)
    requires
        jt is Left || jt is Full,
    ensures
        join_output(jt, build, probe, residual, facts).to_multiset().count(probe_only(p)) == (
        if row_has_match(build, p, residual) {
            0
        } else {
            probe.to_multiset().count(p)
        }),
        probe.contains(p) && row_has_match(build, p, residual) ==> exists|j: int|
            0 <= j < build.len() && pair_matches(p, #[trigger] build[j], residual) && join_output(
                jt,
                build,
                probe,
                residual,
                facts,
            ).contains(joined(p, build[j])),
{
    broadcast use vstd::multiset::group_multiset_axioms;

    let front = probe_part(jt, build, probe, residual, facts);
    let back = if keeps_build_side(jt) {
        unmatched_part(build, probe, residual)
    } else {
        Seq::empty()
    };
    let all = join_output(jt, build, probe, residual, facts);
    assert(all == front + back);
    lemma_multiset_commutative(front, back);
    lemma_probe_only_count(jt, build, probe, residual, facts, p);
    lemma_unmatched_part_has_no_probe(build, probe, residual);
    assert(back.to_multiset().count(probe_only(p)) == 0) by {
        if back.to_multiset().count(probe_only(p)) > 0 {
            vstd::seq_lib::to_multiset_contains(back, probe_only(p));
            let k = choose|k: int| 0 <= k < back.len() && back[k] == probe_only(p);
            assert(back[k].probe is None);
        }
    }
    if probe.contains(p) && row_has_match(build, p, residual) {
        let i = choose|i: int| 0 <= i < probe.len() && probe[i] == p;
        let j = choose|j: int|
            0 <= j < build.len() && pair_matches(p, #[trigger] build[j], residual);
        lemma_matched_pair_is_emitted(jt, build, probe, residual, facts, i, j);
        let k = choose|k: int| 0 <= k < front.len() && front[k] == joined(p, build[j]);
        assert(all[k] == joined(p, build[j]));
    }
}

/// Probing batch after batch gives what probing all the rows at once
/// gives: the outputs of the batches, one after the other, are the output of
/// the whole, and a build row is matched by the whole exactly if one of the
/// batches matches it.
pub proof fn law_probe_by_batches(
    jt: JoinType,
    build: Seq<RowView>,
    first: Seq<RowView>,
    second: Seq<RowView>,
    residual: spec_fn(RowView, RowView) -> bool,
    facts: BuildFacts,
    b: RowView,
)
    ensures
        probe_part(jt, build, first + second, residual, facts) == probe_part(
            jt,
            build,
            first,
            residual,
            facts,
        ) + probe_part(jt, build, second, residual, facts),
        has_match(first + second, b, residual) == (has_match(first, b, residual) || has_match(
            second,
            b,
            residual,
        )),
    decreases second.len(),
{
    let whole = first + second;
    if second.len() == 0 {
        assert(whole =~= first);
        assert(probe_part(jt, build, first, residual, facts) + Seq::<JoinedRowView>::empty()
            =~= probe_part(jt, build, first, residual, facts));
    } else {
        let n = second.len() - 1;
        law_probe_by_batches(jt, build, first, second.take(n), residual, facts, b);
        assert(whole.take(whole.len() - 1) =~= first + second.take(n));
        assert(whole[whole.len() - 1] == second[n]);
        let a = probe_part(jt, build, first, residual, facts);
        let c = probe_part(jt, build, second.take(n), residual, facts);
        let d = row_output(jt, second[n], matching_rows(build, second[n], residual), facts);
        assert((a + c) + d =~= a + (c + d));
    }
    if has_match(first, b, residual) {
        let i = choose|i: int|
            0 <= i < first.len() && pair_matches(#[trigger] first[i], b, residual);
        assert(whole[i] == first[i]);
    }
    if has_match(second, b, residual) {
        let i = choose|i: int|
            0 <= i < second.len() && pair_matches(#[trigger] second[i], b, residual);
        assert(whole[first.len() + i] == second[i]);
    }
    if has_match(whole, b, residual) {
        let i = choose|i: int|
            0 <= i < whole.len() && pair_matches(#[trigger] whole[i], b, residual);
        if i < first.len() {
            assert(first[i] == whole[i]);
        } else {
            assert(second[i - first.len()] == whole[i]);
        }
    }
}

/// Nulls in keys. Under ordinary equality a row with a null among the
/// values of its key columns pairs up with no row. Under null-safe equality
/// two rows with the same values in their key columns, nulls among them or
/// not, pair up wherever the residual predicate accepts them. And two rows
/// that pair up fall into the same slot, whatever the number of slots.
pub proof fn law_nulls_in_keys(
    p_values: Seq<Option<u64>>,
    b_values: Seq<Option<u64>>,
    p: RowView,
    b: RowView,
    residual: spec_fn(RowView, RowView) -> bool,
    slots: usize,
)
    ensures
        p.key == key_of_columns(p_values, false) && !no_nulls(p_values) ==> !pair_matches(
            p,
            b,
            residual,
        ) && !pair_matches(b, p, residual),
        p.key == key_of_columns(p_values, true) && b.key == key_of_columns(b_values, true)
            ==> pair_matches(p, b, residual) == (p_values == b_values && residual(p, b)),
        pair_matches(p, b, residual) ==> spec_slot_of(p.key, slots) == spec_slot_of(b.key, slots),
{
}

} // verus!
