//! Spilling does not change what a join returns.

use vstd::prelude::*;
use vstd::multiset::Multiset;
use vstd::seq_lib::{lemma_multiset_commutative, to_multiset_build, to_multiset_len};
use crate::join::row::{spec_slot_of, JoinType, JoinedRowView, RowView};
use crate::join::spec::{
    build_only, has_match, join_output, keeps_build_side, matching_rows, pair_matches, probe_part,
    row_output, unmatched_part, BuildFacts,
};
use crate::join::spill::{partition_rows, spilled_output};

verus! {

/// A key's slot is one of the slots.
pub proof fn lemma_slot_in_range(key: Option<Seq<Option<u64>>>, partitions: usize)
    requires
        partitions > 0,
    ensures
        spec_slot_of(key, partitions) < partitions,
{
}

/// A sequence without elements has the empty multiset.
pub proof fn lemma_empty_to_multiset<A>(s: Seq<A>)
    requires
        s.len() == 0,
    ensures
        s.to_multiset() == Multiset::<A>::empty(),
{
    broadcast use vstd::multiset::group_multiset_axioms;

    to_multiset_len(s);
    assert(s.to_multiset() =~= Multiset::<A>::empty());
}

/// A row appended to a batch is appended to its own partition and to no
/// other.
pub proof fn lemma_partition_push(rows: Seq<RowView>, row: RowView, partitions: usize, index: usize)
    ensures
        partition_rows(rows.push(row), partitions, index) == (if spec_slot_of(row.key, partitions)
            == index {
            partition_rows(rows, partitions, index).push(row)
        } else {
            partition_rows(rows, partitions, index)
        }),
{
    assert(rows.push(row).take(rows.len() as int) =~= rows);
}

/// A row is in a partition exactly if it is in the batch and the partition
/// is its own.
pub proof fn lemma_partition_contains(rows: Seq<RowView>, partitions: usize, index: usize, row: RowView)
    ensures
        partition_rows(rows, partitions, index).contains(row) <==> (rows.contains(row)
            && spec_slot_of(row.key, partitions) == index),
    decreases rows.len(),
{
    if rows.len() > 0 {
        let n = rows.len() - 1;
        let shorter = rows.take(n);
        lemma_partition_contains(shorter, partitions, index, row);
        let rest = partition_rows(shorter, partitions, index);
        let all = partition_rows(rows, partitions, index);
        if rest.contains(row) {
            let c = choose|c: int| 0 <= c < rest.len() && rest[c] == row;
            assert(all[c] == row);
        }
        if shorter.contains(row) {
            let c = choose|c: int| 0 <= c < shorter.len() && shorter[c] == row;
            assert(rows[c] == row);
        }
        if rows[n] == row && spec_slot_of(row.key, partitions) == index {
            assert(all[all.len() - 1] == row);
        }
        if all.contains(row) {
            let c = choose|c: int| 0 <= c < all.len() && all[c] == row;
            if c < rest.len() {
                assert(rest[c] == row);
            } else {
                assert(rows[n] == row);
            }
        }
        if rows.contains(row) {
            let c = choose|c: int| 0 <= c < rows.len() && rows[c] == row;
            if c < n {
                assert(shorter[c] == row);
            }
        }
    }
}

/// What a build row appended to the build side adds to a probe row's
/// matching rows.
pub proof fn lemma_matching_rows_push(
    build: Seq<RowView>,
    b: RowView,
    p: RowView,
    residual: spec_fn(RowView, RowView) -> bool,
)
    ensures
        matching_rows(build.push(b), p, residual) == (if pair_matches(p, b, residual) {
            matching_rows(build, p, residual).push(b)
        } else {
            matching_rows(build, p, residual)
        }),
{
    assert(build.push(b).take(build.len() as int) =~= build);
}

/// The build rows that pair up with a probe row all lie in the partition of
/// the probe row: looking there finds the same rows in the same order.
pub proof fn lemma_matches_lie_in_partition(
    build: Seq<RowView>,
    p: RowView,
    residual: spec_fn(RowView, RowView) -> bool,
    partitions: usize,
)
    ensures
        matching_rows(
            partition_rows(build, partitions, spec_slot_of(p.key, partitions)),
            p,
            residual,
        ) == matching_rows(build, p, residual),
    decreases build.len(),
{
    let q = spec_slot_of(p.key, partitions);
    if build.len() > 0 {
        let n = build.len() - 1;
        let shorter = build.take(n);
        lemma_matches_lie_in_partition(shorter, p, residual, partitions);
        if spec_slot_of(build[n].key, partitions) == q {
            lemma_matching_rows_push(partition_rows(shorter, partitions, q), build[n], p, residual);
        }
    }
}

/// What a probe row appended to the probe side adds to the output.
pub proof fn lemma_probe_part_push(
    jt: JoinType,
    build: Seq<RowView>,
    probe: Seq<RowView>,
    p: RowView,
    residual: spec_fn(RowView, RowView) -> bool,
    facts: BuildFacts,
)
    ensures
        probe_part(jt, build, probe.push(p), residual, facts) == probe_part(
            jt,
            build,
            probe,
            residual,
            facts,
        ) + row_output(jt, p, matching_rows(build, p, residual), facts),
{
    assert(probe.push(p).take(probe.len() as int) =~= probe);
}

/// What the probe rows give rise to over the first `upto` partitions, as a
/// multiset.
pub open spec fn spilled_probe(
    jt: JoinType,
    build: Seq<RowView>,
    probe: Seq<RowView>,
    residual: spec_fn(RowView, RowView) -> bool,
    facts: BuildFacts,
    partitions: usize,
    upto: nat,
) -> Multiset<JoinedRowView>
    decreases upto,
{
    if upto == 0 {
        Multiset::empty()
    } else {
        let q = (upto - 1) as usize;
        spilled_probe(jt, build, probe, residual, facts, partitions, (upto - 1) as nat).add(
            probe_part(
                jt,
                partition_rows(build, partitions, q),
                partition_rows(probe, partitions, q),
                residual,
                facts,
            ).to_multiset(),
        )
    }
}

/// The build rows left unmatched over the first `upto` partitions, as a
/// multiset.
pub open spec fn spilled_unmatched(
    build: Seq<RowView>,
    probe: Seq<RowView>,
    residual: spec_fn(RowView, RowView) -> bool,
    partitions: usize,
    upto: nat,
) -> Multiset<JoinedRowView>
    decreases upto,
{
    if upto == 0 {
        Multiset::empty()
    } else {
        let q = (upto - 1) as usize;
        spilled_unmatched(build, probe, residual, partitions, (upto - 1) as nat).add(
            unmatched_part(
                partition_rows(build, partitions, q),
                partition_rows(probe, partitions, q),
                residual,
            ).to_multiset(),
        )
    }
}

/// A probe row appended to the probe side adds to the partitions what it
/// adds to the whole: its own output, in its own partition.
proof fn lemma_spilled_probe_push(
    jt: JoinType,
    build: Seq<RowView>,
    probe: Seq<RowView>,
    p: RowView,
    residual: spec_fn(RowView, RowView) -> bool,
    facts: BuildFacts,
    partitions: usize,
    upto: nat,
)
    requires
        upto <= partitions,
    ensures
        spilled_probe(jt, build, probe.push(p), residual, facts, partitions, upto) == spilled_probe(
            jt,
            build,
            probe,
            residual,
            facts,
            partitions,
            upto,
        ).add(
            if spec_slot_of(p.key, partitions) < upto {
                row_output(jt, p, matching_rows(build, p, residual), facts).to_multiset()
            } else {
                Multiset::empty()
            },
        ),
    decreases upto,
{
    broadcast use vstd::multiset::group_multiset_axioms;

    let s = spec_slot_of(p.key, partitions);
    let own = row_output(jt, p, matching_rows(build, p, residual), facts).to_multiset();
    if upto == 0 {
        assert(Multiset::<JoinedRowView>::empty().add(Multiset::empty()) =~= Multiset::<
            JoinedRowView,
        >::empty());
    } else {
        let q = (upto - 1) as usize;
        lemma_spilled_probe_push(
            jt,
            build,
            probe,
            p,
            residual,
            facts,
            partitions,
            (upto - 1) as nat,
        );
        lemma_partition_push(probe, p, partitions, q);
        let bq = partition_rows(build, partitions, q);
        let pq = partition_rows(probe, partitions, q);
        let before = spilled_probe(jt, build, probe, residual, facts, partitions, (upto - 1) as nat);
        let before_pushed = spilled_probe(
            jt,
            build,
            probe.push(p),
            residual,
            facts,
            partitions,
            (upto - 1) as nat,
        );
        let part = probe_part(jt, bq, pq, residual, facts);
        if s == q {
            lemma_probe_part_push(jt, bq, pq, p, residual, facts);
            lemma_matches_lie_in_partition(build, p, residual, partitions);
            let last = row_output(jt, p, matching_rows(build, p, residual), facts);
            lemma_multiset_commutative(part, last);
            assert(before_pushed == before.add(Multiset::empty()));
            assert(before.add(Multiset::empty()).add(part.to_multiset().add(own)) =~= before.add(
                part.to_multiset(),
            ).add(own));
        } else {
            if s < q {
                assert(before_pushed == before.add(own));
                assert(before.add(own).add(part.to_multiset()) =~= before.add(
                    part.to_multiset(),
                ).add(own));
            } else {
                assert(before_pushed == before.add(Multiset::empty()));
                assert(before.add(Multiset::empty()).add(part.to_multiset()) =~= before.add(
                    part.to_multiset(),
                ).add(Multiset::empty()));
            }
        }
    }
}

/// With no probe rows the partitions give rise to nothing.
proof fn lemma_spilled_probe_empty(
    jt: JoinType,
    build: Seq<RowView>,
    residual: spec_fn(RowView, RowView) -> bool,
    facts: BuildFacts,
    partitions: usize,
    upto: nat,
)
    ensures
        spilled_probe(jt, build, Seq::empty(), residual, facts, partitions, upto)
            == Multiset::<JoinedRowView>::empty(),
    decreases upto,
{
    broadcast use vstd::multiset::group_multiset_axioms;

    if upto > 0 {
        let q = (upto - 1) as usize;
        lemma_spilled_probe_empty(jt, build, residual, facts, partitions, (upto - 1) as nat);
        let part = probe_part(
            jt,
            partition_rows(build, partitions, q),
            partition_rows(Seq::empty(), partitions, q),
            residual,
            facts,
        );
        lemma_empty_to_multiset(part);
        assert(Multiset::<JoinedRowView>::empty().add(Multiset::empty()) =~= Multiset::<
            JoinedRowView,
        >::empty());
    }
}

/// What the probe rows give rise to is the same, as a multiset, whether the
/// join runs whole or partition by partition.
pub proof fn lemma_probe_part_transparent(
    jt: JoinType,
    build: Seq<RowView>,
    probe: Seq<RowView>,
    residual: spec_fn(RowView, RowView) -> bool,
    facts: BuildFacts,
    partitions: usize,
)
    requires
        partitions > 0,
    ensures
        spilled_probe(jt, build, probe, residual, facts, partitions, partitions as nat)
            == probe_part(jt, build, probe, residual, facts).to_multiset(),
    decreases probe.len(),
{
    broadcast use vstd::multiset::group_multiset_axioms;

    if probe.len() == 0 {
        assert(probe =~= Seq::<RowView>::empty());
        lemma_spilled_probe_empty(jt, build, residual, facts, partitions, partitions as nat);
        lemma_empty_to_multiset(probe_part(jt, build, probe, residual, facts));
    } else {
        let n = probe.len() - 1;
        let shorter = probe.take(n);
        let p = probe[n];
        assert(probe =~= shorter.push(p));
        lemma_probe_part_transparent(jt, build, shorter, residual, facts, partitions);
        lemma_spilled_probe_push(
            jt,
            build,
            shorter,
            p,
            residual,
            facts,
            partitions,
            partitions as nat,
        );
        lemma_slot_in_range(p.key, partitions);
        lemma_probe_part_push(jt, build, shorter, p, residual, facts);
        lemma_multiset_commutative(
            probe_part(jt, build, shorter, residual, facts),
            row_output(jt, p, matching_rows(build, p, residual), facts),
        );
    }
}

/// A build row has a match among the probe rows exactly if it has one among
/// the probe rows of its own partition.
pub proof fn lemma_match_lies_in_partition(
    probe: Seq<RowView>,
    b: RowView,
    residual: spec_fn(RowView, RowView) -> bool,
    partitions: usize,
)
    ensures
        has_match(partition_rows(probe, partitions, spec_slot_of(b.key, partitions)), b, residual)
            == has_match(probe, b, residual),
{
    let q = spec_slot_of(b.key, partitions);
    let pq = partition_rows(probe, partitions, q);
    if has_match(probe, b, residual) {
        let i = choose|i: int|
            0 <= i < probe.len() && pair_matches(#[trigger] probe[i], b, residual);
        assert(probe.contains(probe[i]));
        lemma_partition_contains(probe, partitions, q, probe[i]);
        let c = choose|c: int| 0 <= c < pq.len() && pq[c] == probe[i];
        assert(pair_matches(pq[c], b, residual));
    }
    if has_match(pq, b, residual) {
        let c = choose|c: int| 0 <= c < pq.len() && pair_matches(#[trigger] pq[c], b, residual);
        assert(pq.contains(pq[c]));
        lemma_partition_contains(probe, partitions, q, pq[c]);
        let i = choose|i: int| 0 <= i < probe.len() && probe[i] == pq[c];
        assert(pair_matches(probe[i], b, residual));
    }
}

/// What a build row appended to the build side adds to the unmatched part.
pub proof fn lemma_unmatched_part_push(
    build: Seq<RowView>,
    b: RowView,
    probe: Seq<RowView>,
    residual: spec_fn(RowView, RowView) -> bool,
)
    ensures
        unmatched_part(build.push(b), probe, residual) == (if has_match(probe, b, residual) {
            unmatched_part(build, probe, residual)
        } else {
            unmatched_part(build, probe, residual).push(build_only(b))
        }),
{
    assert(build.push(b).take(build.len() as int) =~= build);
}

/// The one null-extended row of a build row without a match, or nothing.
pub open spec fn lonely_row(
    probe: Seq<RowView>,
    b: RowView,
    residual: spec_fn(RowView, RowView) -> bool,
) -> Multiset<JoinedRowView> {
    if has_match(probe, b, residual) {
        Multiset::empty()
    } else {
        Multiset::singleton(build_only(b))
    }
}

/// A build row appended to the build side adds to the partitions what it
/// adds to the whole: itself extended with nulls, if it has no match.
proof fn lemma_spilled_unmatched_push(
    build: Seq<RowView>,
    b: RowView,
    probe: Seq<RowView>,
    residual: spec_fn(RowView, RowView) -> bool,
    partitions: usize,
    upto: nat,
)
    requires
        upto <= partitions,
    ensures
        spilled_unmatched(build.push(b), probe, residual, partitions, upto) == spilled_unmatched(
            build,
            probe,
            residual,
            partitions,
            upto,
        ).add(
            if spec_slot_of(b.key, partitions) < upto {
                lonely_row(probe, b, residual)
            } else {
                Multiset::empty()
            },
        ),
    decreases upto,
{
    broadcast use vstd::multiset::group_multiset_axioms;

    let s = spec_slot_of(b.key, partitions);
    let own = lonely_row(probe, b, residual);
    if upto == 0 {
        assert(Multiset::<JoinedRowView>::empty().add(Multiset::empty()) =~= Multiset::<
            JoinedRowView,
        >::empty());
    } else {
        let q = (upto - 1) as usize;
        lemma_spilled_unmatched_push(build, b, probe, residual, partitions, (upto - 1) as nat);
        lemma_partition_push(build, b, partitions, q);
        let bq = partition_rows(build, partitions, q);
        let pq = partition_rows(probe, partitions, q);
        let before = spilled_unmatched(build, probe, residual, partitions, (upto - 1) as nat);
        let before_pushed = spilled_unmatched(
            build.push(b),
            probe,
            residual,
            partitions,
            (upto - 1) as nat,
        );
        let part = unmatched_part(bq, pq, residual);
        if s == q {
            lemma_unmatched_part_push(bq, b, pq, residual);
            lemma_match_lies_in_partition(probe, b, residual, partitions);
            if !has_match(probe, b, residual) {
                to_multiset_build(part, build_only(b));
                assert(part.to_multiset().insert(build_only(b)) =~= part.to_multiset().add(own));
            }
            assert(before_pushed == before.add(Multiset::empty()));
            assert(before.add(Multiset::empty()).add(part.to_multiset().add(own)) =~= before.add(
                part.to_multiset(),
            ).add(own));
        } else {
            if s < q {
                assert(before_pushed == before.add(own));
                assert(before.add(own).add(part.to_multiset()) =~= before.add(
                    part.to_multiset(),
                ).add(own));
            } else {
                assert(before_pushed == before.add(Multiset::empty()));
                assert(before.add(Multiset::empty()).add(part.to_multiset()) =~= before.add(
                    part.to_multiset(),
                ).add(Multiset::empty()));
            }
        }
    }
}

/// With no build rows the partitions leave nothing unmatched.
proof fn lemma_spilled_unmatched_empty(
    probe: Seq<RowView>,
    residual: spec_fn(RowView, RowView) -> bool,
    partitions: usize,
    upto: nat,
)
    ensures
        spilled_unmatched(Seq::empty(), probe, residual, partitions, upto) == Multiset::<
            JoinedRowView,
        >::empty(),
    decreases upto,
{
    broadcast use vstd::multiset::group_multiset_axioms;

    if upto > 0 {
        let q = (upto - 1) as usize;
        lemma_spilled_unmatched_empty(probe, residual, partitions, (upto - 1) as nat);
        let part = unmatched_part(
            partition_rows(Seq::empty(), partitions, q),
            partition_rows(probe, partitions, q),
            residual,
        );
        lemma_empty_to_multiset(part);
        assert(Multiset::<JoinedRowView>::empty().add(Multiset::empty()) =~= Multiset::<
            JoinedRowView,
        >::empty());
    }
}

/// The build rows left unmatched are the same, as a multiset, whether the
/// join runs whole or partition by partition.
pub proof fn lemma_unmatched_part_transparent(
    build: Seq<RowView>,
    probe: Seq<RowView>,
    residual: spec_fn(RowView, RowView) -> bool,
    partitions: usize,
)
    requires
        partitions > 0,
    ensures
        spilled_unmatched(build, probe, residual, partitions, partitions as nat) == unmatched_part(
            build,
            probe,
            residual,
        ).to_multiset(),
    decreases build.len(),
{
    broadcast use vstd::multiset::group_multiset_axioms;

    if build.len() == 0 {
        assert(build =~= Seq::<RowView>::empty());
        lemma_spilled_unmatched_empty(probe, residual, partitions, partitions as nat);
        lemma_empty_to_multiset(unmatched_part(build, probe, residual));
    } else {
        let n = build.len() - 1;
        let shorter = build.take(n);
        let b = build[n];
        assert(build =~= shorter.push(b));
        lemma_unmatched_part_transparent(shorter, probe, residual, partitions);
        lemma_spilled_unmatched_push(shorter, b, probe, residual, partitions, partitions as nat);
        lemma_slot_in_range(b.key, partitions);
        lemma_unmatched_part_push(shorter, b, probe, residual);
        if !has_match(probe, b, residual) {
            let rest = unmatched_part(shorter, probe, residual);
            to_multiset_build(rest, build_only(b));
            assert(rest.to_multiset().insert(build_only(b)) =~= rest.to_multiset().add(
                lonely_row(probe, b, residual),
            ));
        } else {
            assert(unmatched_part(shorter, probe, residual).to_multiset().add(Multiset::empty())
                =~= unmatched_part(shorter, probe, residual).to_multiset());
        }
    }
}

/// The output of the first partitions is, as a multiset, what their probe
/// rows give rise to together with what their build rows leave unmatched.
proof fn lemma_spilled_output_splits(
    jt: JoinType,
    build: Seq<RowView>,
    probe: Seq<RowView>,
    residual: spec_fn(RowView, RowView) -> bool,
    facts: BuildFacts,
    partitions: usize,
    upto: nat,
)
    ensures
        spilled_output(jt, build, probe, residual, facts, partitions, upto).to_multiset()
            == spilled_probe(jt, build, probe, residual, facts, partitions, upto).add(
            if keeps_build_side(jt) {
                spilled_unmatched(build, probe, residual, partitions, upto)
            } else {
                Multiset::empty()
            },
        ),
    decreases upto,
{
    broadcast use vstd::multiset::group_multiset_axioms;

    if upto == 0 {
        lemma_empty_to_multiset(
            spilled_output(jt, build, probe, residual, facts, partitions, upto),
        );
        assert(Multiset::<JoinedRowView>::empty().add(Multiset::empty()) =~= Multiset::<
            JoinedRowView,
        >::empty());
    } else {
        let q = (upto - 1) as usize;
        lemma_spilled_output_splits(jt, build, probe, residual, facts, partitions, (upto - 1) as nat);
        let bq = partition_rows(build, partitions, q);
        let pq = partition_rows(probe, partitions, q);
        let before = spilled_output(jt, build, probe, residual, facts, partitions, (upto - 1) as nat);
        let front = probe_part(jt, bq, pq, residual, facts);
        let back = unmatched_part(bq, pq, residual);
        let part = join_output(jt, bq, pq, residual, facts);
        lemma_multiset_commutative(before, part);
        let probe_before = spilled_probe(
            jt,
            build,
            probe,
            residual,
            facts,
            partitions,
            (upto - 1) as nat,
        );
        let unmatched_before = spilled_unmatched(
            build,
            probe,
            residual,
            partitions,
            (upto - 1) as nat,
        );
        if keeps_build_side(jt) {
            lemma_multiset_commutative(front, back);
            assert(probe_before.add(unmatched_before).add(
                front.to_multiset().add(back.to_multiset()),
            ) =~= probe_before.add(front.to_multiset()).add(
                unmatched_before.add(back.to_multiset()),
            ));
        } else {
            assert(part =~= front);
            assert(probe_before.add(Multiset::empty()).add(front.to_multiset()) =~= probe_before.add(
                front.to_multiset(),
            ).add(Multiset::empty()));
        }
    }
}

/// Spilling is transparent: a join that splits its inputs by the hash of the
/// key and joins partition by partition returns the same rows, each as
/// often, as the join that holds everything in memory. Only their order may
/// differ.
pub proof fn law_spill_is_transparent(
    jt: JoinType,
    build: Seq<RowView>,
    probe: Seq<RowView>,
    residual: spec_fn(RowView, RowView) -> bool,
    facts: BuildFacts,
    partitions: usize,
)
    requires
        partitions > 0,
    ensures
        spilled_output(
            jt,
            build,
            probe,
            residual,
            facts,
            partitions,
            partitions as nat,
        ).to_multiset() == join_output(jt, build, probe, residual, facts).to_multiset(),
{
    broadcast use vstd::multiset::group_multiset_axioms;

    lemma_spilled_output_splits(jt, build, probe, residual, facts, partitions, partitions as nat);
    lemma_probe_part_transparent(jt, build, probe, residual, facts, partitions);
    lemma_unmatched_part_transparent(build, probe, residual, partitions);
    let front = probe_part(jt, build, probe, residual, facts);
    let back = unmatched_part(build, probe, residual);
    if keeps_build_side(jt) {
        lemma_multiset_commutative(front, back);
    } else {
        assert(join_output(jt, build, probe, residual, facts) =~= front);
        assert(front.to_multiset().add(Multiset::empty()) =~= front.to_multiset());
    }
}

} // verus!
