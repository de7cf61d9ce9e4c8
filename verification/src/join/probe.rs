//! Probing: from a batch of probe rows and the build rows each one matches to
//! the rows of output.

use vstd::prelude::*;
use crate::join::hash_table::JoinHashTable;
use crate::join::row::{
    joined_views, row_views, JoinType, JoinedRow, JoinedRowView, Marker, Row,
};
use crate::join::spec::{
    build_matches, facts_of, joined, keeps_build_side, marked, marker_of, pairs_of,
    probe_only,
    probe_output, probe_row_output, reached, selected, unvisited_rows, BuildFacts,
};
use crate::join::visited::VisitedBitmap;

verus! {

/// The lists of a nested vector, as sequences.
pub open spec fn views(lists: Seq<Vec<usize>>) -> Seq<Seq<usize>> {
    Seq::new(lists.len(), |i: int| lists[i]@)
}

/// The masks of a nested vector, as sequences.
pub open spec fn mask_views(masks: Seq<Vec<bool>>) -> Seq<Seq<bool>> {
    Seq::new(masks.len(), |i: int| masks[i]@)
}

/// Every entry of every list names a row of a store of `rows` rows.
pub open spec fn all_in_range(lists: Seq<Seq<usize>>, rows: int) -> bool {
    forall|i: int, c: int|
        0 <= i < lists.len() && 0 <= c < lists[i].len() ==> (#[trigger] lists[i][c]) < rows
}

/// What the probe side must know of the whole build side.
pub fn facts_for(build: &Vec<Row>) -> (facts: BuildFacts)
    ensures
        facts == facts_of(row_views(build@)),
{
    let ghost views = row_views(build@);
    let mut any_null_key: bool = false;
    let mut j: usize = 0;
    while j < build.len()
        invariant
            j <= build.len(),
            views == row_views(build@),
            any_null_key == (exists|t: int| 0 <= t < j && (#[trigger] views[t]).key is None),
        decreases build.len() - j,
    {
        proof {
            assert(views[j as int] == build@[j as int]@);
        }
        if build[j].key.is_none() {
            any_null_key = true;
        }
        j = j + 1;
    }
    BuildFacts { any_rows: build.len() > 0, any_null_key }
}

/// For each probe row, the build rows with its key: the candidates that a
/// residual predicate may still narrow.
pub fn probe_candidates(table: &JoinHashTable, build: &Vec<Row>, batch: &Vec<Row>) -> (cands: Vec<
    Vec<usize>,
>)
    requires
        table.represents(build@),
    ensures
        cands.len() == batch.len(),
        forall|i: int|
            0 <= i < batch.len() ==> (#[trigger] cands[i])@ == build_matches(
                row_views(build@),
                batch[i]@.key,
            ),
{
    let mut cands: Vec<Vec<usize>> = Vec::new();
    let mut i: usize = 0;
    while i < batch.len()
        invariant
            table.represents(build@),
            i <= batch.len(),
            cands.len() == i,
            forall|t: int|
                0 <= t < i ==> (#[trigger] cands[t])@ == build_matches(
                    row_views(build@),
                    batch[t]@.key,
                ),
        decreases batch.len() - i,
    {
        let found: Vec<usize> = table.lookup(build, &batch[i].key);
        cands.push(found);
        i = i + 1;
    }
    cands
}

/// Narrows one row's candidates to those the mask lets through.
pub fn apply_mask(cands: &Vec<usize>, mask: &Vec<bool>) -> (sel: Vec<usize>)
    requires
        mask.len() == cands.len(),
    ensures
        sel@ == selected(cands@, mask@),
{
    let mut sel: Vec<usize> = Vec::new();
    let mut c: usize = 0;
    while c < cands.len()
        invariant
            c <= cands.len(),
            mask.len() == cands.len(),
            sel@ == selected(cands@.take(c as int), mask@),
        decreases cands.len() - c,
    {
        proof {
            assert(cands@.take(c + 1).take(c as int) == cands@.take(c as int));
        }
        if mask[c] {
            sel.push(cands[c]);
        }
        c = c + 1;
    }
    proof {
        assert(cands@.take(cands.len() as int) == cands@);
    }
    sel
}

/// The selection of every row of a batch under a residual mask.
pub open spec fn selections(cands: Seq<Seq<usize>>, masks: Seq<Seq<bool>>) -> Seq<Seq<usize>> {
    Seq::new(cands.len(), |i: int| selected(cands[i], masks[i]))
}

/// Narrows every row's candidates by its mask.
pub fn apply_masks(cands: &Vec<Vec<usize>>, masks: &Vec<Vec<bool>>) -> (sels: Vec<Vec<usize>>)
    requires
        masks.len() == cands.len(),
        forall|i: int| 0 <= i < cands.len() ==> (#[trigger] masks[i]).len() == cands[i].len(),
    ensures
        sels.len() == cands.len(),
        views(sels@) == selections(views(cands@), mask_views(masks@)),
{
    let mut sels: Vec<Vec<usize>> = Vec::new();
    let mut i: usize = 0;
    while i < cands.len()
        invariant
            i <= cands.len(),
            masks.len() == cands.len(),
            forall|t: int| 0 <= t < cands.len() ==> (#[trigger] masks[t]).len() == cands[t].len(),
            sels.len() == i,
            forall|t: int| 0 <= t < i ==> (#[trigger] sels[t])@ == selected(cands[t]@, masks[t]@),
        decreases cands.len() - i,
    {
        let sel: Vec<usize> = apply_mask(&cands[i], &masks[i]);
        sels.push(sel);
        i = i + 1;
    }
    sels
}

/// Appends what one probe row contributes to the output.
fn emit_row(
    jt: JoinType,
    build: &Vec<Row>,
    p: &Row,
    sel: &Vec<usize>,
    facts: &BuildFacts,
    out: &mut Vec<JoinedRow>,
)
    requires
        forall|c: int| 0 <= c < sel.len() ==> (#[trigger] sel[c]) < build.len(),
    ensures
        joined_views(final(out)@) == joined_views(old(out)@) + probe_row_output(
            jt,
            row_views(build@),
            p@,
            sel@,
            *facts,
        ),
{
    let ghost before = joined_views(out@);
    let ghost rows = row_views(build@);
    let pairs: bool = match jt {
        JoinType::Inner | JoinType::Right => true,
        JoinType::Left | JoinType::Full => sel.len() > 0,
        _ => false,
    };
    if pairs {
        let mut c: usize = 0;
        while c < sel.len()
            invariant
                c <= sel.len(),
                rows == row_views(build@),
                forall|d: int| 0 <= d < sel.len() ==> (#[trigger] sel[d]) < build.len(),
                joined_views(out@) == before + pairs_of(p@, rows, sel@.take(c as int)),
            decreases sel.len() - c,
        {
            let b: &Row = &build[sel[c]];
            let ghost so_far = joined_views(out@);
            out.push(
                JoinedRow { probe: Some(p.duplicate()), build: Some(b.duplicate()), marker: None },
            );
            proof {
                let pair = joined(p@, rows[sel@[c as int] as int]);
                assert(joined_views(out@) =~= so_far.push(pair));
            }
            c = c + 1;
        }
    } else {
        match jt {
            JoinType::Left | JoinType::Full => {
                out.push(JoinedRow { probe: Some(p.duplicate()), build: None, marker: None });
            },
            JoinType::Semi => {
                if sel.len() > 0 {
                    out.push(JoinedRow { probe: Some(p.duplicate()), build: None, marker: None });
                } else {
                }
            },
            JoinType::Anti => {
                if sel.len() == 0 {
                    out.push(JoinedRow { probe: Some(p.duplicate()), build: None, marker: None });
                } else {
                }
            },
            JoinType::Mark => {
                let marker: Marker = if sel.len() > 0 {
                    Marker::True
                } else if (p.key.is_none() && facts.any_rows) || facts.any_null_key {
                    Marker::Unknown
                } else {
                    Marker::False
                };
                out.push(
                    JoinedRow { probe: Some(p.duplicate()), build: None, marker: Some(marker) },
                );
            },
            _ => {},
        }
    }
}

/// Marks the build rows of one selection visited.
fn visit_all(sel: &Vec<usize>, visited: &mut VisitedBitmap)
    requires
        old(visited).well_formed(),
        forall|c: int| 0 <= c < sel.len() ==> (#[trigger] sel[c]) < old(visited).rows(),
    ensures
        final(visited).well_formed(),
        final(visited).rows() == old(visited).rows(),
        final(visited).bits().len() == old(visited).bits().len(),
        forall|j: int|
            0 <= j < old(visited).rows() ==> (#[trigger] final(visited).bits()[j]) == (
            old(visited).bits()[j] || sel@.contains(j as usize)),
{
    let ghost before = visited.bits();
    proof {
        visited.lemma_bits_len();
    }
    let mut c: usize = 0;
    while c < sel.len()
        invariant
            c <= sel.len(),
            visited.well_formed(),
            visited.rows() == old(visited).rows(),
            before == old(visited).bits(),
            before.len() == visited.rows(),
            visited.bits().len() == before.len(),
            forall|d: int| 0 <= d < sel.len() ==> (#[trigger] sel[d]) < visited.rows(),
            forall|j: int|
                0 <= j < visited.rows() ==> (#[trigger] visited.bits()[j]) == (before[j]
                    || sel@.take(c as int).contains(j as usize)),
        decreases sel.len() - c,
    {
        visited.claim(sel[c]);
        proof {
            let upto = sel@.take(c as int);
            let next = sel@.take(c + 1);
            assert forall|j: int| 0 <= j < visited.rows() implies (#[trigger] visited.bits()[j])
                == (before[j] || next.contains(j as usize)) by {
                if upto.contains(j as usize) {
                    let d = choose|d: int| 0 <= d < upto.len() && upto[d] == j as usize;
                    assert(next[d] == j as usize);
                }
                if j == sel@[c as int] as int {
                    assert(next[c as int] == j as usize);
                }
                if next.contains(j as usize) {
                    let d = choose|d: int| 0 <= d < next.len() && next[d] == j as usize;
                    if d < c {
                        assert(upto[d] == j as usize);
                    }
                }
            }
        }
        c = c + 1;
    }
    proof {
        assert(sel@.take(sel.len() as int) == sel@);
    }
}

/// Joins a batch of probe rows, each to the build rows selected for it, and
/// for the joins that keep the build side records which build rows were
/// reached.
pub fn probe_selected(
    jt: JoinType,
    build: &Vec<Row>,
    batch: &Vec<Row>,
    sels: &Vec<Vec<usize>>,
    facts: &BuildFacts,
    visited: &mut VisitedBitmap,
) -> (out: Vec<JoinedRow>)
    requires
        sels.len() == batch.len(),
        all_in_range(views(sels@), build.len() as int),
        old(visited).well_formed(),
        old(visited).rows() == build.len(),
    ensures
        joined_views(out@) == probe_output(
            jt,
            row_views(build@),
            row_views(batch@),
            views(sels@),
            *facts,
        ),
        final(visited).well_formed(),
        final(visited).rows() == build.len(),
        keeps_build_side(jt) ==> forall|j: int|
            0 <= j < build.len() ==> (#[trigger] final(visited).bits()[j]) == (old(visited).bits()[j]
                || reached(views(sels@), batch.len() as int, j as usize)),
        !keeps_build_side(jt) ==> final(visited).bits() == old(visited).bits(),
{
    let mut out: Vec<JoinedRow> = Vec::new();
    let track: bool = match jt {
        JoinType::Right | JoinType::Full => true,
        _ => false,
    };
    let ghost lists = views(sels@);
    proof {
        visited.lemma_bits_len();
    }
    let mut i: usize = 0;
    while i < batch.len()
        invariant
            i <= batch.len(),
            sels.len() == batch.len(),
            lists == views(sels@),
            all_in_range(lists, build.len() as int),
            track == keeps_build_side(jt),
            visited.well_formed(),
            visited.rows() == build.len(),
            visited.bits().len() == build.len(),
            old(visited).bits().len() == build.len(),
            joined_views(out@) == probe_output(
                jt,
                row_views(build@),
                row_views(batch@).take(i as int),
                lists,
                *facts,
            ),
            track ==> forall|j: int|
                0 <= j < build.len() ==> (#[trigger] visited.bits()[j]) == (old(visited).bits()[j]
                    || reached(lists, i as int, j as usize)),
            !track ==> visited.bits() == old(visited).bits(),
        decreases batch.len() - i,
    {
        let sel: &Vec<usize> = &sels[i];
        proof {
            let probes = row_views(batch@);
            assert(probes.take(i + 1).take(i as int) == probes.take(i as int));
            assert forall|c: int| 0 <= c < sel.len() implies (#[trigger] sel[c]) < build.len() by {
                assert(lists[i as int][c] < build.len());
            }
        }
        emit_row(jt, build, &batch[i], sel, facts, &mut out);
        if track {
            visit_all(sel, visited);
        }
        i = i + 1;
    }
    proof {
        assert(row_views(batch@).take(batch.len() as int) == row_views(batch@));
    }
    out
}

/// The build rows that no probe row has reached, each extended with nulls.
/// Run once, after the last probe batch.
pub fn final_scan(build: &Vec<Row>, visited: &VisitedBitmap) -> (out: Vec<JoinedRow>)
    requires
        visited.well_formed(),
        visited.rows() == build.len(),
    ensures
        joined_views(out@) == unvisited_rows(row_views(build@), visited.bits()),
{
    let mut out: Vec<JoinedRow> = Vec::new();
    let ghost rows = row_views(build@);
    let mut j: usize = 0;
    while j < build.len()
        invariant
            j <= build.len(),
            rows == row_views(build@),
            visited.well_formed(),
            visited.rows() == build.len(),
            joined_views(out@) == unvisited_rows(rows.take(j as int), visited.bits()),
        decreases build.len() - j,
    {
        proof {
            assert(rows.take(j + 1).take(j as int) == rows.take(j as int));
        }
        if !visited.is_set(j) {
            out.push(JoinedRow { probe: None, build: Some(build[j].duplicate()), marker: None });
        }
        j = j + 1;
    }
    proof {
        assert(rows.take(build.len() as int) == rows);
    }
    out
}

/// The rows of some blocks, one block after the other.
pub open spec fn unblocked(blocks: Seq<Vec<JoinedRow>>) -> Seq<JoinedRowView>
    decreases blocks.len(),
{
    if blocks.len() == 0 {
        Seq::empty()
    } else {
        unblocked(blocks.drop_last()) + joined_views(blocks.last()@)
    }
}

/// Cuts output into blocks of at most `max_block_size` rows: every block but
/// the last is full, and none is empty.
pub fn into_blocks(rows: &Vec<JoinedRow>, max_block_size: usize) -> (blocks: Vec<Vec<JoinedRow>>)
    requires
        max_block_size > 0,
    ensures
        unblocked(blocks@) == joined_views(rows@),
        forall|b: int| 0 <= b < blocks.len() ==> 0 < (#[trigger] blocks[b]).len() <= max_block_size,
        forall|b: int| 0 <= b < blocks.len() - 1 ==> (#[trigger] blocks[b]).len() == max_block_size,
{
    let mut blocks: Vec<Vec<JoinedRow>> = Vec::new();
    let mut current: Vec<JoinedRow> = Vec::new();
    let ghost all = joined_views(rows@);
    let mut i: usize = 0;
    while i < rows.len()
        invariant
            i <= rows.len(),
            max_block_size > 0,
            all == joined_views(rows@),
            current.len() < max_block_size,
            unblocked(blocks@) + joined_views(current@) == all.take(i as int),
            forall|b: int| 0 <= b < blocks.len() ==> (#[trigger] blocks[b]).len() == max_block_size,
        decreases rows.len() - i,
    {
        current.push(rows[i].duplicate());
        proof {
            assert(all.take(i + 1) =~= all.take(i as int).push(all[i as int]));
        }
        if current.len() == max_block_size {
            let ghost old_blocks = blocks@;
            blocks.push(current);
            current = Vec::new();
            proof {
                assert(blocks@.drop_last() =~= old_blocks);
            }
        }
        i = i + 1;
    }
    if current.len() > 0 {
        let ghost old_blocks = blocks@;
        blocks.push(current);
        proof {
            assert(blocks@.drop_last() =~= old_blocks);
        }
    } else {
    }
    blocks
}

} // verus!
