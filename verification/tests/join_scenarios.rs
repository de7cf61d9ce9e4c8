use query_core::join::row::{JoinType, JoinedRow, Marker, Row};
use query_core::join::state::hash_join;

fn row(key: u64, payload: &str) -> Row {
    Row::new(Some(vec![Some(key)]), payload.to_string())
}

fn single(key: &Option<Vec<Option<u64>>>) -> Option<u64> {
    key.as_ref().map(|values| values[0].unwrap())
}

fn null_row(payload: &str) -> Row {
    Row::new(None, payload.to_string())
}

fn show(rows: &Vec<JoinedRow>) -> Vec<(Option<(Option<u64>, String)>, Option<(Option<u64>, String)>, Option<Marker>)> {
    rows.iter()
        .map(|r| {
            (
                r.probe.as_ref().map(|p| (single(&p.key), p.payload.clone())),
                r.build.as_ref().map(|b| (single(&b.key), b.payload.clone())),
                r.marker,
            )
        })
        .collect()
}

fn some(key: u64, payload: &str) -> Option<(Option<u64>, String)> {
    Some((Some(key), payload.to_string()))
}

#[test]
fn inner_join_emits_only_the_matching_pair() {
    let build = vec![row(1, "a"), row(2, "b")];
    let probe = vec![row(1, "x"), row(3, "y")];
    let out = hash_join(JoinType::Inner, &build, &probe);
    assert_eq!(show(&out), vec![(some(1, "x"), some(1, "a"), None)]);
}

#[test]
fn left_outer_join_extends_the_unmatched_probe_row_with_nulls() {
    let build = vec![row(1, "a"), row(2, "b")];
    let probe = vec![row(1, "x"), row(3, "y")];
    let out = hash_join(JoinType::Left, &build, &probe);
    assert_eq!(
        show(&out),
        vec![(some(1, "x"), some(1, "a"), None), (some(3, "y"), None, None)]
    );
}

#[test]
fn right_outer_join_emits_unmatched_build_rows_once() {
    let build = vec![row(1, "a"), row(2, "b"), null_row("n")];
    let probe = vec![row(1, "x"), row(1, "z"), row(3, "y")];
    let out = hash_join(JoinType::Right, &build, &probe);
    assert_eq!(
        show(&out),
        vec![
            (some(1, "x"), some(1, "a"), None),
            (some(1, "z"), some(1, "a"), None),
            (None, some(2, "b"), None),
            (None, Some((None, "n".to_string())), None),
        ]
    );
}

#[test]
fn full_outer_join_keeps_both_sides() {
    let build = vec![row(1, "a"), row(2, "b")];
    let probe = vec![row(1, "x"), row(3, "y")];
    let out = hash_join(JoinType::Full, &build, &probe);
    assert_eq!(
        show(&out),
        vec![
            (some(1, "x"), some(1, "a"), None),
            (some(3, "y"), None, None),
            (None, some(2, "b"), None),
        ]
    );
}

#[test]
fn semi_and_anti_join_split_the_probe_rows() {
    let build = vec![row(1, "a"), row(1, "b"), row(2, "c")];
    let probe = vec![row(1, "x"), row(3, "y"), null_row("n")];
    let semi = hash_join(JoinType::Semi, &build, &probe);
    assert_eq!(show(&semi), vec![(some(1, "x"), None, None)]);
    let anti = hash_join(JoinType::Anti, &build, &probe);
    assert_eq!(
        show(&anti),
        vec![(some(3, "y"), None, None), (Some((None, "n".to_string())), None, None)]
    );
}

#[test]
fn mark_join_marks_every_probe_row() {
    let build = vec![row(1, "a"), row(2, "b")];
    let probe = vec![row(1, "x"), row(3, "y"), null_row("n")];
    let out = hash_join(JoinType::Mark, &build, &probe);
    assert_eq!(
        show(&out),
        vec![
            (some(1, "x"), None, Some(Marker::True)),
            (some(3, "y"), None, Some(Marker::False)),
            (Some((None, "n".to_string())), None, Some(Marker::Unknown)),
        ]
    );
    let with_null = vec![row(1, "a"), null_row("b")];
    let out = hash_join(JoinType::Mark, &with_null, &probe);
    assert_eq!(
        show(&out),
        vec![
            (some(1, "x"), None, Some(Marker::True)),
            (some(3, "y"), None, Some(Marker::Unknown)),
            (Some((None, "n".to_string())), None, Some(Marker::Unknown)),
        ]
    );
    let out = hash_join(JoinType::Mark, &vec![], &probe);
    assert_eq!(out.len(), 3);
    assert!(out.iter().all(|r| r.marker == Some(Marker::False)));
}

#[test]
fn duplicate_keys_pair_up_in_build_order() {
    let build = vec![row(7, "a"), row(8, "b"), row(7, "c")];
    let probe = vec![row(7, "x")];
    let out = hash_join(JoinType::Inner, &build, &probe);
    assert_eq!(
        show(&out),
        vec![(some(7, "x"), some(7, "a"), None), (some(7, "x"), some(7, "c"), None)]
    );
}

#[test]
fn null_keys_never_match() {
    let build = vec![null_row("a")];
    let probe = vec![null_row("x")];
    assert_eq!(hash_join(JoinType::Inner, &build, &probe).len(), 0);
}
