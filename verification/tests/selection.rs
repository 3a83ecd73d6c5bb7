use lean_dup::selection::{heap_gt, lists_before, select_subset_by_score, HeapEntry};

fn entry(score_micros: i64, tie_breaker: &str, candidate_index: usize) -> HeapEntry {
    HeapEntry { score_micros, tie_breaker: tie_breaker.to_owned(), candidate_index }
}

fn indices(selected: &[HeapEntry]) -> Vec<usize> {
    selected.iter().map(|entry| entry.candidate_index).collect()
}

#[test]
fn selection_keeps_the_highest_scores_in_listing_order() {
    let entries = vec![
        entry(10_000_000, "workspace:0000000000", 0),
        entry(95_000_000, "workspace:0000000001", 1),
        entry(40_000_000, "workspace:0000000002", 2),
        entry(95_000_000, "workspace:0000000003", 3),
        entry(5_000_000, "workspace:0000000004", 4),
    ];
    let selected = select_subset_by_score(entries, 3);
    assert_eq!(indices(&selected), vec![1, 3, 2]);
}

#[test]
fn selection_under_a_large_limit_keeps_everything_sorted() {
    let entries = vec![entry(1, "b", 0), entry(3, "a", 1), entry(1, "a", 2)];
    let selected = select_subset_by_score(entries, 80);
    assert_eq!(indices(&selected), vec![1, 2, 0]);
}

#[test]
fn selection_with_a_zero_limit_is_empty() {
    let entries = vec![entry(1, "a", 0), entry(2, "b", 1)];
    assert!(select_subset_by_score(entries, 0).is_empty());
}

#[test]
fn equal_scores_at_the_cut_keep_the_greater_sort_key() {
    let entries = vec![entry(7, "external:0000000001:x", 0), entry(7, "workspace:0000000000", 1), entry(9, "a", 2)];
    let selected = select_subset_by_score(entries, 2);
    assert_eq!(indices(&selected), vec![2, 1]);
}

#[test]
fn heap_and_listing_orders_break_score_ties_in_opposite_directions() {
    let a = entry(5, "a", 0);
    let b = entry(5, "b", 1);
    assert!(heap_gt(&b, &a));
    assert!(lists_before(&a, &b));
    assert!(heap_gt(&entry(6, "z", 9), &b));
    assert!(lists_before(&entry(6, "z", 9), &a));
}
