use column::bitmap::{FilteredCollection, Unsupported};
use column::record::Record;
use column::Column;

type Rec = Record<u64, Option<i64>>;

fn collect(column: &column::record::RecordColumn<u64, Option<i64>>) -> Vec<Rec> {
    let mut out: Vec<Rec> = Vec::new();
    let mut it = column.iter();
    while let Some(e) = it.next() {
        out.push(e.to_owned());
    }
    out
}

#[test]
fn round_trip_reproduces_input() {
    let u = vec![
        Rec { a: 7, b: Some(3) },
        Rec { a: 0, b: None },
        Rec { a: 9, b: Some(-4) },
    ];
    let mut column = <Rec as Column>::new();
    column.extend(u.clone());
    assert_eq!(column.len(), u.len());
    for (i, e) in u.iter().enumerate() {
        assert_eq!(*e, column.index(i));
    }
}

#[test]
fn mutation_matches_row_major() {
    let u = vec![Rec { a: 2, b: None }, Rec { a: 5, b: Some(1) }, Rec { a: 11, b: None }];
    let mut original = u.clone();
    for e in &mut original {
        e.a *= 3;
    }
    let mut column = <Rec as Column>::new();
    column.extend(u);
    let mut cursor = column.iter_mut();
    while let Some(e) = cursor.next(&mut column) {
        *e.a *= 3;
    }
    assert_eq!(original, collect(&column));
}

#[test]
fn length_invariant_under_operations() {
    let mut column = <Rec as Column>::new();
    assert_eq!(column.len(), 0);
    column.extend(vec![Rec { a: 1, b: None }, Rec { a: 2, b: Some(2) }]);
    assert_eq!(column.len(), 2);
    column.reserve(64);
    assert_eq!(column.len(), 2);
    column.extend(vec![Rec { a: 3, b: None }]);
    assert_eq!(column.len(), 3);
    assert_eq!(collect(&column).len(), 3);
    column.clear();
    assert_eq!(column.len(), 0);
    column.extend(vec![Rec { a: 4, b: Some(4) }]);
    assert_eq!(column.len(), 1);
    assert_eq!(collect(&column).len(), 1);
}

#[test]
fn retain_two_passes_intersect() {
    let mut u = Vec::new();
    for a in 0..12u64 {
        u.push(Rec { a, b: None });
    }
    let mut column = <Rec as Column>::new();
    column.extend(u);
    let mut filtered = FilteredCollection::new(&column, column.len());
    filtered.retain(|r| r.a % 2 == 0);
    filtered.retain(|r| r.a % 3 == 0);
    let mut seen: Vec<u64> = Vec::new();
    let mut it = filtered.iter();
    while let Some(r) = it.next() {
        seen.push(r.a);
    }
    assert_eq!(seen, vec![0, 6]);
    assert_eq!(filtered.len(), 2);
}

#[test]
fn retain_count_matches_iteration() {
    let mut u = Vec::new();
    for a in 0..9u64 {
        u.push(Rec { a, b: None });
    }
    let mut column = <Rec as Column>::new();
    column.extend(u);
    let mut filtered = FilteredCollection::new(&column, column.len());
    filtered.retain(|r| r.a >= 4);
    let mut yielded: usize = 0;
    let mut it = filtered.iter();
    while let Some(_) = it.next() {
        yielded += 1;
    }
    assert_eq!(filtered.len(), 5);
    assert_eq!(yielded, 5);
}

#[test]
fn reiteration_yields_same_sequence() {
    let u = vec![Rec { a: 1, b: None }, Rec { a: 2, b: Some(2) }, Rec { a: 3, b: None }];
    let mut column = <Rec as Column>::new();
    column.extend(u);
    let first = collect(&column);
    let second = collect(&column);
    assert_eq!(first, second);

    let mut filtered = FilteredCollection::new(&column, column.len());
    filtered.retain(|r| r.b.is_none());
    let mut one: Vec<Rec> = Vec::new();
    let mut it = filtered.iter();
    while let Some(r) = it.next() {
        one.push(r);
    }
    let mut two: Vec<Rec> = Vec::new();
    let mut it = filtered.iter();
    while let Some(r) = it.next() {
        two.push(r);
    }
    assert_eq!(one, two);
}

#[test]
fn mut_iterator_is_single_pass() {
    let u = vec![Rec { a: 1, b: None }, Rec { a: 2, b: None }];
    let mut column = <Rec as Column>::new();
    column.extend(u);
    let mut cursor = column.iter_mut();
    while let Some(e) = cursor.next(&mut column) {
        *e.a += 1;
    }
    assert!(cursor.next(&mut column).is_none());
    assert!(cursor.next(&mut column).is_none());
    let mut fresh = column.iter_mut();
    assert!(fresh.next(&mut column).is_some());
}

#[test]
fn scenario_extend_len_index() {
    let u = vec![Rec { a: 1, b: None }, Rec { a: 1, b: Some(-1) }];
    let mut column = <Rec as Column>::new();
    column.extend(u);
    assert_eq!(column.len(), 2);
    assert_eq!(column.index(0), Rec { a: 1, b: None });
}

#[test]
fn scenario_iter_mut_doubles_field_a() {
    let u = vec![Rec { a: 1, b: None }, Rec { a: 1, b: Some(-1) }];
    let mut column = <Rec as Column>::new();
    column.extend(u);
    let mut cursor = column.iter_mut();
    while let Some(e) = cursor.next(&mut column) {
        *e.a *= 2;
    }
    let result = collect(&column);
    assert_eq!(result, vec![Rec { a: 2, b: None }, Rec { a: 2, b: Some(-1) }]);
}

#[test]
fn scenario_retain_even() {
    let mut u = Vec::new();
    for a in 0..10u64 {
        u.push(Rec { a, b: None });
    }
    let mut column = <Rec as Column>::new();
    column.extend(u);
    let mut filtered = FilteredCollection::new(&column, column.len());
    filtered.retain(|r| r.a % 2 == 0);
    assert_eq!(filtered.len(), 5);
    let mut seen: Vec<u64> = Vec::new();
    let mut it = filtered.iter();
    while let Some(r) = it.next() {
        seen.push(r.a);
    }
    assert_eq!(seen, vec![0, 2, 4, 6, 8]);
}

#[test]
fn scenario_index_mut_increments() {
    let u = vec![Rec { a: 1, b: None }, Rec { a: 5, b: Some(-1) }];
    let mut column = <Rec as Column>::new();
    column.extend(u);
    *column.index_mut(1).a += 1;
    assert_eq!(column.index(1).a, 6);
}

#[test]
fn filtered_iter_mut_is_unsupported() {
    let column_data = vec![Rec { a: 1, b: None }];
    let mut column = <Rec as Column>::new();
    column.extend(column_data);
    let mut filtered = FilteredCollection::new(&column, column.len());
    assert_eq!(filtered.iter_mut(), Err(Unsupported));
}

#[test]
fn empty_container_and_view() {
    let column = <Rec as Column>::new();
    assert!(column.is_empty());
    assert_eq!(column.len(), 0);
    let mut it = column.iter();
    assert!(it.next().is_none());
    let mut filtered = FilteredCollection::new(&column, 0);
    assert!(filtered.is_empty());
    assert_eq!(filtered.len(), 0);
    filtered.retain(|_| false);
    assert_eq!(filtered.len(), 0);
    let mut it = filtered.iter();
    assert!(it.next().is_none());
}

#[test]
fn retain_all_hidden_leaves_empty_view() {
    let u = vec![Rec { a: 1, b: None }, Rec { a: 2, b: Some(0) }];
    let mut column = <Rec as Column>::new();
    column.extend(u);
    let mut filtered = FilteredCollection::new(&column, column.len());
    filtered.retain(|_| false);
    assert!(filtered.is_empty());
    assert_eq!(filtered.len(), 0);
    let mut it = filtered.iter();
    assert!(it.next().is_none());
}

#[test]
fn short_mask_truncates_iteration() {
    let u = vec![Rec { a: 1, b: None }, Rec { a: 2, b: None }, Rec { a: 3, b: None }];
    let mut column = <Rec as Column>::new();
    column.extend(u);
    let filtered = FilteredCollection::new(&column, 2);
    assert_eq!(filtered.len(), 2);
    let mut seen: Vec<u64> = Vec::new();
    let mut it = filtered.iter();
    while let Some(r) = it.next() {
        seen.push(r.a);
    }
    assert_eq!(seen, vec![1, 2]);
}

#[test]
fn long_mask_stops_at_collection_end() {
    let u = vec![Rec { a: 1, b: None }, Rec { a: 2, b: None }];
    let mut column = <Rec as Column>::new();
    column.extend(u);
    let filtered = FilteredCollection::new(&column, 5);
    assert_eq!(filtered.len(), 5);
    let mut yielded: usize = 0;
    let mut it = filtered.iter();
    while let Some(_) = it.next() {
        yielded += 1;
    }
    assert_eq!(yielded, 2);
}

#[test]
fn capacity_covers_stored_records() {
    let mut column = <Rec as Column>::with_capacity(0);
    column.extend(vec![Rec { a: 1, b: None }, Rec { a: 2, b: None }, Rec { a: 3, b: None }]);
    assert!(column.capacity() >= 3);
    assert!(<Rec as Column>::with_capacity(8).capacity() >= 0);
}

#[test]
fn record_ref_to_owned_copies_fields() {
    let u = vec![Rec { a: 42, b: Some(-7) }];
    let mut column = <Rec as Column>::new();
    column.extend(u);
    let mut it = column.iter();
    let r = it.next().unwrap();
    assert_eq!(r.to_owned(), Rec { a: 42, b: Some(-7) });
    assert!(it.next().is_none());
}

#[test]
fn tuple_columns_len_and_is_empty() {
    let mut column = <column::tuple::Col<(u64, Option<i32>)> as Column>::new();
    assert!(column.is_empty());
    column.extend(vec![(4, Some(2)), (5, None)]);
    assert!(!column.is_empty());
    assert_eq!(column.len(), 2);
    let mut it = column.iter();
    assert_eq!((*it.next().unwrap().0, *it.next().unwrap().0), (4, 5));
    assert!(it.next().is_none());
}

#[test]
fn filtered_view_over_plain_vector() {
    let collection: Vec<u64> = vec![1, 2, 3];
    let mut filtered = FilteredCollection::new(&collection, collection.len());
    filtered.retain(|&e| e < 3);
    assert_eq!(filtered.len(), 2);
    let mut seen: Vec<u64> = Vec::new();
    let mut it = filtered.iter();
    while let Some(e) = it.next() {
        seen.push(e);
    }
    assert_eq!(seen, vec![1, 2]);
}
