use column::bitmap::FilteredCollection;
use column::record::Record;
use column::Column;

type Useless = Record<u64, Option<i64>>;

#[test]
fn bitmap_test() {
    let u = vec![Useless { a: 1, b: None }, Useless { a: 1, b: Some(-1) }];
    let original = u.clone();
    let mut column = <Useless as Column>::with_capacity(u.len());
    column.extend(u);
    let mut bitmap_container = FilteredCollection::new(&column, column.len());

    let mut result: Vec<Useless> = Vec::new();
    let mut it = column.iter();
    while let Some(e) = it.next() {
        result.push(e.to_owned());
    }
    assert_eq!(original, result);
    assert_eq!(column.len(), original.len());
    assert_eq!(bitmap_container.len(), original.len());

    let mut it = bitmap_container.iter();
    while let Some(c) = it.next() {
        assert_eq!(c.a, 1);
    }

    bitmap_container.retain(|item| item.b.is_none());

    assert_eq!(bitmap_container.len(), 1);
    let mut it = bitmap_container.iter();
    while let Some(c) = it.next() {
        assert_eq!(c.b, None);
    }
}

#[test]
fn bitmap_test_mul_2() {
    let u = vec![Useless { a: 1, b: None }, Useless { a: 1, b: Some(-1) }];
    let mut original = u.clone();
    for e in &mut original {
        e.a *= 2;
    }
    let mut column = <Useless as Column>::with_capacity(u.len());
    column.extend(u);
    let mut cursor = column.iter_mut();
    while let Some(e) = cursor.next(&mut column) {
        *e.a *= 2;
    }
    let mut result: Vec<Useless> = Vec::new();
    let mut it = column.iter();
    while let Some(e) = it.next() {
        result.push(e.to_owned());
    }
    assert_eq!(original, result);
}

#[test]
fn test_retain() {
    let size: u64 = 10;
    let mut u = vec![];
    for a in 0..size {
        u.push(Useless { a, b: None });
    }
    let mut column = <Useless as Column>::with_capacity(u.len());
    column.extend(u);
    let mut bitmap_container = FilteredCollection::new(&column, column.len());
    bitmap_container.retain(|u| u.a.trailing_zeros() > 0);
    println!("bitmap_container: {:?}", bitmap_container);
    assert_eq!(bitmap_container.len(), size as usize / 2);
    let mut as_vec: Vec<Useless> = Vec::new();
    let mut it = bitmap_container.iter();
    while let Some(x) = it.next() {
        as_vec.push(x);
    }
    assert_eq!(as_vec.len(), bitmap_container.len());
}
