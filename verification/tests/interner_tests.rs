use envyc::interner::Interner;

#[test]
fn insert_twice_yields_same_id() {
    let mut interner = Interner::default();
    let first = interner.insert(b"value".to_vec());
    let second = interner.insert(b"value".to_vec());
    assert_eq!(first, second);
    assert_eq!(interner.get(first), &b"value".to_vec());
}

#[test]
fn ids_are_dense_and_in_first_seen_order() {
    let mut interner = Interner::default();
    assert_eq!(interner.insert(b"a".to_vec()), 0);
    assert_eq!(interner.insert(b"b".to_vec()), 1);
    assert_eq!(interner.insert(b"a".to_vec()), 0);
    assert_eq!(interner.insert(b"c".to_vec()), 2);
    assert_eq!(interner.insert(b"b".to_vec()), 1);
}

#[test]
fn get_returns_the_value_of_each_id() {
    let mut interner = Interner::default();
    let x = interner.insert(b"x".to_vec());
    let y = interner.insert(b"yy".to_vec());
    let empty = interner.insert(Vec::new());
    assert_eq!(interner.get(x), &b"x".to_vec());
    assert_eq!(interner.get(y), &b"yy".to_vec());
    assert_eq!(interner.get(empty), &Vec::<u8>::new());
    assert_ne!(x, y);
    assert_ne!(y, empty);
}

#[test]
fn values_that_differ_in_one_byte_get_different_ids() {
    let mut interner = Interner::default();
    let lower = interner.insert(b"name".to_vec());
    let upper = interner.insert(b"Name".to_vec());
    let longer = interner.insert(b"names".to_vec());
    assert_eq!((lower, upper, longer), (0, 1, 2));
}
