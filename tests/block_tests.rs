use blockchain::Block;

#[test]
fn hash_of_empty_genesis_text() {
    let b = Block::new(0, String::new(), 0, String::new(), 0, 2);
    assert_eq!(b.preimage(), "000");
    assert_eq!(
        b.hash(),
        "2ac9a6746aca543af8dff39894cfe8173afba21eb01c6fae33d52947222855ef"
    );
}

#[test]
fn hash_text_joins_fields_in_order() {
    let b = Block::new(1, "ab".to_owned(), 23, "cd".to_owned(), -5, 0);
    assert_eq!(b.preimage(), "123-5abcd");
    assert_eq!(
        b.hash(),
        "666b1695c40e214ac38f43f06881a057b07360c41e532e27458b3cba8adb6f05"
    );
}

#[test]
fn hash_of_non_ascii_payload() {
    let b = Block::new(2, String::new(), 5, "é".to_owned(), 7, 0);
    assert_eq!(b.preimage(), "257é");
    assert_eq!(
        b.hash(),
        "e795432e27bd13cd10d89a23abe1f741fb20d82ae1788bc05f45c62c4f1d2683"
    );
}

#[test]
fn hash_is_deterministic() {
    let a = Block::new(4, "prev".to_owned(), 1000, "payload".to_owned(), 42, 1);
    let b = Block::new(4, "prev".to_owned(), 1000, "payload".to_owned(), 42, 3);
    assert_eq!(a.hash(), a.hash());
    assert_eq!(a.hash(), b.hash());
    assert_eq!(a.hash().len(), 64);
    assert_eq!(a.try_hash(), Some(a.hash()));
}

#[test]
fn hash_changes_with_nonce() {
    let a = Block::new(4, "prev".to_owned(), 1000, "payload".to_owned(), 42, 1);
    let b = a.clone().with_nonce(43);
    assert_eq!(b.nonce(), 43);
    assert_eq!(b.index(), 4);
    assert_eq!(b.previous_hash(), "prev");
    assert_eq!(b.timestamp(), 1000);
    assert_eq!(b.data(), "payload");
    assert_eq!(b.difficulty, 1);
    assert_ne!(a.hash(), b.hash());
}

#[test]
fn genesis_block_fields() {
    let g = Block::new_genesis(77, "hello".to_owned(), 2);
    assert_eq!(g.index(), 0);
    assert_eq!(g.previous_hash(), "");
    assert_eq!(g.timestamp(), 77);
    assert_eq!(g.data(), "hello");
    assert_eq!(g.nonce(), 0);
    assert_eq!(g.difficulty(), 2);
}

#[test]
fn meets_difficulty_counts_leading_zeros() {
    // "000" hashes to a digest that starts with '2'.
    let b = Block::new(0, String::new(), 0, String::new(), 0, 0);
    assert!(b.meets_difficulty());
    let b = Block::new(0, String::new(), 0, String::new(), 0, 1);
    assert!(!b.meets_difficulty());
    let b = Block::new(0, String::new(), 0, String::new(), 0, 65);
    assert!(!b.meets_difficulty());
}

#[test]
fn zero_prefix_check() {
    assert!(blockchain::block::has_zero_prefix(&"00ab".to_owned(), 2));
    assert!(!blockchain::block::has_zero_prefix(&"00ab".to_owned(), 3));
    assert!(blockchain::block::has_zero_prefix(&"".to_owned(), 0));
    assert!(!blockchain::block::has_zero_prefix(&"0".to_owned(), 2));
}

#[test]
fn decimal_text() {
    let mut s = String::from("x");
    blockchain::decimal::push_decimal(&mut s, 0);
    blockchain::decimal::push_decimal(&mut s, 1907);
    blockchain::decimal::push_decimal(&mut s, u128::MAX);
    assert_eq!(s, format!("x01907{}", u128::MAX));
    let mut t = String::new();
    blockchain::decimal::push_signed_decimal(&mut t, i64::MIN);
    blockchain::decimal::push_signed_decimal(&mut t, -3);
    blockchain::decimal::push_signed_decimal(&mut t, 12);
    assert_eq!(t, format!("{}-312", i64::MIN));
}
