use minilang::rev;

#[test]
fn rev_reverses() {
    assert_eq!(rev(vec![1, 2, 3]), vec![3, 2, 1]);
    assert_eq!(rev(Vec::<u8>::new()), Vec::<u8>::new());
}
