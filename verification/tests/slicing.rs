#[test]
fn slicing() {
    let xs = vec!["a", "vc", "qsd"];
    assert_eq!(&["qsd", "a"], &[xs[2], xs[0]])
}
