use fibseq::funcs::{five, plus_one, plus_two};

#[test]
fn five_returns_five() {
    assert_eq!(five(), 5);
}

#[test]
fn plus_one_adds_one() {
    assert_eq!(plus_one(19), 20);
    assert_eq!(plus_one(0), 1);
    assert_eq!(plus_one(i32::MAX - 1), i32::MAX);
}

#[test]
fn plus_two_adds_two() {
    assert_eq!(plus_two(24), 26);
    assert_eq!(plus_two(-2), 0);
    assert_eq!(plus_two(i32::MAX - 2), i32::MAX);
}
