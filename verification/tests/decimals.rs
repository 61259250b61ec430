use mini_ledger::decimal::Decimal;

fn dec(units: i128, places: u8) -> Decimal {
    Decimal { units, places }
}

#[test]
fn sums_take_the_larger_number_of_places() {
    assert_eq!(dec(150, 2).checked_add(dec(5, 1)), Some(dec(200, 2)));
    assert_eq!(dec(5, 1).checked_add(dec(150, 2)), Some(dec(200, 2)));
    assert_eq!(dec(1, 0).checked_add(dec(1, 3)), Some(dec(1001, 3)));
    assert_eq!(dec(-1, 0).checked_add(dec(1, 3)), Some(dec(-999, 3)));
    assert_eq!(dec(7, 4).checked_add(dec(-7, 4)), Some(dec(0, 4)));
    assert_eq!(Decimal::zero().checked_add(dec(1, 255)), Some(dec(1, 255)));
    assert_eq!(Decimal::whole(3).checked_add(Decimal::whole(4)), Some(Decimal::whole(7)));
}

#[test]
fn sums_beyond_the_range_are_refused() {
    assert_eq!(Decimal::whole(i128::MAX).checked_add(Decimal::whole(1)), None);
    assert_eq!(Decimal::whole(i128::MIN).checked_add(Decimal::whole(-1)), None);
    assert_eq!(Decimal::whole(i128::MAX).checked_add(dec(1, 1)), None);
    assert_eq!(Decimal::whole(1).checked_add(dec(1, 255)), None);
    assert_eq!(dec(17014118346046923173168730371588410572, 0).checked_add(dec(7, 1)),
        Some(dec(170141183460469231731687303715884105727, 1)));
    assert_eq!(dec(17014118346046923173168730371588410572, 0).checked_add(dec(8, 1)), None);
    assert_eq!(dec(-17014118346046923173168730371588410572, 0).checked_add(dec(-8, 1)),
        Some(dec(i128::MIN, 1)));
}

#[test]
fn opposites_are_exact() {
    assert_eq!(dec(150, 2).checked_neg(), Some(dec(-150, 2)));
    assert_eq!(dec(0, 7).checked_neg(), Some(dec(0, 7)));
    assert_eq!(dec(i128::MAX, 0).checked_neg(), Some(dec(-i128::MAX, 0)));
    assert_eq!(dec(i128::MIN, 0).checked_neg(), None);
}

#[test]
fn numbers_compare_by_what_they_are_not_how_they_are_written() {
    assert!(dec(1, 0).less_than(dec(11, 1)));
    assert!(!dec(11, 1).less_than(dec(1, 0)));
    assert!(!dec(10, 1).less_than(dec(1, 0)));
    assert!(!dec(1, 0).less_than(dec(10, 1)));
    assert!(dec(-1, 3).less_than(dec(0, 0)));
    assert!(dec(1, 255).less_than(dec(1, 254)));
    assert!(!dec(i128::MAX, 0).less_than(dec(1, 255)));
    assert!(dec(1, 255).less_than(dec(i128::MAX, 0)));
    assert!(dec(i128::MIN, 0).less_than(dec(-1, 255)));
    assert!(!dec(-1, 255).less_than(dec(i128::MIN, 0)));
    assert!(dec(i128::MIN, 0).less_than(dec(i128::MAX, 200)));
}
