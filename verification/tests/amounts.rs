use mini_ledger::amount::{amount_from_decimal, decimal_from_amount};
use mini_ledger::decimal::Decimal;

fn dec(units: i128, places: u8) -> Option<Decimal> {
    Some(Decimal { units, places })
}

#[test]
fn a_decimal_is_read_as_it_is_written() {
    assert_eq!(amount_from_decimal("0"), dec(0, 0));
    assert_eq!(amount_from_decimal("100"), dec(100, 0));
    assert_eq!(amount_from_decimal("100.5"), dec(1005, 1));
    assert_eq!(amount_from_decimal("100.05"), dec(10005, 2));
    assert_eq!(amount_from_decimal("007.10"), dec(710, 2));
    assert_eq!(amount_from_decimal("1."), dec(1, 0));
    assert_eq!(amount_from_decimal("-5.5"), dec(-55, 1));
    assert_eq!(amount_from_decimal("-0"), dec(0, 0));
    assert_eq!(amount_from_decimal("0.00"), dec(0, 2));
}

#[test]
fn no_place_is_rounded_away() {
    assert_eq!(amount_from_decimal("0.001"), dec(1, 3));
    assert_eq!(amount_from_decimal("0.006"), dec(6, 3));
    assert_eq!(amount_from_decimal("0.125"), dec(125, 3));
    assert_eq!(amount_from_decimal("-0.1250001"), dec(-1250001, 7));
    assert_eq!(amount_from_decimal("0.30000000000000004"), dec(30000000000000004, 17));
    assert_eq!(
        amount_from_decimal("0.00000000000000000000000000000000000000000000000001"),
        dec(1, 50)
    );
    let tiny = format!("0.{}1", "0".repeat(254));
    assert_eq!(amount_from_decimal(&tiny), dec(1, 255));
}

#[test]
fn what_is_no_decimal_is_refused() {
    for text in [
        "", "-", ".", ".5", "-.5", "+1", "1e3", "1,5", "1.2.3", "1.-2", " 1", "1 ", "abc", "--1",
        "1-", "1.5x", "0x10",
    ] {
        assert_eq!(amount_from_decimal(text), None, "{:?}", text);
    }
}

#[test]
fn what_cannot_be_held_is_refused() {
    let most = "170141183460469231731687303715884105727";
    let least = "170141183460469231731687303715884105728";
    assert_eq!(amount_from_decimal(most), dec(i128::MAX, 0));
    assert_eq!(amount_from_decimal(least), None);
    assert_eq!(amount_from_decimal(&format!("-{}", least)), dec(i128::MIN, 0));
    assert_eq!(amount_from_decimal("-170141183460469231731687303715884105729"), None);
    assert_eq!(
        amount_from_decimal("1701411834604692317316873037158841057.27"),
        dec(i128::MAX, 2)
    );
    assert_eq!(amount_from_decimal("1701411834604692317316873037158841057.28"), None);
    assert_eq!(amount_from_decimal(&"9".repeat(60)), None);
    assert_eq!(amount_from_decimal(&format!("{}x", "9".repeat(60))), None);
    assert_eq!(
        amount_from_decimal("0.1000000000000000055511151231257827021181583404541015625"),
        None
    );
    let too_many_places = format!("0.{}", "0".repeat(256));
    assert_eq!(amount_from_decimal(&too_many_places), None);
}

#[test]
fn amounts_are_written_with_the_places_they_have() {
    let write = |units: i128, places: u8| decimal_from_amount(Decimal { units, places });
    assert_eq!(write(0, 0), "0");
    assert_eq!(write(100, 0), "100");
    assert_eq!(write(-7, 0), "-7");
    assert_eq!(write(5, 2), "0.05");
    assert_eq!(write(50, 2), "0.50");
    assert_eq!(write(10000, 2), "100.00");
    assert_eq!(write(-55, 1), "-5.5");
    assert_eq!(write(-1, 3), "-0.001");
    assert_eq!(write(0, 3), "0.000");
    assert_eq!(write(123456, 6), "0.123456");
    assert_eq!(write(1234567, 6), "1.234567");
    assert_eq!(write(i128::MAX, 0), "170141183460469231731687303715884105727");
    assert_eq!(write(i128::MIN, 2), "-1701411834604692317316873037158841057.28");
    assert_eq!(write(1, 255), format!("0.{}1", "0".repeat(254)));
}

#[test]
fn what_is_written_is_read_back() {
    for (units, places) in [
        (0, 0), (0, 9), (1, 0), (-1, 0), (1, 1), (-1, 1), (99, 2), (100, 2), (-100, 2),
        (12345, 7), (-98765, 3), (i128::MAX, 0), (i128::MIN, 0), (i128::MAX, 255), (i128::MIN, 255),
        (1, 255),
    ] {
        let amount = Decimal { units, places };
        assert_eq!(amount_from_decimal(&decimal_from_amount(amount)), Some(amount));
    }
}
