use mcinfo::text::{
    push_decimal, push_left, push_percent, push_right, push_spaces, rounded_quotient,
};

fn percent(num: u64, den: u64) -> String {
    let mut s = String::new();
    push_percent(&mut s, num, den);
    s
}

#[test]
fn decimals_are_appended() {
    let mut s = String::from("n=");
    push_decimal(&mut s, 0);
    push_decimal(&mut s, 7);
    push_decimal(&mut s, 1090);
    assert_eq!(s, "n=071090");
    let mut s = String::new();
    push_decimal(&mut s, u128::MAX);
    assert_eq!(s, "340282366920938463463374607431768211455");
}

#[test]
fn cells_are_padded() {
    let mut s = String::from("|");
    push_right(&mut s, "ab", 5);
    s.push('|');
    push_left(&mut s, "ab", 5);
    s.push('|');
    push_right(&mut s, "abcdef", 3);
    s.push('|');
    push_left(&mut s, "abcdef", 3);
    s.push('|');
    push_right(&mut s, "\u{e9}t\u{e9}", 4);
    s.push('|');
    push_spaces(&mut s, 2);
    push_spaces(&mut s, 0);
    s.push('|');
    assert_eq!(s, "|   ab|ab   |abcdef|abcdef| \u{e9}t\u{e9}|  |");
}

#[test]
fn quotients_round_to_nearest_with_ties_to_even() {
    assert_eq!(rounded_quotient(0, 3), 0);
    assert_eq!(rounded_quotient(7, 2), 4);
    assert_eq!(rounded_quotient(5, 2), 2);
    assert_eq!(rounded_quotient(1, 2), 0);
    assert_eq!(rounded_quotient(3, 2), 2);
    assert_eq!(rounded_quotient(10, 4), 2);
    assert_eq!(rounded_quotient(11, 4), 3);
    assert_eq!(rounded_quotient(9, 4), 2);
    assert_eq!(rounded_quotient(u128::MAX, 1), u128::MAX);
    assert_eq!(rounded_quotient(u128::MAX, u64::MAX as u128), 18446744073709551617);
}

#[test]
fn shares_have_two_decimals() {
    assert_eq!(percent(480, 1024), "46.88");
    assert_eq!(percent(1, 3), "33.33");
    assert_eq!(percent(2, 3), "66.67");
    assert_eq!(percent(0, 5), "0.00");
    assert_eq!(percent(5, 5), "100.00");
    assert_eq!(percent(1, 800), "0.12");
    assert_eq!(percent(3, 800), "0.38");
    assert_eq!(percent(1, 1000), "0.10");
    assert_eq!(percent(1, 20), "5.00");
    assert_eq!(percent(u64::MAX, 1), "1844674407370955161500.00");
    assert_eq!(percent(0, 0), "NaN");
    assert_eq!(percent(1, 0), "inf");
}
