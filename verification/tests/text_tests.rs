use citoer::table::KeyedTable;
use citoer::text::{chars_of, parse_i64, parse_usize, push_decimal, push_signed_decimal, push_zero_padded, string_of};

fn cs(s: &str) -> Vec<char> {
    s.chars().collect()
}

#[test]
fn chars_round_trip() {
    let v = chars_of("héj!");
    assert_eq!(v, vec!['h', 'é', 'j', '!']);
    assert_eq!(string_of(&v), "héj!");
}

#[test]
fn parse_i64_accepts_what_std_accepts() {
    for s in ["0", "+5", "-5", "007", "-0", "9223372036854775807", "-9223372036854775808"] {
        assert_eq!(parse_i64(&cs(s)), s.parse::<i64>().ok(), "{}", s);
    }
}

#[test]
fn parse_i64_refuses_what_std_refuses() {
    for s in ["", "+", "-", "1a", " 1", "9223372036854775808", "-9223372036854775809", "1.5", "--1"] {
        assert_eq!(parse_i64(&cs(s)), None, "{}", s);
        assert!(s.parse::<i64>().is_err());
    }
}

#[test]
fn parse_usize_matches_std() {
    for s in ["0", "+12", "12", "-1", "", "+", "18446744073709551615", "18446744073709551616", "1x"] {
        assert_eq!(parse_usize(&cs(s)), s.parse::<usize>().ok(), "{}", s);
    }
}

#[test]
fn decimal_printing() {
    let mut s = String::new();
    push_decimal(&mut s, 0);
    assert_eq!(s, "0");
    let mut s = String::from("x");
    push_decimal(&mut s, 1234567890);
    assert_eq!(s, "x1234567890");
    let mut s = String::new();
    push_signed_decimal(&mut s, i64::MIN);
    assert_eq!(s, i64::MIN.to_string());
    let mut s = String::new();
    push_signed_decimal(&mut s, -42);
    assert_eq!(s, "-42");
    let mut s = String::new();
    push_zero_padded(&mut s, 216, 6);
    assert_eq!(s, "000216");
    let mut s = String::new();
    push_zero_padded(&mut s, 1234567, 6);
    assert_eq!(s, "1234567");
}

#[test]
fn keyed_table_later_entry_wins() {
    let mut t: KeyedTable<usize> = KeyedTable::new();
    assert_eq!(t.get(&"a".to_string()), None);
    t.insert("a".to_string(), 1);
    t.insert("b".to_string(), 2);
    t.insert("a".to_string(), 3);
    assert_eq!(t.get(&"a".to_string()), Some(&3));
    assert_eq!(t.get(&"b".to_string()), Some(&2));
    assert_eq!(t.get(&"c".to_string()), None);
}

#[test]
fn printed_integers_parse_back() {
    for x in [0i64, 1, -1, 42, -1000000, i64::MAX, i64::MIN] {
        let mut s = String::new();
        push_signed_decimal(&mut s, x);
        assert_eq!(parse_i64(&cs(&s)), Some(x));
    }
}
