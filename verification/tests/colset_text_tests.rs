use smplcache::colset::ColumnSet;
use smplcache::text::{cat, i64_decimal, is_blank, str_eq, str_lt, u64_decimal, u64_hex_padded, usize_decimal};

#[test]
fn column_sets_are_sorted_without_repeats() {
    let s = ColumnSet::from_strs(&["status", "amount", "status", "customer_id"]);
    assert_eq!(s.len(), 3);
    assert_eq!(s.to_vec(), vec!["amount".to_string(), "customer_id".to_string(), "status".to_string()]);
    assert_eq!(s.get(0), "amount");
    assert_eq!(s.first().map(|x| x.as_str()), Some("amount"));
    assert!(s.contains("status"));
    assert!(!s.contains("state"));
    assert!(!s.is_empty());
    assert!(ColumnSet::new().is_empty());
    assert_eq!(ColumnSet::new().first(), None);
}

#[test]
fn column_set_insert_union_and_sharing() {
    let mut a = ColumnSet::from_strs(&["b", "d"]);
    a.insert("c".to_string());
    a.insert("b".to_string());
    assert_eq!(a.to_vec(), vec!["b", "c", "d"]);
    let b = ColumnSet::from_strs(&["a", "d", "e"]);
    let u = a.union(&b);
    assert_eq!(u.to_vec(), vec!["a", "b", "c", "d", "e"]);
    assert!(a.intersects(&b));
    assert_eq!(a.first_shared(&b), Some(2));
    assert_eq!(a.first_shared_name(&b), Some("d".to_string()));
    let c = ColumnSet::from_strs(&["x"]);
    assert!(!a.intersects(&c));
    assert_eq!(a.first_shared(&c), None);
    assert_eq!(a.clone_set(), a);
    assert_eq!(a.clone(), a);
}

#[test]
fn string_order_and_equality() {
    assert!(str_lt("amount", "status"));
    assert!(str_lt("ab", "abc"));
    assert!(!str_lt("abc", "ab"));
    assert!(!str_lt("x", "x"));
    assert!(str_eq("orders", "orders"));
    assert!(!str_eq("orders", "order"));
}

#[test]
fn number_rendering() {
    assert_eq!(u64_decimal(0), "0");
    assert_eq!(u64_decimal(18446744073709551615), "18446744073709551615");
    assert_eq!(i64_decimal(-50), "-50");
    assert_eq!(i64_decimal(i64::MIN), "-9223372036854775808");
    assert_eq!(usize_decimal(42), "42");
    assert_eq!(u64_hex_padded(0x1234), "0x0000000000001234");
    assert_eq!(u64_hex_padded(0x1234), format!("{:#018x}", 0x1234u64));
    assert_eq!(cat("a", "bc"), "abc");
}

#[test]
fn blank_strings() {
    assert!(is_blank(""));
    assert!(is_blank(" \t\n"));
    assert!(is_blank("\u{3000}"));
    assert!(!is_blank(" x "));
}
