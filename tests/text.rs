use cam_record_sim::text::{contains_exec, push_decimal, sort_texts, text_le_exec};

#[test]
fn decimal_digits() {
    let mut s = String::from("n=");
    push_decimal(&mut s, 0);
    assert_eq!(s, "n=0");
    let mut t = String::new();
    push_decimal(&mut t, 18_446_744_073_709_551_615);
    assert_eq!(t, "18446744073709551615");
    let mut u = String::new();
    push_decimal(&mut u, 1005);
    assert_eq!(u, "1005");
}

#[test]
fn substring_search() {
    assert!(contains_exec("abcRGGBx", "RGGB"));
    assert!(contains_exec("abc", ""));
    assert!(contains_exec("", ""));
    assert!(!contains_exec("", "a"));
    assert!(!contains_exec("RGG", "RGGB"));
    assert!(contains_exec("äöü Bayer", "Bayer"));
}

#[test]
fn text_order_and_sort() {
    assert!(text_le_exec("a", "b"));
    assert!(text_le_exec("ab", "ab"));
    assert!(text_le_exec("ab", "abc"));
    assert!(!text_le_exec("abc", "ab"));
    assert!(text_le_exec("Z", "a"));
    assert!(text_le_exec("", ""));
    let v = vec!["pear".to_string(), "apple".to_string(), "fig".to_string(), "apple".to_string()];
    let mut expected = v.clone();
    expected.sort();
    assert_eq!(sort_texts(v), expected);
}
