use unity_debug_adapter::ipv4::is_ipv4;
use unity_debug_adapter::text::{glue, has_prefix, join, order_of, same_text, to_chars, TextOrder};

#[test]
fn order_of_decides_by_first_difference() {
    assert_eq!(order_of("abc", "abd"), TextOrder::Before);
    assert_eq!(order_of("abd", "abc"), TextOrder::After);
    assert_eq!(order_of("abc", "abc"), TextOrder::Same);
    assert_eq!(order_of("b", "abc"), TextOrder::After);
}

#[test]
fn order_of_puts_prefix_first() {
    assert_eq!(order_of("", "a"), TextOrder::Before);
    assert_eq!(order_of("ab", "abc"), TextOrder::Before);
    assert_eq!(order_of("abc", "ab"), TextOrder::After);
    assert_eq!(order_of("", ""), TextOrder::Same);
}

#[test]
fn order_of_is_not_by_version_number() {
    assert_eq!(order_of("1.10.0", "1.9.0"), TextOrder::Before);
    assert_eq!(order_of("1.10.0", "1.2.0"), TextOrder::Before);
}

#[test]
fn order_of_agrees_with_std_on_samples() {
    let samples = ["", "a", "ab", "b", "unity-debug-adapter-1.0", "unity-debug-adapter-1.0.1", "é", "z", "日本"];
    for a in samples {
        for b in samples {
            let expected = match a.cmp(b) {
                std::cmp::Ordering::Less => TextOrder::Before,
                std::cmp::Ordering::Equal => TextOrder::Same,
                std::cmp::Ordering::Greater => TextOrder::After,
            };
            assert_eq!(order_of(a, b), expected, "{a:?} against {b:?}");
        }
    }
}

#[test]
fn same_text_tells_equal_from_different() {
    assert!(same_text("UnityDAP", "UnityDAP"));
    assert!(!same_text("UnityDAP", "unitydap"));
    assert!(!same_text("UnityDAP", "UnityDAP "));
    assert!(same_text("", ""));
}

#[test]
fn has_prefix_on_edges() {
    assert!(has_prefix("unity-debug-adapter-1.0.0", "unity-debug-adapter"));
    assert!(has_prefix("unity-debug-adapter", "unity-debug-adapter"));
    assert!(has_prefix("anything", ""));
    assert!(!has_prefix("unity-debug", "unity-debug-adapter"));
    assert!(!has_prefix("Unity-debug-adapter-1.0.0", "unity-debug-adapter"));
    assert!(!has_prefix("", "u"));
}

#[test]
fn glue_writes_one_after_the_other() {
    assert_eq!(glue("ab", "cd"), "abcd");
    assert_eq!(glue("", "cd"), "cd");
    assert_eq!(glue("ab", ""), "ab");
}

#[test]
fn to_chars_keeps_every_character() {
    assert_eq!(to_chars("aé日"), vec!['a', 'é', '日']);
    assert_eq!(to_chars(""), Vec::<char>::new());
}

#[test]
fn join_puts_separator_between_neighbours() {
    let parts = vec!["a".to_string(), "b".to_string(), "c".to_string()];
    assert_eq!(join(&parts, "; \n  "), "a; \n  b; \n  c");
    assert_eq!(join(&vec!["only".to_string()], ", "), "only");
    assert_eq!(join(&Vec::new(), ", "), "");
    assert_eq!(join(&vec![String::new(), String::new()], "-"), "-");
}

#[test]
fn is_ipv4_accepts_dotted_quads() {
    assert!(is_ipv4("127.0.0.1"));
    assert!(is_ipv4("0.0.0.0"));
    assert!(is_ipv4("255.255.255.255"));
    assert!(is_ipv4("192.168.1.20"));
    assert!(is_ipv4("10.0.200.9"));
}

#[test]
fn is_ipv4_rejects_everything_else() {
    for text in [
        "", ".", "...", "1.2.3", "1.2.3.4.5", "1.2.3.", ".1.2.3", "1..2.3", "256.0.0.1", "1.2.3.256",
        "01.2.3.4", "1.2.3.04", "00.0.0.0", "1.2.3.4 ", " 1.2.3.4", "1.2.3.a", "localhost",
        "1234.1.1.1", "1.2.3.1000", "::1", "1.2.3.-4", "1.2.3.+4", "１.2.3.4", "999.1.1.1",
    ] {
        assert!(!is_ipv4(text), "{text:?}");
    }
}
