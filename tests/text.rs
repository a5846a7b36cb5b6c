use baba_bot::text::{parse_u64, split_words, vec_str_to_string, vec_string_to_string};

#[test]
fn joining_words() {
    assert_eq!(vec_str_to_string(&["a", "b", "c"], None), "a b c");
    assert_eq!(vec_str_to_string(&["a", "b", "c"], Some(1)), "b c");
    assert_eq!(vec_str_to_string(&["a", "b", "c"], Some(3)), "");
    let owned = vec!["x".to_string(), "y".to_string()];
    assert_eq!(vec_string_to_string(&owned, None), "x y");
    assert_eq!(vec_string_to_string(&owned, Some(1)), "y");
}

#[test]
fn splitting_words() {
    assert_eq!(split_words("  -ban\t 12\n reason  "), vec!["-ban", "12", "reason"]);
    assert!(split_words("   ").is_empty());
}

#[test]
fn reading_numbers() {
    assert_eq!(parse_u64("+12"), Some(12));
    assert_eq!(parse_u64("+"), None);
    assert_eq!(parse_u64(""), None);
    assert_eq!(parse_u64("18446744073709551615"), Some(u64::MAX));
    assert_eq!(parse_u64("18446744073709551616"), None);
    assert_eq!(parse_u64("1 2"), None);
}
