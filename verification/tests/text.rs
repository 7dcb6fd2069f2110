use garment_inventory::text::{chars_of, contains, contains_chars, parse_i32, parse_id_list, parse_u64};
use garment_inventory::utils::{default_page, default_page_size, parse_option_u64, parse_svc};

#[test]
fn defaults_are_first_page_of_ten() {
    assert_eq!(default_page(), Some(0));
    assert_eq!(default_page_size(), Some(10));
}

#[test]
fn page_numbers_are_read_as_decimal() {
    assert_eq!(parse_option_u64(Some("42".to_string())), Some(42));
    assert_eq!(parse_option_u64(Some("+7".to_string())), Some(7));
    assert_eq!(parse_option_u64(Some("007".to_string())), Some(7));
    assert_eq!(parse_option_u64(Some("0".to_string())), Some(0));
    assert_eq!(parse_option_u64(None), None);
}

#[test]
fn page_numbers_that_are_no_number_are_absent() {
    assert_eq!(parse_option_u64(Some("abc".to_string())), None);
    assert_eq!(parse_option_u64(Some("".to_string())), None);
    assert_eq!(parse_option_u64(Some("+".to_string())), None);
    assert_eq!(parse_option_u64(Some("-1".to_string())), None);
    assert_eq!(parse_option_u64(Some("1 ".to_string())), None);
    assert_eq!(parse_option_u64(Some(" 1".to_string())), None);
    assert_eq!(parse_option_u64(Some("1.5".to_string())), None);
    assert_eq!(parse_option_u64(Some("++1".to_string())), None);
    assert_eq!(parse_option_u64(Some("١٢".to_string())), None);
}

#[test]
fn page_numbers_stop_at_the_largest_u64() {
    assert_eq!(parse_option_u64(Some("18446744073709551615".to_string())), Some(u64::MAX));
    assert_eq!(parse_option_u64(Some("18446744073709551616".to_string())), None);
    assert_eq!(parse_option_u64(Some("99999999999999999999999999".to_string())), None);
}

#[test]
fn parse_u64_agrees_with_std() {
    for text in ["0", "1", "+1", "-1", "", "+", "-", "12a", "a12", "00012", "18446744073709551615", "18446744073709551616", "+18446744073709551615", "1_000", "0x10", " 5"] {
        assert_eq!(parse_u64(text), text.parse::<u64>().ok(), "{text:?}");
    }
}

#[test]
fn parse_i32_agrees_with_std() {
    for text in ["0", "-0", "+0", "1", "+1", "-1", "", "+", "-", "--1", "+-1", "12a", "2147483647", "2147483648", "-2147483648", "-2147483649", "+2147483647", "00000000000000000001", " 5", "5 "] {
        assert_eq!(parse_i32(text), text.parse::<i32>().ok(), "{text:?}");
    }
}

#[test]
fn id_filters_skip_what_is_no_integer() {
    assert_eq!(parse_svc(Some("1,2,,x,3".to_string())), Some(vec![1, 2, 3]));
    assert_eq!(parse_svc(Some("-5,+6, 7".to_string())), Some(vec![-5, 6]));
    assert_eq!(
        parse_svc(Some("2147483647,2147483648,-2147483648".to_string())),
        Some(vec![i32::MAX, i32::MIN])
    );
}

#[test]
fn id_filters_may_be_empty_or_absent() {
    assert_eq!(parse_svc(Some("".to_string())), Some(vec![]));
    assert_eq!(parse_svc(Some(",".to_string())), Some(vec![]));
    assert_eq!(parse_svc(Some(",,,".to_string())), Some(vec![]));
    assert_eq!(parse_svc(None), None);
}

#[test]
fn id_filters_keep_order_and_repeats() {
    assert_eq!(parse_id_list("3,1,3,2"), vec![3, 1, 3, 2]);
    assert_eq!(parse_id_list("7"), vec![7]);
    assert_eq!(parse_id_list(",7,"), vec![7]);
}

#[test]
fn id_filters_agree_with_split_and_parse() {
    for text in ["", "1", "1,2", ",", "a,b", "1,,2", "-1,+2,3x,4", "10,20,30,", ",5"] {
        let expected: Vec<i32> = text.split(',').filter_map(|s| s.parse::<i32>().ok()).collect();
        assert_eq!(parse_id_list(text), expected, "{text:?}");
    }
}

#[test]
fn search_is_a_case_sensitive_substring_match() {
    assert!(contains("Summer Shirt", "Shirt"));
    assert!(contains("Summer Shirt", "mer Sh"));
    assert!(contains("Summer Shirt", "Summer Shirt"));
    assert!(contains("Summer Shirt", ""));
    assert!(contains("", ""));
    assert!(!contains("Summer Shirt", "shirt"));
    assert!(!contains("Summer Shirt", "Shirts"));
    assert!(!contains("", "a"));
    assert!(!contains("ab", "abc"));
}

#[test]
fn search_takes_percent_and_underscore_literally() {
    assert!(!contains("Shirt", "S%t"));
    assert!(!contains("Shirt", "Sh_rt"));
    assert!(contains("100% cotton", "0% c"));
}

#[test]
fn search_works_on_characters_not_bytes() {
    assert!(contains("衬衫 夏季", "夏"));
    assert!(contains("naïve", "ïv"));
    assert!(!contains("naïve", "iv"));
    assert_eq!(chars_of("衬衫"), vec!['衬', '衫']);
    assert!(contains_chars(&chars_of("aaab"), &chars_of("aab")));
    assert!(!contains_chars(&chars_of("aaab"), &chars_of("aba")));
}
