use minerscan::ocr::{clean_numeric_token, extract_numeric_candidates, normalize_numeric, normalize_numeric_char};

#[test]
fn normalizes_common_ocr_confusions() {
    assert_eq!(normalize_numeric("13S4O"), Some(13_540));
}

#[test]
fn extracts_value_from_surrounding_text() {
    let text = "starsync-minerscan.d\n3385\nE starsync-minerscan.exe";
    assert_eq!(extract_numeric_candidates(text), vec![3385]);
}

#[test]
fn extracts_spaced_scanner_value() {
    assert_eq!(extract_numeric_candidates("RS 7 200"), vec![7200]);
}

#[test]
fn keeps_multiple_values_separate() {
    assert_eq!(
        extract_numeric_candidates("3385 7200 13540"),
        vec![3385, 7200, 13540]
    );
}

#[test]
fn confusable_characters_map_to_digits() {
    assert_eq!(normalize_numeric_char('O'), Some('0'));
    assert_eq!(normalize_numeric_char('l'), Some('1'));
    assert_eq!(normalize_numeric_char('7'), Some('7'));
    assert_eq!(normalize_numeric_char(','), None);
    assert_eq!(normalize_numeric("abc"), None);
}

#[test]
fn candidates_are_sorted_and_unique() {
    assert_eq!(extract_numeric_candidates("7200 3385 7200"), vec![3385, 7200]);
}

#[test]
fn short_tokens_are_not_candidates() {
    assert_eq!(extract_numeric_candidates("12 99"), Vec::<u32>::new());
    assert_eq!(clean_numeric_token(&['1', '2']), Some((vec!['1', '2'], 2)));
}

#[test]
fn candidates_need_three_real_digits() {
    assert_eq!(clean_numeric_token(&['3', 'S', '8', 'S']), Some((vec!['3', '5', '8', '5'], 2)));
    assert!(extract_numeric_candidates("RS 3S8S").is_empty());
    assert_eq!(extract_numeric_candidates("RS 33S8"), vec![3358]);
    assert!(clean_numeric_token(&['x', '1']).is_none());
}

#[test]
fn values_do_not_cross_line_breaks() {
    assert_eq!(extract_numeric_candidates("7\n200"), vec![200]);
    assert_eq!(extract_numeric_candidates("7 200"), vec![7200]);
    assert_eq!(extract_numeric_candidates("3385\r\n7200"), vec![3385, 7200]);
}
