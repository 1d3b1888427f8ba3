//! Derived-key scenarios: folding, pinyin and english-initial keys.

use filego::search::keys::{fold_char, MappedText};

#[test]
fn fold_char_keeps_1_to_1_mapping_for_single_char_folds() {
    assert_eq!(fold_char('A'), 'a');
    assert_eq!(fold_char('Θ'), 'θ');
    assert_eq!(fold_char('Ж'), 'ж');
    assert_eq!(fold_char('中'), '中');
}

#[test]
fn fold_char_never_expands_multi_char_folds() {
    // These fold to more than one char in Unicode; the original is kept so
    // the key mapping stays 1:1.
    assert_eq!(fold_char('ß'), 'ß');
    assert_eq!(fold_char('İ'), 'İ');
}

#[test]
fn keys_english_initial_rule_is_whitespace_or_hyphen_words() {
    assert_eq!(MappedText::english_initial("My Documents").text, "md");
    assert_eq!(MappedText::english_initial("usb-driver").text, "ud");
    assert_eq!(
        MappedText::english_initial("My-Documents Folder").text,
        "mdf"
    );
    assert_eq!(MappedText::english_initial("Single").text, "s");
    assert_eq!(MappedText::english_initial("  -  ").text, "");
}

#[test]
fn keys_pinyin_full_is_concatenated_without_separators() {
    assert_eq!(MappedText::pinyin_full("中文").text, "zhongwen");
    assert_eq!(MappedText::pinyin_full("拼音").text, "pinyin");
    // ASCII is case-folded in place.
    assert_eq!(MappedText::pinyin_full("USB").text, "usb");
}

#[test]
fn pinyin_initial_is_first_letters() {
    assert_eq!(MappedText::pinyin_initial("中文").text, "zw");
    assert_eq!(MappedText::pinyin_initial("中国").text, "zg");
}

#[test]
fn pinyin_origins_are_monotonic_and_map_back() {
    // "中文字" -> "zhong"(5) + "wen"(3) + "zi"(2).
    let key = MappedText::pinyin_full("中文字");
    assert_eq!(key.text, "zhongwenzi");
    assert_eq!(&key.origins, &[0, 0, 0, 0, 0, 1, 1, 1, 2, 2]);
}

#[test]
fn contains_han_detects_chinese_only() {
    assert!(MappedText::contains_han("中文"));
    assert!(MappedText::contains_han("A中文"));
    assert!(!MappedText::contains_han("USB Driver"));
    assert!(!MappedText::contains_han("emoji 📁"));
}

#[test]
fn char_fold_key_maps_every_char_to_itself() {
    let key = MappedText::char_fold("AbÇ");
    assert_eq!(key.text, "abç");
    assert_eq!(&key.origins, &[0, 1, 2]);
}

#[test]
fn pinyin_keys_keep_non_han_chars_folded_in_place() {
    let key = MappedText::pinyin_full("A中");
    assert_eq!(key.text, "azhong");
    assert_eq!(&key.origins, &[0, 1, 1, 1, 1, 1]);
    let initial = MappedText::pinyin_initial("A中");
    assert_eq!(initial.text, "az");
    assert_eq!(&initial.origins, &[0, 1]);
}

#[test]
fn fold_char_lowers_ascii_letters_and_keeps_other_ascii() {
    let folded: String = "USB Driver-2".chars().map(fold_char).collect();
    assert_eq!(folded, "usb driver-2");
    assert_eq!(fold_char('Z'), 'z');
    assert_eq!(fold_char('['), '[');
}
