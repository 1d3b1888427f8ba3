//! Locale and message-catalog scenarios.

use filego::presentation::i18n::{all_keys, catalog, Locale, Msg};

fn collect_into<'a>(table: &'a [(&'a str, &'a str)], map: &mut Vec<(&'a str, &'a str)>) {
    map.extend_from_slice(table);
}

fn catalog_value(locale: Locale, key: &str) -> &'static str {
    catalog(locale)
        .iter()
        .find(|(k, _)| *k == key)
        .map(|(_, v)| *v)
        .unwrap_or("")
}

#[test]
fn every_key_exists_in_both_catalogs_with_no_duplicates() {
    let keys = all_keys();
    for (locale, table) in [
        (Locale::ZhCN, catalog(Locale::ZhCN)),
        (Locale::EnUS, catalog(Locale::EnUS)),
    ] {
        let mut map = Vec::new();
        collect_into(&table, &mut map);
        // no duplicate key
        for i in 0..map.len() {
            for j in (i + 1)..map.len() {
                assert_ne!(map[i].0, map[j].0, "duplicate key in {locale:?}");
            }
        }
        for key in &keys {
            assert!(
                map.iter().any(|(k, _)| *k == *key),
                "key {key:?} missing from {locale:?}"
            );
        }
        assert_eq!(map.len(), keys.len(), "extra keys in {locale:?}");
    }
}

#[test]
fn same_key_count_in_zh_and_en() {
    assert_eq!(catalog(Locale::ZhCN).len(), catalog(Locale::EnUS).len());
}

#[test]
fn every_message_resolves_to_nonempty_text_in_both_locales() {
    for locale in [Locale::ZhCN, Locale::EnUS] {
        for key in all_keys() {
            let value = catalog_value(locale, key);
            assert!(!value.is_empty(), "{key:?} is empty in {locale:?}");
        }
    }
}

#[test]
fn results_count_formats_the_count_in_both_locales() {
    let zh = Msg::ResultsCount(7).tr(Locale::ZhCN);
    let en = Msg::ResultsCount(7).tr(Locale::EnUS);
    assert!(zh.contains('7'));
    assert!(en.contains('7'));
}

#[test]
fn detection_defaults_to_chinese_only_for_chinese_locales() {
    assert_eq!(Locale::detect(Some("zh-CN")), Locale::ZhCN);
    assert_eq!(Locale::detect(Some("zh-Hans-CN")), Locale::ZhCN);
    assert_eq!(Locale::detect(Some("en-US")), Locale::EnUS);
    assert_eq!(Locale::detect(Some("fr-FR")), Locale::EnUS);
    assert_eq!(Locale::detect(None), Locale::EnUS);
    // Default is zh-CN (product default).
    assert_eq!(Locale::default(), Locale::ZhCN);
}

#[test]
fn cmn_is_detected_as_chinese() {
    assert_eq!(Locale::detect(Some("cmn")), Locale::ZhCN);
    assert_eq!(Locale::detect(Some("cmnx")), Locale::EnUS);
    assert_eq!(Locale::detect(Some("z")), Locale::EnUS);
}

#[test]
fn results_count_is_formatted_exactly() {
    assert_eq!(Msg::ResultsCount(7).tr(Locale::EnUS), "7 results");
    assert_eq!(Msg::ResultsCount(0).tr(Locale::ZhCN), "0 个结果");
    assert_eq!(Msg::ResultsCount(65535).tr(Locale::EnUS), "65535 results");
}

#[test]
fn messages_resolve_to_their_catalog_text() {
    assert_eq!(Msg::Clear.tr(Locale::EnUS), "Clear input");
    assert_eq!(Msg::Clear.tr(Locale::ZhCN), "清除输入");
    assert_eq!(Msg::NoMatchTitle.id(), "status.no_match.title");
    assert_eq!(Msg::ResultsCount(3).id(), "status.results_count");
}

#[test]
fn bcp47_tags() {
    assert_eq!(Locale::ZhCN.bcp47(), "zh-CN");
    assert_eq!(Locale::EnUS.bcp47(), "en-US");
}
