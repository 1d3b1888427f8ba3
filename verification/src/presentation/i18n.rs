//! Language model and the zh-CN / en-US message catalogs.
//!
//! The logic layer holds no presentation text: every user-visible string is
//! a catalog value resolved through [`Msg::tr`], one tested boundary.
//! System-locale detection stays in the adapter; [`Locale::detect`] is its
//! injectable projection.

use vstd::prelude::*;

use crate::text::{chars_of, decimal, decimal_chars, replace_all, replace_chars, str_equal};

verus! {

/// Supported UI languages. `zh-CN` is the product default; `en-US` is the
/// fallback for any other locale.
#[derive(Debug, Clone, Copy, PartialEq, Eq, Structural)]
pub enum Locale {
    ZhCN,
    EnUS,
}

impl Default for Locale {
    fn default() -> (r: Locale)
        ensures
            r == Locale::ZhCN,
    {
        Locale::ZhCN
    }
}

/// Whether a system locale tag names Chinese: it starts with `zh`, or is
/// `cmn`.
pub open spec fn is_chinese_tag(s: Seq<char>) -> bool {
    (s.len() >= 2 && s[0] == 'z' && s[1] == 'h') || s == seq!['c', 'm', 'n']
}

impl Locale {
    /// BCP-47 tag of the language.
    pub fn bcp47(self) -> (r: &'static str)
        ensures
            r@ == match self {
                Locale::ZhCN => "zh-CN"@,
                Locale::EnUS => "en-US"@,
            },
    {
        match self {
            Locale::ZhCN => "zh-CN",
            Locale::EnUS => "en-US",
        }
    }

    /// Projection of a system locale string onto a supported language:
    /// Chinese tags give `zh-CN`, anything else (or nothing) `en-US`.
    pub fn detect(system_default: Option<&str>) -> (r: Locale)
        ensures
            r == match system_default {
                Some(s) => if is_chinese_tag(s@) {
                    Locale::ZhCN
                } else {
                    Locale::EnUS
                },
                None => Locale::EnUS,
            },
    {
        match system_default {
            Some(locale) => {
                let cs = chars_of(locale);
                let zh = cs.len() >= 2 && cs[0] == 'z' && cs[1] == 'h';
                let cmn = cs.len() == 3 && cs[0] == 'c' && cs[1] == 'm' && cs[2] == 'n';
                assert(cmn == (cs@ == seq!['c', 'm', 'n'])) by {
                    if cmn {
                        assert(cs@ =~= seq!['c', 'm', 'n']);
                    }
                }
                if zh || cmn {
                    Locale::ZhCN
                } else {
                    Locale::EnUS
                }
            },
            None => Locale::EnUS,
        }
    }
}

/// A message id: the catalog key.
pub type MsgId = &'static str;

/// Typed message ids. Every variant has a key and a value in both catalogs.
#[derive(Debug, Clone, Copy, PartialEq, Eq, Hash, Structural)]
pub enum Msg {
    // window and search box
    SearchPlaceholder,
    Clear,
    SearchLabel,
    // empty states
    NoResultsIcon,
    EmptyHint,
    NoDataTitle,
    NoDataBody,
    FilteredOutTitle,
    FilteredOutBody,
    NoMatchTitle,
    NoMatchBody,
    // status and rows
    Inaccessible,
    InaccessibleTooltip,
    TagLabel,
    // keyboard hints
    HintNavigate,
    HintOpen,
    HintClose,
    HintToggleHints,
    // errors
    ErrorLoadTitle,
    ErrorLoadBody,
    ErrorSaveTitle,
    ErrorSaveBody,
    ErrorSearchTitle,
    ErrorSearchBody,
    // overlays and menus
    FilterPanelTitle,
    ContextMenuOpen,
    ContextMenuCopyPath,
    ContextMenuCopyName,
    // general
    AppTitle,
    KeyboardHintsBarTitle,
    /// The number of shown results, formatted into `{count}`.
    ResultsCount(u16),
}

/// The catalog key of a message.
pub open spec fn msg_key(m: Msg) -> Seq<char> {
    match m {
        Msg::SearchPlaceholder => "search.placeholder"@,
        Msg::Clear => "search.clear"@,
        Msg::SearchLabel => "search.label"@,
        Msg::NoResultsIcon => "status.no_results"@,
        Msg::EmptyHint => "status.empty_hint"@,
        Msg::NoDataTitle => "status.no_data.title"@,
        Msg::NoDataBody => "status.no_data.body"@,
        Msg::FilteredOutTitle => "status.filtered_out.title"@,
        Msg::FilteredOutBody => "status.filtered_out.body"@,
        Msg::NoMatchTitle => "status.no_match.title"@,
        Msg::NoMatchBody => "status.no_match.body"@,
        Msg::Inaccessible => "status.inaccessible"@,
        Msg::InaccessibleTooltip => "status.inaccessible.tooltip"@,
        Msg::TagLabel => "status.tag_label"@,
        Msg::HintNavigate => "hint.navigate"@,
        Msg::HintOpen => "hint.open"@,
        Msg::HintClose => "hint.close"@,
        Msg::HintToggleHints => "hint.toggle_hints"@,
        Msg::ErrorLoadTitle => "error.load.title"@,
        Msg::ErrorLoadBody => "error.load.body"@,
        Msg::ErrorSaveTitle => "error.save.title"@,
        Msg::ErrorSaveBody => "error.save.body"@,
        Msg::ErrorSearchTitle => "error.search.title"@,
        Msg::ErrorSearchBody => "error.search.body"@,
        Msg::FilterPanelTitle => "overlay.filter_panel.title"@,
        Msg::ContextMenuOpen => "contextmenu.open"@,
        Msg::ContextMenuCopyPath => "contextmenu.copy_path"@,
        Msg::ContextMenuCopyName => "contextmenu.copy_name"@,
        Msg::AppTitle => "app.title"@,
        Msg::KeyboardHintsBarTitle => "hints.bar.title"@,
        Msg::ResultsCount(_) => "status.results_count"@,
    }
}

/// The zh-CN catalog value of a message.
pub open spec fn zh_text(m: Msg) -> Seq<char> {
    match m {
        Msg::SearchPlaceholder => "搜索文件夹、标签或路径"@,
        Msg::Clear => "清除输入"@,
        Msg::SearchLabel => "搜索"@,
        Msg::NoResultsIcon => "无结果"@,
        Msg::EmptyHint => "输入关键词开始搜索"@,
        Msg::NoDataTitle => "还没有文件夹"@,
        Msg::NoDataBody => "先在设置中添加文件夹，再回来搜索。"@,
        Msg::FilteredOutTitle => "没有符合筛选的记录"@,
        Msg::FilteredOutBody => "调整或清空筛选后再试。"@,
        Msg::NoMatchTitle => "没有匹配的结果"@,
        Msg::NoMatchBody => "换个关键词，或取消筛选试试。"@,
        Msg::Inaccessible => "不可访问"@,
        Msg::InaccessibleTooltip => "此路径当前不可访问，记录保留"@,
        Msg::TagLabel => "标签"@,
        Msg::HintNavigate => "↑↓ 选择"@,
        Msg::HintOpen => "Enter 打开"@,
        Msg::HintClose => "Esc 关闭"@,
        Msg::HintToggleHints => "Alt+H 隐藏/显示提示"@,
        Msg::ErrorLoadTitle => "数据加载失败"@,
        Msg::ErrorLoadBody => "无法读取已保存的数据；损坏的文件会被保留。"@,
        Msg::ErrorSaveTitle => "保存失败"@,
        Msg::ErrorSaveBody => "更改未能保存，之前的副本未被覆盖。"@,
        Msg::ErrorSearchTitle => "搜索失败"@,
        Msg::ErrorSearchBody => "搜索无法完成，请重试。"@,
        Msg::FilterPanelTitle => "筛选"@,
        Msg::ContextMenuOpen => "打开"@,
        Msg::ContextMenuCopyPath => "复制路径"@,
        Msg::ContextMenuCopyName => "复制名称"@,
        Msg::AppTitle => "FileGo"@,
        Msg::KeyboardHintsBarTitle => "键盘提示"@,
        Msg::ResultsCount(_) => "{count} 个结果"@,
    }
}

/// The en-US catalog value of a message.
pub open spec fn en_text(m: Msg) -> Seq<char> {
    match m {
        Msg::SearchPlaceholder => "Search folders, tags or paths"@,
        Msg::Clear => "Clear input"@,
        Msg::SearchLabel => "Search"@,
        Msg::NoResultsIcon => "No results"@,
        Msg::EmptyHint => "Type to search"@,
        Msg::NoDataTitle => "No folders yet"@,
        Msg::NoDataBody => "Add folders in settings first, then come back to search."@,
        Msg::FilteredOutTitle => "No entries match the filter"@,
        Msg::FilteredOutBody => "Adjust or clear the filters and try again."@,
        Msg::NoMatchTitle => "No matching results"@,
        Msg::NoMatchBody => "Try a different keyword or clear the filters."@,
        Msg::Inaccessible => "Inaccessible"@,
        Msg::InaccessibleTooltip => "This path is currently inaccessible; the record is kept"@,
        Msg::TagLabel => "Tags"@,
        Msg::HintNavigate => "↑↓ Navigate"@,
        Msg::HintOpen => "Enter Open"@,
        Msg::HintClose => "Esc Close"@,
        Msg::HintToggleHints => "Alt+H Toggle hints"@,
        Msg::ErrorLoadTitle => "Failed to load data"@,
        Msg::ErrorLoadBody => "Stored data could not be read; a corrupt file is preserved."@,
        Msg::ErrorSaveTitle => "Failed to save"@,
        Msg::ErrorSaveBody => "The change was not saved and the previous copy was kept."@,
        Msg::ErrorSearchTitle => "Search failed"@,
        Msg::ErrorSearchBody => "The search could not be completed, try again."@,
        Msg::FilterPanelTitle => "Filters"@,
        Msg::ContextMenuOpen => "Open"@,
        Msg::ContextMenuCopyPath => "Copy path"@,
        Msg::ContextMenuCopyName => "Copy name"@,
        Msg::AppTitle => "FileGo"@,
        Msg::KeyboardHintsBarTitle => "Keyboard hints"@,
        Msg::ResultsCount(_) => "{count} results"@,
    }
}

/// The catalog value of a message in `locale`.
pub open spec fn text_of(locale: Locale, m: Msg) -> Seq<char> {
    match locale {
        Locale::ZhCN => zh_text(m),
        Locale::EnUS => en_text(m),
    }
}

/// Every message, in catalog order (the count variant stands for all counts).
pub open spec fn all_messages() -> Seq<Msg> {
    seq![
        Msg::SearchPlaceholder,
        Msg::Clear,
        Msg::SearchLabel,
        Msg::NoResultsIcon,
        Msg::EmptyHint,
        Msg::NoDataTitle,
        Msg::NoDataBody,
        Msg::FilteredOutTitle,
        Msg::FilteredOutBody,
        Msg::NoMatchTitle,
        Msg::NoMatchBody,
        Msg::Inaccessible,
        Msg::InaccessibleTooltip,
        Msg::TagLabel,
        Msg::HintNavigate,
        Msg::HintOpen,
        Msg::HintClose,
        Msg::HintToggleHints,
        Msg::ErrorLoadTitle,
        Msg::ErrorLoadBody,
        Msg::ErrorSaveTitle,
        Msg::ErrorSaveBody,
        Msg::ErrorSearchTitle,
        Msg::ErrorSearchBody,
        Msg::FilterPanelTitle,
        Msg::ContextMenuOpen,
        Msg::ContextMenuCopyPath,
        Msg::ContextMenuCopyName,
        Msg::AppTitle,
        Msg::KeyboardHintsBarTitle,
        Msg::ResultsCount(0),
    ]
}

/// The complete key set, in catalog order.
pub open spec fn all_keys_spec() -> Seq<Seq<char>> {
    all_messages().map_values(|m: Msg| msg_key(m))
}

/// The catalog of `locale`: (key, value) pairs in catalog order.
pub open spec fn catalog_spec(locale: Locale) -> Seq<(Seq<char>, Seq<char>)> {
    all_messages().map_values(|m: Msg| (msg_key(m), text_of(locale, m)))
}

/// The value of the first pair of `c` whose key is `key`.
pub open spec fn lookup(c: Seq<(Seq<char>, Seq<char>)>, key: Seq<char>) -> Option<Seq<char>>
    decreases c.len(),
{
    if c.len() == 0 {
        None
    } else if c[0].0 == key {
        Some(c[0].1)
    } else {
        lookup(c.drop_first(), key)
    }
}

/// What [`Msg::tr`] shows: the catalog value of the message's key (the key
/// itself if the catalog lacks it), with the count formatted into
/// `{count}` for the count message.
pub open spec fn translated(m: Msg, locale: Locale) -> Seq<char> {
    let value = match lookup(catalog_spec(locale), msg_key(m)) {
        Some(v) => v,
        None => msg_key(m),
    };
    match m {
        Msg::ResultsCount(n) => replace_all(value, "{count}"@, decimal(n as nat)),
        _ => value,
    }
}

/// The view of a list of string pairs.
pub open spec fn pairs_view(v: Seq<(&'static str, &'static str)>) -> Seq<(Seq<char>, Seq<char>)> {
    v.map_values(|p: (&'static str, &'static str)| (p.0@, p.1@))
}

/// The view of a list of strings.
pub open spec fn strs_view(v: Seq<&'static str>) -> Seq<Seq<char>> {
    v.map_values(|s: &'static str| s@)
}

impl Msg {
    /// The catalog key of this message.
    pub fn id(self) -> (r: &'static str)
        ensures
            r@ == msg_key(self),
    {
        match self {
            Msg::SearchPlaceholder => "search.placeholder",
            Msg::Clear => "search.clear",
            Msg::SearchLabel => "search.label",
            Msg::NoResultsIcon => "status.no_results",
            Msg::EmptyHint => "status.empty_hint",
            Msg::NoDataTitle => "status.no_data.title",
            Msg::NoDataBody => "status.no_data.body",
            Msg::FilteredOutTitle => "status.filtered_out.title",
            Msg::FilteredOutBody => "status.filtered_out.body",
            Msg::NoMatchTitle => "status.no_match.title",
            Msg::NoMatchBody => "status.no_match.body",
            Msg::Inaccessible => "status.inaccessible",
            Msg::InaccessibleTooltip => "status.inaccessible.tooltip",
            Msg::TagLabel => "status.tag_label",
            Msg::HintNavigate => "hint.navigate",
            Msg::HintOpen => "hint.open",
            Msg::HintClose => "hint.close",
            Msg::HintToggleHints => "hint.toggle_hints",
            Msg::ErrorLoadTitle => "error.load.title",
            Msg::ErrorLoadBody => "error.load.body",
            Msg::ErrorSaveTitle => "error.save.title",
            Msg::ErrorSaveBody => "error.save.body",
            Msg::ErrorSearchTitle => "error.search.title",
            Msg::ErrorSearchBody => "error.search.body",
            Msg::FilterPanelTitle => "overlay.filter_panel.title",
            Msg::ContextMenuOpen => "contextmenu.open",
            Msg::ContextMenuCopyPath => "contextmenu.copy_path",
            Msg::ContextMenuCopyName => "contextmenu.copy_name",
            Msg::AppTitle => "app.title",
            Msg::KeyboardHintsBarTitle => "hints.bar.title",
            Msg::ResultsCount(_) => "status.results_count",
        }
    }

    /// Resolves this message in `locale` (see [`translated`]).
    pub fn tr(self, locale: Locale) -> (r: String)
        ensures
            r@ == translated(self, locale),
    {
        let table = catalog(locale);
        let key = self.id();
        let mut found: Option<&'static str> = None;
        let mut i: usize = 0;
        assert(pairs_view(table@).skip(0) == pairs_view(table@));
        while i < table.len()
            invariant
                i <= table@.len(),
                pairs_view(table@) == catalog_spec(locale),
                key@ == msg_key(self),
                lookup(catalog_spec(locale), msg_key(self)) == match found {
                    Some(v) => Some(v@),
                    None => lookup(pairs_view(table@).skip(i as int), key@),
                },
                found is Some ==> i == table@.len(),
            decreases table@.len() - i,
        {
            let ghost rest = pairs_view(table@).skip(i as int);
            assert(rest.drop_first() == pairs_view(table@).skip(i + 1));
            let (k, v) = table[i];
            if str_equal(k, key) {
                found = Some(v);
                i = table.len();
            } else {
                i = i + 1;
            }
        }
        let value = match found {
            Some(v) => v,
            None => key,
        };
        let chars = chars_of(value);
        match self {
            Msg::ResultsCount(count) => {
                let pattern = chars_of("{count}");
                proof {
                    reveal_strlit("{count}");
                }
                let digits = decimal_chars(count as u64);
                let replaced = replace_chars(&chars, &pattern, &digits);
                crate::text::string_from_chars(&replaced)
            },
            _ => crate::text::string_from_chars(&chars),
        }
    }
}

/// The complete key set, in catalog order.
pub fn all_keys() -> (r: Vec<&'static str>)
    ensures
        strs_view(r@) == all_keys_spec(),
{
    let r = vec![
        "search.placeholder",
        "search.clear",
        "search.label",
        "status.no_results",
        "status.empty_hint",
        "status.no_data.title",
        "status.no_data.body",
        "status.filtered_out.title",
        "status.filtered_out.body",
        "status.no_match.title",
        "status.no_match.body",
        "status.inaccessible",
        "status.inaccessible.tooltip",
        "status.tag_label",
        "hint.navigate",
        "hint.open",
        "hint.close",
        "hint.toggle_hints",
        "error.load.title",
        "error.load.body",
        "error.save.title",
        "error.save.body",
        "error.search.title",
        "error.search.body",
        "overlay.filter_panel.title",
        "contextmenu.open",
        "contextmenu.copy_path",
        "contextmenu.copy_name",
        "app.title",
        "hints.bar.title",
        "status.results_count",
    ];
    assert(strs_view(r@) =~= all_keys_spec());
    r
}

/// The catalog of `locale`: every key with its translation, in catalog order.
pub fn catalog(locale: Locale) -> (r: Vec<(&'static str, &'static str)>)
    ensures
        pairs_view(r@) == catalog_spec(locale),
{
    match locale {
        Locale::ZhCN => {
            let r = vec![
                ("search.placeholder", "搜索文件夹、标签或路径"),
                ("search.clear", "清除输入"),
                ("search.label", "搜索"),
                ("status.no_results", "无结果"),
                ("status.empty_hint", "输入关键词开始搜索"),
                ("status.no_data.title", "还没有文件夹"),
                ("status.no_data.body", "先在设置中添加文件夹，再回来搜索。"),
                ("status.filtered_out.title", "没有符合筛选的记录"),
                ("status.filtered_out.body", "调整或清空筛选后再试。"),
                ("status.no_match.title", "没有匹配的结果"),
                ("status.no_match.body", "换个关键词，或取消筛选试试。"),
                ("status.inaccessible", "不可访问"),
                ("status.inaccessible.tooltip", "此路径当前不可访问，记录保留"),
                ("status.tag_label", "标签"),
                ("hint.navigate", "↑↓ 选择"),
                ("hint.open", "Enter 打开"),
                ("hint.close", "Esc 关闭"),
                ("hint.toggle_hints", "Alt+H 隐藏/显示提示"),
                ("error.load.title", "数据加载失败"),
                ("error.load.body", "无法读取已保存的数据；损坏的文件会被保留。"),
                ("error.save.title", "保存失败"),
                ("error.save.body", "更改未能保存，之前的副本未被覆盖。"),
                ("error.search.title", "搜索失败"),
                ("error.search.body", "搜索无法完成，请重试。"),
                ("overlay.filter_panel.title", "筛选"),
                ("contextmenu.open", "打开"),
                ("contextmenu.copy_path", "复制路径"),
                ("contextmenu.copy_name", "复制名称"),
                ("app.title", "FileGo"),
                ("hints.bar.title", "键盘提示"),
                ("status.results_count", "{count} 个结果"),
            ];
            assert(pairs_view(r@) =~= catalog_spec(locale));
            r
        },
        Locale::EnUS => {
            let r = vec![
                ("search.placeholder", "Search folders, tags or paths"),
                ("search.clear", "Clear input"),
                ("search.label", "Search"),
                ("status.no_results", "No results"),
                ("status.empty_hint", "Type to search"),
                ("status.no_data.title", "No folders yet"),
                ("status.no_data.body", "Add folders in settings first, then come back to search."),
                ("status.filtered_out.title", "No entries match the filter"),
                ("status.filtered_out.body", "Adjust or clear the filters and try again."),
                ("status.no_match.title", "No matching results"),
                ("status.no_match.body", "Try a different keyword or clear the filters."),
                ("status.inaccessible", "Inaccessible"),
                ("status.inaccessible.tooltip", "This path is currently inaccessible; the record is kept"),
                ("status.tag_label", "Tags"),
                ("hint.navigate", "↑↓ Navigate"),
                ("hint.open", "Enter Open"),
                ("hint.close", "Esc Close"),
                ("hint.toggle_hints", "Alt+H Toggle hints"),
                ("error.load.title", "Failed to load data"),
                ("error.load.body", "Stored data could not be read; a corrupt file is preserved."),
                ("error.save.title", "Failed to save"),
                ("error.save.body", "The change was not saved and the previous copy was kept."),
                ("error.search.title", "Search failed"),
                ("error.search.body", "The search could not be completed, try again."),
                ("overlay.filter_panel.title", "Filters"),
                ("contextmenu.open", "Open"),
                ("contextmenu.copy_path", "Copy path"),
                ("contextmenu.copy_name", "Copy name"),
                ("app.title", "FileGo"),
                ("hints.bar.title", "Keyboard hints"),
                ("status.results_count", "{count} results"),
            ];
            assert(pairs_view(r@) =~= catalog_spec(locale));
            r
        },
    }
}

/// Position of a message in the catalog order.
pub open spec fn catalog_index(m: Msg) -> int {
    match m {
        Msg::SearchPlaceholder => 0,
        Msg::Clear => 1,
        Msg::SearchLabel => 2,
        Msg::NoResultsIcon => 3,
        Msg::EmptyHint => 4,
        Msg::NoDataTitle => 5,
        Msg::NoDataBody => 6,
        Msg::FilteredOutTitle => 7,
        Msg::FilteredOutBody => 8,
        Msg::NoMatchTitle => 9,
        Msg::NoMatchBody => 10,
        Msg::Inaccessible => 11,
        Msg::InaccessibleTooltip => 12,
        Msg::TagLabel => 13,
        Msg::HintNavigate => 14,
        Msg::HintOpen => 15,
        Msg::HintClose => 16,
        Msg::HintToggleHints => 17,
        Msg::ErrorLoadTitle => 18,
        Msg::ErrorLoadBody => 19,
        Msg::ErrorSaveTitle => 20,
        Msg::ErrorSaveBody => 21,
        Msg::ErrorSearchTitle => 22,
        Msg::ErrorSearchBody => 23,
        Msg::FilterPanelTitle => 24,
        Msg::ContextMenuOpen => 25,
        Msg::ContextMenuCopyPath => 26,
        Msg::ContextMenuCopyName => 27,
        Msg::AppTitle => 28,
        Msg::KeyboardHintsBarTitle => 29,
        Msg::ResultsCount(_) => 30,
    }
}

/// Length, eighth character and last character of a key: enough to tell the
/// catalog keys apart.
spec fn key_signature(key: Seq<char>) -> (nat, char, char) {
    (key.len(), key[7], key[key.len() - 1])
}

/// The catalog position of the key with signature `sig` (-1 for none).
spec fn index_of_signature(sig: (nat, char, char)) -> int {
    if sig == (18nat, 'p', 'r') {
        0
    } else if sig == (12nat, 'c', 'r') {
        1
    } else if sig == (12nat, 'l', 'l') {
        2
    } else if sig == (17nat, 'n', 's') {
        3
    } else if sig == (17nat, 'e', 't') {
        4
    } else if sig == (20nat, 'n', 'e') {
        5
    } else if sig == (19nat, 'n', 'y') {
        6
    } else if sig == (25nat, 'f', 'e') {
        7
    } else if sig == (24nat, 'f', 'y') {
        8
    } else if sig == (21nat, 'n', 'e') {
        9
    } else if sig == (20nat, 'n', 'y') {
        10
    } else if sig == (19nat, 'i', 'e') {
        11
    } else if sig == (27nat, 'i', 'p') {
        12
    } else if sig == (16nat, 't', 'l') {
        13
    } else if sig == (13nat, 'v', 'e') {
        14
    } else if sig == (9nat, 'e', 'n') {
        15
    } else if sig == (10nat, 'o', 'e') {
        16
    } else if sig == (17nat, 'g', 's') {
        17
    } else if sig == (16nat, 'o', 'e') {
        18
    } else if sig == (15nat, 'o', 'y') {
        19
    } else if sig == (16nat, 'a', 'e') {
        20
    } else if sig == (15nat, 'a', 'y') {
        21
    } else if sig == (18nat, 'e', 'e') {
        22
    } else if sig == (17nat, 'e', 'y') {
        23
    } else if sig == (26nat, '.', 'e') {
        24
    } else if sig == (16nat, 'm', 'n') {
        25
    } else if sig == (21nat, 'm', 'h') {
        26
    } else if sig == (21nat, 'm', 'e') {
        27
    } else if sig == (9nat, 'l', 'e') {
        28
    } else if sig == (15nat, 'a', 'e') {
        29
    } else if sig == (20nat, 'r', 't') {
        30
    } else {
        -1
    }
}

proof fn lemma_key_signature(m: Msg)
    ensures
        index_of_signature(key_signature(msg_key(m))) == catalog_index(m),
{
    match m {
        Msg::SearchPlaceholder => {
            reveal_strlit("search.placeholder");
        },
        Msg::Clear => {
            reveal_strlit("search.clear");
        },
        Msg::SearchLabel => {
            reveal_strlit("search.label");
        },
        Msg::NoResultsIcon => {
            reveal_strlit("status.no_results");
        },
        Msg::EmptyHint => {
            reveal_strlit("status.empty_hint");
        },
        Msg::NoDataTitle => {
            reveal_strlit("status.no_data.title");
        },
        Msg::NoDataBody => {
            reveal_strlit("status.no_data.body");
        },
        Msg::FilteredOutTitle => {
            reveal_strlit("status.filtered_out.title");
        },
        Msg::FilteredOutBody => {
            reveal_strlit("status.filtered_out.body");
        },
        Msg::NoMatchTitle => {
            reveal_strlit("status.no_match.title");
        },
        Msg::NoMatchBody => {
            reveal_strlit("status.no_match.body");
        },
        Msg::Inaccessible => {
            reveal_strlit("status.inaccessible");
        },
        Msg::InaccessibleTooltip => {
            reveal_strlit("status.inaccessible.tooltip");
        },
        Msg::TagLabel => {
            reveal_strlit("status.tag_label");
        },
        Msg::HintNavigate => {
            reveal_strlit("hint.navigate");
        },
        Msg::HintOpen => {
            reveal_strlit("hint.open");
        },
        Msg::HintClose => {
            reveal_strlit("hint.close");
        },
        Msg::HintToggleHints => {
            reveal_strlit("hint.toggle_hints");
        },
        Msg::ErrorLoadTitle => {
            reveal_strlit("error.load.title");
        },
        Msg::ErrorLoadBody => {
            reveal_strlit("error.load.body");
        },
        Msg::ErrorSaveTitle => {
            reveal_strlit("error.save.title");
        },
        Msg::ErrorSaveBody => {
            reveal_strlit("error.save.body");
        },
        Msg::ErrorSearchTitle => {
            reveal_strlit("error.search.title");
        },
        Msg::ErrorSearchBody => {
            reveal_strlit("error.search.body");
        },
        Msg::FilterPanelTitle => {
            reveal_strlit("overlay.filter_panel.title");
        },
        Msg::ContextMenuOpen => {
            reveal_strlit("contextmenu.open");
        },
        Msg::ContextMenuCopyPath => {
            reveal_strlit("contextmenu.copy_path");
        },
        Msg::ContextMenuCopyName => {
            reveal_strlit("contextmenu.copy_name");
        },
        Msg::AppTitle => {
            reveal_strlit("app.title");
        },
        Msg::KeyboardHintsBarTitle => {
            reveal_strlit("hints.bar.title");
        },
        Msg::ResultsCount(_) => {
            reveal_strlit("status.results_count");
        },
    }
}

proof fn lemma_text_nonempty(m: Msg)
    ensures
        zh_text(m).len() > 0,
        en_text(m).len() > 0,
{
    match m {
        Msg::SearchPlaceholder => {
            reveal_strlit("搜索文件夹、标签或路径");
            reveal_strlit("Search folders, tags or paths");
        },
        Msg::Clear => {
            reveal_strlit("清除输入");
            reveal_strlit("Clear input");
        },
        Msg::SearchLabel => {
            reveal_strlit("搜索");
            reveal_strlit("Search");
        },
        Msg::NoResultsIcon => {
            reveal_strlit("无结果");
            reveal_strlit("No results");
        },
        Msg::EmptyHint => {
            reveal_strlit("输入关键词开始搜索");
            reveal_strlit("Type to search");
        },
        Msg::NoDataTitle => {
            reveal_strlit("还没有文件夹");
            reveal_strlit("No folders yet");
        },
        Msg::NoDataBody => {
            reveal_strlit("先在设置中添加文件夹，再回来搜索。");
            reveal_strlit("Add folders in settings first, then come back to search.");
        },
        Msg::FilteredOutTitle => {
            reveal_strlit("没有符合筛选的记录");
            reveal_strlit("No entries match the filter");
        },
        Msg::FilteredOutBody => {
            reveal_strlit("调整或清空筛选后再试。");
            reveal_strlit("Adjust or clear the filters and try again.");
        },
        Msg::NoMatchTitle => {
            reveal_strlit("没有匹配的结果");
            reveal_strlit("No matching results");
        },
        Msg::NoMatchBody => {
            reveal_strlit("换个关键词，或取消筛选试试。");
            reveal_strlit("Try a different keyword or clear the filters.");
        },
        Msg::Inaccessible => {
            reveal_strlit("不可访问");
            reveal_strlit("Inaccessible");
        },
        Msg::InaccessibleTooltip => {
            reveal_strlit("此路径当前不可访问，记录保留");
            reveal_strlit("This path is currently inaccessible; the record is kept");
        },
        Msg::TagLabel => {
            reveal_strlit("标签");
            reveal_strlit("Tags");
        },
        Msg::HintNavigate => {
            reveal_strlit("↑↓ 选择");
            reveal_strlit("↑↓ Navigate");
        },
        Msg::HintOpen => {
            reveal_strlit("Enter 打开");
            reveal_strlit("Enter Open");
        },
        Msg::HintClose => {
            reveal_strlit("Esc 关闭");
            reveal_strlit("Esc Close");
        },
        Msg::HintToggleHints => {
            reveal_strlit("Alt+H 隐藏/显示提示");
            reveal_strlit("Alt+H Toggle hints");
        },
        Msg::ErrorLoadTitle => {
            reveal_strlit("数据加载失败");
            reveal_strlit("Failed to load data");
        },
        Msg::ErrorLoadBody => {
            reveal_strlit("无法读取已保存的数据；损坏的文件会被保留。");
            reveal_strlit("Stored data could not be read; a corrupt file is preserved.");
        },
        Msg::ErrorSaveTitle => {
            reveal_strlit("保存失败");
            reveal_strlit("Failed to save");
        },
        Msg::ErrorSaveBody => {
            reveal_strlit("更改未能保存，之前的副本未被覆盖。");
            reveal_strlit("The change was not saved and the previous copy was kept.");
        },
        Msg::ErrorSearchTitle => {
            reveal_strlit("搜索失败");
            reveal_strlit("Search failed");
        },
        Msg::ErrorSearchBody => {
            reveal_strlit("搜索无法完成，请重试。");
            reveal_strlit("The search could not be completed, try again.");
        },
        Msg::FilterPanelTitle => {
            reveal_strlit("筛选");
            reveal_strlit("Filters");
        },
        Msg::ContextMenuOpen => {
            reveal_strlit("打开");
            reveal_strlit("Open");
        },
        Msg::ContextMenuCopyPath => {
            reveal_strlit("复制路径");
            reveal_strlit("Copy path");
        },
        Msg::ContextMenuCopyName => {
            reveal_strlit("复制名称");
            reveal_strlit("Copy name");
        },
        Msg::AppTitle => {
            reveal_strlit("FileGo");
            reveal_strlit("FileGo");
        },
        Msg::KeyboardHintsBarTitle => {
            reveal_strlit("键盘提示");
            reveal_strlit("Keyboard hints");
        },
        Msg::ResultsCount(_) => {
            reveal_strlit("{count} 个结果");
            reveal_strlit("{count} results");
        },
    }
}

proof fn lemma_catalog_order(j: int)
    requires
        0 <= j < all_messages().len(),
    ensures
        catalog_index(all_messages()[j]) == j,
{
    if j == 0 {
    } else if j == 1 {
    } else if j == 2 {
    } else if j == 3 {
    } else if j == 4 {
    } else if j == 5 {
    } else if j == 6 {
    } else if j == 7 {
    } else if j == 8 {
    } else if j == 9 {
    } else if j == 10 {
    } else if j == 11 {
    } else if j == 12 {
    } else if j == 13 {
    } else if j == 14 {
    } else if j == 15 {
    } else if j == 16 {
    } else if j == 17 {
    } else if j == 18 {
    } else if j == 19 {
    } else if j == 20 {
    } else if j == 21 {
    } else if j == 22 {
    } else if j == 23 {
    } else if j == 24 {
    } else if j == 25 {
    } else if j == 26 {
    } else if j == 27 {
    } else if j == 28 {
    } else if j == 29 {
    } else if j == 30 {
    } else {
    }
}

proof fn lemma_lookup_first(c: Seq<(Seq<char>, Seq<char>)>, key: Seq<char>, k: int)
    requires
        0 <= k < c.len(),
        c[k].0 == key,
        forall|j: int| 0 <= j < k ==> #[trigger] c[j].0 != key,
    ensures
        lookup(c, key) == Some(c[k].1),
    decreases k,
{
    if k > 0 {
        assert(c[0].0 != key);
        assert forall|j: int| 0 <= j < k - 1 implies #[trigger] c.drop_first()[j].0 != key by {
            assert(c.drop_first()[j] == c[j + 1]);
        }
        lemma_lookup_first(c.drop_first(), key, k - 1);
    }
}

/// Law: no two catalog entries share a key.
pub proof fn lemma_catalog_keys_distinct()
    ensures
        forall|a: int, b: int| 0 <= a < b < all_keys_spec().len() ==> #[trigger] all_keys_spec()[a] != #[trigger] all_keys_spec()[b],
{
    assert forall|a: int, b: int| 0 <= a < b < all_keys_spec().len() implies #[trigger] all_keys_spec()[a] != #[trigger] all_keys_spec()[b] by {
        lemma_catalog_order(a);
        lemma_catalog_order(b);
        lemma_key_signature(all_messages()[a]);
        lemma_key_signature(all_messages()[b]);
    }
}

/// Law: every message resolves in both locales to that locale's own
/// non-empty catalog text, never to its key; the count message gets its count
/// formatted into `{count}`.
pub proof fn lemma_every_message_resolves(m: Msg, locale: Locale)
    ensures
        lookup(catalog_spec(locale), msg_key(m)) == Some(text_of(locale, m)),
        text_of(locale, m).len() > 0,
        translated(m, locale) == match m {
            Msg::ResultsCount(n) => replace_all(text_of(locale, m), "{count}"@, decimal(n as nat)),
            _ => text_of(locale, m),
        },
{
    let c = catalog_spec(locale);
    let k = catalog_index(m);
    let key = msg_key(m);
    lemma_text_nonempty(m);
    lemma_key_signature(m);
    lemma_catalog_order(k);
    assert(msg_key(all_messages()[k]) == key && text_of(locale, all_messages()[k]) == text_of(locale, m)) by {
        match m {
            Msg::SearchPlaceholder => assert(all_messages()[0] == Msg::SearchPlaceholder),
            Msg::Clear => assert(all_messages()[1] == Msg::Clear),
            Msg::SearchLabel => assert(all_messages()[2] == Msg::SearchLabel),
            Msg::NoResultsIcon => assert(all_messages()[3] == Msg::NoResultsIcon),
            Msg::EmptyHint => assert(all_messages()[4] == Msg::EmptyHint),
            Msg::NoDataTitle => assert(all_messages()[5] == Msg::NoDataTitle),
            Msg::NoDataBody => assert(all_messages()[6] == Msg::NoDataBody),
            Msg::FilteredOutTitle => assert(all_messages()[7] == Msg::FilteredOutTitle),
            Msg::FilteredOutBody => assert(all_messages()[8] == Msg::FilteredOutBody),
            Msg::NoMatchTitle => assert(all_messages()[9] == Msg::NoMatchTitle),
            Msg::NoMatchBody => assert(all_messages()[10] == Msg::NoMatchBody),
            Msg::Inaccessible => assert(all_messages()[11] == Msg::Inaccessible),
            Msg::InaccessibleTooltip => assert(all_messages()[12] == Msg::InaccessibleTooltip),
            Msg::TagLabel => assert(all_messages()[13] == Msg::TagLabel),
            Msg::HintNavigate => assert(all_messages()[14] == Msg::HintNavigate),
            Msg::HintOpen => assert(all_messages()[15] == Msg::HintOpen),
            Msg::HintClose => assert(all_messages()[16] == Msg::HintClose),
            Msg::HintToggleHints => assert(all_messages()[17] == Msg::HintToggleHints),
            Msg::ErrorLoadTitle => assert(all_messages()[18] == Msg::ErrorLoadTitle),
            Msg::ErrorLoadBody => assert(all_messages()[19] == Msg::ErrorLoadBody),
            Msg::ErrorSaveTitle => assert(all_messages()[20] == Msg::ErrorSaveTitle),
            Msg::ErrorSaveBody => assert(all_messages()[21] == Msg::ErrorSaveBody),
            Msg::ErrorSearchTitle => assert(all_messages()[22] == Msg::ErrorSearchTitle),
            Msg::ErrorSearchBody => assert(all_messages()[23] == Msg::ErrorSearchBody),
            Msg::FilterPanelTitle => assert(all_messages()[24] == Msg::FilterPanelTitle),
            Msg::ContextMenuOpen => assert(all_messages()[25] == Msg::ContextMenuOpen),
            Msg::ContextMenuCopyPath => assert(all_messages()[26] == Msg::ContextMenuCopyPath),
            Msg::ContextMenuCopyName => assert(all_messages()[27] == Msg::ContextMenuCopyName),
            Msg::AppTitle => assert(all_messages()[28] == Msg::AppTitle),
            Msg::KeyboardHintsBarTitle => assert(all_messages()[29] == Msg::KeyboardHintsBarTitle),
            Msg::ResultsCount(_) => assert(all_messages()[30] == Msg::ResultsCount(0)),
        }
    }
    assert forall|j: int| 0 <= j < k implies #[trigger] c[j].0 != key by {
        lemma_catalog_order(j);
        lemma_key_signature(all_messages()[j]);
    }
    lemma_lookup_first(c, key, k);
}

/// Law: two messages share a catalog key exactly when they are the same
/// message or both are the results count (whatever the counts); every key is
/// one of the complete key set, and every key of the set belongs to a message.
pub proof fn lemma_message_keys(m1: Msg, m2: Msg, i: int)
    ensures
        msg_key(m1) == msg_key(m2) <==> (m1 == m2 || (m1 is ResultsCount && m2 is ResultsCount)),
        all_keys_spec().contains(msg_key(m1)),
        0 <= i < all_keys_spec().len() ==> all_keys_spec()[i] == msg_key(all_messages()[i]),
{
    lemma_key_signature(m1);
    lemma_key_signature(m2);
    lemma_catalog_order(catalog_index(m1));
    let k = catalog_index(m1);
    assert(msg_key(all_messages()[k]) == msg_key(m1)) by {
        lemma_key_signature(all_messages()[k]);
    }
    assert(all_keys_spec()[k] == msg_key(m1));
    if msg_key(m1) == msg_key(m2) {
        assert(catalog_index(m1) == catalog_index(m2));
    }
}

} // verus!
