//! Domain vocabulary shared by the search core, the presentation layer and
//! storage: record identifiers, folder records, categories, tags, hotkey
//! combinations and the user settings that steer search.
//!
//! Instants are held as milliseconds since the Unix epoch (UTC).

use vstd::prelude::*;

verus! {

/// Identifier of a folder record (a UUID, held as its 128-bit value).
#[derive(Debug, Clone, Copy, PartialEq, Eq, Hash, Structural)]
pub struct FolderId {
    value: u128,
}

impl FolderId {
    /// The id with the given 128-bit UUID value.
    pub fn from_u128(value: u128) -> (r: FolderId)
        ensures
            r.value() == value,
    {
        FolderId { value }
    }

    /// The 128-bit UUID value of this id.
    pub closed spec fn value(self) -> u128 {
        self.value
    }

    /// The 128-bit UUID value of this id. UUIDs order by this value.
    pub fn as_u128(&self) -> (r: u128)
        ensures
            r == self.value(),
    {
        self.value
    }
}

/// Identifier of a category record.
#[derive(Debug, Clone, Copy, PartialEq, Eq, Hash, Structural)]
pub struct CategoryId {
    value: u128,
}

impl CategoryId {
    /// The id with the given 128-bit UUID value.
    pub fn from_u128(value: u128) -> (r: CategoryId)
        ensures
            r.value() == value,
    {
        CategoryId { value }
    }

    /// The 128-bit UUID value of this id.
    pub closed spec fn value(self) -> u128 {
        self.value
    }

    /// The 128-bit UUID value of this id.
    pub fn as_u128(&self) -> (r: u128)
        ensures
            r == self.value(),
    {
        self.value
    }
}

/// Identifier of a tag record.
#[derive(Debug, Clone, Copy, PartialEq, Eq, Hash, Structural)]
pub struct TagId {
    value: u128,
}

impl TagId {
    /// The id with the given 128-bit UUID value.
    pub fn from_u128(value: u128) -> (r: TagId)
        ensures
            r.value() == value,
    {
        TagId { value }
    }

    /// The 128-bit UUID value of this id.
    pub closed spec fn value(self) -> u128 {
        self.value
    }

    /// The 128-bit UUID value of this id.
    pub fn as_u128(&self) -> (r: u128)
        ensures
            r == self.value(),
    {
        self.value
    }
}

/// Colour of a folder or category swatch, packed RGBA.
#[derive(Debug, Clone, Copy, PartialEq, Eq, Hash, Structural)]
pub struct FolderColor(pub u32);

/// One saved folder record.
#[derive(Debug, Clone, PartialEq, Eq)]
pub struct FolderEntry {
    pub id: FolderId,
    pub display_name: String,
    pub aliases: Vec<String>,
    pub path: String,
    pub enabled: bool,
    pub favorite: bool,
    pub pinned: bool,
    pub manual_weight: i16,
    pub category_id: Option<CategoryId>,
    pub tag_ids: Vec<TagId>,
    pub note: String,
    pub color: Option<FolderColor>,
    pub sort_order: i64,
    /// When the record was created (ms since the epoch).
    pub created_at: i64,
    /// When the record was last changed (ms since the epoch).
    pub updated_at: i64,
    /// When the folder was last opened (ms since the epoch), if ever.
    pub last_opened_at: Option<i64>,
    pub open_count: u64,
}

/// A category a folder may belong to.
#[derive(Debug, Clone, PartialEq, Eq)]
pub struct Category {
    pub id: CategoryId,
    pub name: String,
    pub color: Option<FolderColor>,
}

/// A tag folders may carry.
#[derive(Debug, Clone, PartialEq, Eq)]
pub struct Tag {
    pub id: TagId,
    pub name: String,
}

/// The stored data block: settings, records and the document revision.
#[derive(Debug, Clone, PartialEq, Eq)]
pub struct AppData {
    pub settings: AppSettings,
    pub folders: Vec<FolderEntry>,
    pub categories: Vec<Category>,
    pub tags: Vec<Tag>,
    pub revision: u64,
}

/// The non-modifier key of a global hotkey.
#[derive(Debug, Clone, Copy, PartialEq, Eq, Hash, Structural)]
pub enum HotkeyKey {
    /// A virtual-key code (Space to Z).
    Vk { vk: u8 },
    /// Function key F1.. (1-based).
    Function { index: u8 },
}

/// The modifier set of a global hotkey.
#[derive(Debug, Clone, Copy, PartialEq, Eq, Hash, Structural)]
pub struct HotkeyModifiers {
    pub control: bool,
    pub alt: bool,
    pub shift: bool,
    pub win: bool,
}

impl Default for HotkeyModifiers {
    fn default() -> (r: HotkeyModifiers)
        ensures
            !r.control && !r.alt && !r.shift && !r.win,
    {
        HotkeyModifiers { control: false, alt: false, shift: false, win: false }
    }
}

/// A complete global hotkey combination.
#[derive(Debug, Clone, Copy, PartialEq, Eq, Hash, Structural)]
pub struct HotkeySetting {
    pub modifiers: HotkeyModifiers,
    pub key: HotkeyKey,
}

/// Most favorites a document may hold; also the size of the favorites
/// quick-access section of the empty-query list.
pub const MAX_FAVORITES: usize = 5;

/// The most characters a tag name may have.
pub const MAX_TAG_NAME_LEN: usize = 128;

/// The most characters a category name may have.
pub const MAX_CATEGORY_NAME_LEN: usize = 128;

/// Lowest manual weight of a folder.
pub const MIN_MANUAL_WEIGHT: i16 = -100;

/// Highest manual weight of a folder.
pub const MAX_MANUAL_WEIGHT: i16 = 100;

/// The user's theme preference.
#[derive(Debug, Clone, Copy, PartialEq, Eq, Structural)]
pub enum ThemePreference {
    System,
    Light,
    Dark,
}

/// What the result list shows while the query is empty.
#[derive(Debug, Clone, Copy, PartialEq, Eq, Structural)]
pub enum EmptyQueryStrategy {
    /// Up to five favorites, then pinned, then previously opened, then the
    /// rest.
    FavoritesFirst,
    /// Only pinned entries.
    PinnedOnly,
    /// Every entry.
    All,
    /// Nothing.
    Blank,
}

/// The settings that steer search and presentation.
#[derive(Debug, Clone, Copy, PartialEq, Eq, Structural)]
pub struct AppSettings {
    pub theme: ThemePreference,
    /// Most rows a result list shows.
    pub max_results: u16,
    /// Whether aliases participate in search.
    pub search_aliases: bool,
    /// Whether paths participate in search.
    pub search_paths: bool,
    /// Whether category names participate in search.
    pub search_categories: bool,
    /// Whether tag names participate in search.
    pub search_tags: bool,
    /// Whether notes participate in search.
    pub search_notes: bool,
    /// Whether the subsequence and edit-distance strategies are active.
    pub fuzzy_matching: bool,
    /// Whether pinyin keys are derived from names and aliases.
    pub search_pinyin: bool,
    /// Whether english-initial keys are derived from names and aliases.
    pub search_english_initials: bool,
    /// Largest accepted edit distance for typo tolerance.
    pub max_edit_distance: u8,
    pub empty_query_strategy: EmptyQueryStrategy,
    /// Width of the search window in logical pixels.
    pub window_width: u16,
    /// Whether the search window hides after a folder was opened.
    pub hide_after_open: bool,
    /// Whether the query is cleared after a folder was opened.
    pub clear_after_open: bool,
    /// Whether the search window hides when it loses focus.
    pub hide_on_focus_loss: bool,
    /// Whether the application starts with the user session.
    pub launch_at_login: bool,
    /// Whether the last filter is restored when the search window opens.
    pub remember_last_filter: bool,
    /// The global hotkey, or `None` when it is disabled.
    pub hotkey: Option<HotkeySetting>,
    /// Whether a parent pick offers to add its direct children too.
    pub one_level_import: bool,
    /// Whether the application starts hidden in the tray.
    pub silent_start: bool,
    /// Whether the search window shows once at startup.
    pub show_main_window_at_startup: bool,
    /// The interface font scale in percent.
    pub font_scale_percent: u16,
    /// The search window's chosen width, if the user set one.
    pub search_window_width: Option<u16>,
    /// The settings window's chosen width, if the user set one.
    pub settings_window_width: Option<u16>,
    /// Whether recently opened folders rank first on ties.
    pub recent_sort_first: bool,
    /// On which monitor the search window opens.
    pub monitor_strategy: MonitorStrategy,
    /// The interface language preference.
    pub language_preference: LanguagePreference,
    /// The result row height.
    pub row_height_preference: RowHeightPreference,
    /// Whether matched characters are highlighted.
    pub highlight_results: bool,
    /// Whether result rows show the folder path.
    pub show_path_in_results: bool,
    /// Whether result rows show the category and tags.
    pub show_category_tag_in_results: bool,
}

/// On which monitor the search window opens.
#[derive(Debug, Clone, Copy, PartialEq, Eq, Structural)]
pub enum MonitorStrategy {
    /// The monitor under the mouse pointer.
    Mouse,
    /// The monitor of the active window.
    ActiveWindow,
}

/// The interface language preference.
#[derive(Debug, Clone, Copy, PartialEq, Eq, Structural)]
pub enum LanguagePreference {
    /// Follow the system language.
    System,
    ZhCN,
    EnUS,
}

/// The result row height.
#[derive(Debug, Clone, Copy, PartialEq, Eq, Structural)]
pub enum RowHeightPreference {
    Compact,
    Standard,
}

/// The default global hotkey: Ctrl + Alt + Space.
pub open spec fn default_hotkey_spec() -> HotkeySetting {
    HotkeySetting {
        modifiers: HotkeyModifiers { control: true, alt: true, shift: false, win: false },
        key: HotkeyKey::Vk { vk: 0x20 },
    }
}

/// The default global hotkey: Ctrl + Alt + Space.
pub fn default_hotkey() -> (r: HotkeySetting)
    ensures
        r == default_hotkey_spec(),
{
    HotkeySetting {
        modifiers: HotkeyModifiers { control: true, alt: true, shift: false, win: false },
        key: HotkeyKey::Vk { vk: 0x20 },
    }
}

/// Smallest accepted font scale, in percent.
pub const MIN_FONT_SCALE_PERCENT: u16 = 80;

/// Largest accepted font scale, in percent.
pub const MAX_FONT_SCALE_PERCENT: u16 = 150;

/// Narrowest accepted settings window.
pub const MIN_SETTINGS_WINDOW_WIDTH: u16 = 760;

/// Widest accepted settings window.
pub const MAX_SETTINGS_WINDOW_WIDTH: u16 = 1600;

/// Fewest rows a result list may be set to show.
pub const MIN_MAX_RESULTS: u16 = 1;

/// Most rows a result list may be set to show.
pub const MAX_MAX_RESULTS: u16 = 100;

/// Narrowest accepted search window.
pub const MIN_WINDOW_WIDTH: u16 = 480;

/// Widest accepted search window.
pub const MAX_WINDOW_WIDTH: u16 = 760;

/// Largest accepted edit distance.
pub const MAX_EDIT_DISTANCE: u8 = 2;

/// The first setting found outside its accepted range.
#[derive(Debug, Clone, Copy, PartialEq, Eq, Structural)]
pub enum SettingsError {
    MaxResults,
    WindowWidth,
    MaxEditDistance,
    FontScale,
    SearchWindowWidth,
    SettingsWindowWidth,
}

impl AppSettings {
    /// The product baseline: system theme, eight results, every field but
    /// notes searched, fuzzy matching with one edit, pinyin and english
    /// initials on, favorites first for an empty query, a 600-pixel window
    /// that hides and clears after an open and on focus loss, no launch at
    /// login, no remembered filter, the hotkey Ctrl + Alt + Space, no
    /// one-level import, a silent start without showing the window, 100 %
    /// font scale, default window widths, no recent-first sort, the mouse's
    /// monitor, the system language, compact rows, and highlights, paths,
    /// categories and tags shown in results.
    pub open spec fn baseline() -> AppSettings {
        AppSettings {
            theme: ThemePreference::System,
            max_results: 8,
            search_aliases: true,
            search_paths: true,
            search_categories: true,
            search_tags: true,
            search_notes: false,
            fuzzy_matching: true,
            search_pinyin: true,
            search_english_initials: true,
            max_edit_distance: 1,
            empty_query_strategy: EmptyQueryStrategy::FavoritesFirst,
            window_width: 600,
            hide_after_open: true,
            clear_after_open: true,
            hide_on_focus_loss: true,
            launch_at_login: false,
            remember_last_filter: false,
            hotkey: Some(default_hotkey_spec()),
            one_level_import: false,
            silent_start: true,
            show_main_window_at_startup: false,
            font_scale_percent: 100,
            search_window_width: None,
            settings_window_width: None,
            recent_sort_first: false,
            monitor_strategy: MonitorStrategy::Mouse,
            language_preference: LanguagePreference::System,
            row_height_preference: RowHeightPreference::Compact,
            highlight_results: true,
            show_path_in_results: true,
            show_category_tag_in_results: true,
        }
    }

    /// Whether every ranged setting lies in its accepted range (inclusive):
    /// the result count, the window width, the edit distance, the font scale
    /// and the chosen search and settings window widths.
    pub open spec fn within_ranges(self) -> bool {
        &&& MIN_MAX_RESULTS <= self.max_results <= MAX_MAX_RESULTS
        &&& MIN_WINDOW_WIDTH <= self.window_width <= MAX_WINDOW_WIDTH
        &&& self.max_edit_distance <= MAX_EDIT_DISTANCE
        &&& MIN_FONT_SCALE_PERCENT <= self.font_scale_percent <= MAX_FONT_SCALE_PERCENT
        &&& (self.search_window_width matches Some(w) ==> MIN_WINDOW_WIDTH <= w <= MAX_WINDOW_WIDTH)
        &&& (self.settings_window_width matches Some(w) ==> MIN_SETTINGS_WINDOW_WIDTH <= w
            <= MAX_SETTINGS_WINDOW_WIDTH)
    }

    /// Checks the ranged settings, inclusively at both ends: the result
    /// count, the window width, the edit distance, the font scale and the
    /// chosen search and settings window widths, in that order.
    pub fn validate(&self) -> (r: Result<(), SettingsError>)
        ensures
            r == if !(MIN_MAX_RESULTS <= self.max_results <= MAX_MAX_RESULTS) {
                Err(SettingsError::MaxResults)
            } else if !(MIN_WINDOW_WIDTH <= self.window_width <= MAX_WINDOW_WIDTH) {
                Err(SettingsError::WindowWidth)
            } else if self.max_edit_distance > MAX_EDIT_DISTANCE {
                Err(SettingsError::MaxEditDistance)
            } else if !(MIN_FONT_SCALE_PERCENT <= self.font_scale_percent <= MAX_FONT_SCALE_PERCENT) {
                Err(SettingsError::FontScale)
            } else if self.search_window_width matches Some(w) && !(MIN_WINDOW_WIDTH <= w <= MAX_WINDOW_WIDTH) {
                Err(SettingsError::SearchWindowWidth)
            } else if self.settings_window_width matches Some(w) && !(MIN_SETTINGS_WINDOW_WIDTH <= w
                <= MAX_SETTINGS_WINDOW_WIDTH) {
                Err(SettingsError::SettingsWindowWidth)
            } else {
                Ok(())
            },
            r is Ok <==> self.within_ranges(),
    {
        if self.max_results < MIN_MAX_RESULTS || self.max_results > MAX_MAX_RESULTS {
            Err(SettingsError::MaxResults)
        } else if self.window_width < MIN_WINDOW_WIDTH || self.window_width > MAX_WINDOW_WIDTH {
            Err(SettingsError::WindowWidth)
        } else if self.max_edit_distance > MAX_EDIT_DISTANCE {
            Err(SettingsError::MaxEditDistance)
        } else if self.font_scale_percent < MIN_FONT_SCALE_PERCENT || self.font_scale_percent > MAX_FONT_SCALE_PERCENT {
            Err(SettingsError::FontScale)
        } else if match self.search_window_width {
            Some(w) => w < MIN_WINDOW_WIDTH || w > MAX_WINDOW_WIDTH,
            None => false,
        } {
            Err(SettingsError::SearchWindowWidth)
        } else if match self.settings_window_width {
            Some(w) => w < MIN_SETTINGS_WINDOW_WIDTH || w > MAX_SETTINGS_WINDOW_WIDTH,
            None => false,
        } {
            Err(SettingsError::SettingsWindowWidth)
        } else {
            Ok(())
        }
    }
}

impl Default for AppSettings {
    fn default() -> (r: AppSettings)
        ensures
            r == AppSettings::baseline(),
    {
        AppSettings {
            theme: ThemePreference::System,
            max_results: 8,
            search_aliases: true,
            search_paths: true,
            search_categories: true,
            search_tags: true,
            search_notes: false,
            fuzzy_matching: true,
            search_pinyin: true,
            search_english_initials: true,
            max_edit_distance: 1,
            empty_query_strategy: EmptyQueryStrategy::FavoritesFirst,
            window_width: 600,
            hide_after_open: true,
            clear_after_open: true,
            hide_on_focus_loss: true,
            launch_at_login: false,
            remember_last_filter: false,
            hotkey: Some(default_hotkey()),
            one_level_import: false,
            silent_start: true,
            show_main_window_at_startup: false,
            font_scale_percent: 100,
            search_window_width: None,
            settings_window_width: None,
            recent_sort_first: false,
            monitor_strategy: MonitorStrategy::Mouse,
            language_preference: LanguagePreference::System,
            row_height_preference: RowHeightPreference::Compact,
            highlight_results: true,
            show_path_in_results: true,
            show_category_tag_in_results: true,
        }
    }
}

} // verus!
