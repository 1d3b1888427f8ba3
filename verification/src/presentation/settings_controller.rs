//! Settings pages: the page index, the notices the settings window shows,
//! the hotkey-recording vocabulary and the key-text translation used while
//! recording a hotkey.

use vstd::prelude::*;

use crate::domain::{
    default_hotkey, default_hotkey_spec, AppData, AppSettings, Category, CategoryId, EmptyQueryStrategy, HotkeyKey,
    HotkeyModifiers, HotkeySetting, LanguagePreference, MonitorStrategy, MAX_TAG_NAME_LEN, RowHeightPreference, Tag, TagId,
    ThemePreference,
};
use crate::presentation::management::{merge_match, names_equal, same_name, valid_named_value};
use crate::storage::import_export::{ImportMode, ImportPlan};
use crate::text::{chars_of, trimmed};

verus! {

/// Which settings page is active (the left-navigation order).
#[derive(Debug, Clone, Copy, PartialEq, Eq, Structural)]
pub enum SPage {
    General,
    Folders,
    Categories,
    Tags,
    Search,
    Appearance,
    Hotkey,
    Data,
    About,
}

/// The navigation index of a page (General 0 to About 8).
pub open spec fn page_index(p: SPage) -> u8 {
    match p {
        SPage::General => 0,
        SPage::Folders => 1,
        SPage::Categories => 2,
        SPage::Tags => 3,
        SPage::Search => 4,
        SPage::Appearance => 5,
        SPage::Hotkey => 6,
        SPage::Data => 7,
        SPage::About => 8,
    }
}

/// The page at navigation index `v`; an unknown index is General.
pub open spec fn page_at(v: u8) -> SPage {
    if v == 1 {
        SPage::Folders
    } else if v == 2 {
        SPage::Categories
    } else if v == 3 {
        SPage::Tags
    } else if v == 4 {
        SPage::Search
    } else if v == 5 {
        SPage::Appearance
    } else if v == 6 {
        SPage::Hotkey
    } else if v == 7 {
        SPage::Data
    } else if v == 8 {
        SPage::About
    } else {
        SPage::General
    }
}

impl SPage {
    /// The page's navigation index.
    pub fn as_u8(self) -> (r: u8)
        ensures
            r == page_index(self),
    {
        match self {
            SPage::General => 0,
            SPage::Folders => 1,
            SPage::Categories => 2,
            SPage::Tags => 3,
            SPage::Search => 4,
            SPage::Appearance => 5,
            SPage::Hotkey => 6,
            SPage::Data => 7,
            SPage::About => 8,
        }
    }

    /// The page at navigation index `value`; an unknown index is General.
    pub fn from_u8(value: u8) -> (r: SPage)
        ensures
            r == page_at(value),
    {
        match value {
            1 => SPage::Folders,
            2 => SPage::Categories,
            3 => SPage::Tags,
            4 => SPage::Search,
            5 => SPage::Appearance,
            6 => SPage::Hotkey,
            7 => SPage::Data,
            8 => SPage::About,
            _ => SPage::General,
        }
    }
}

/// Law: a page survives the round trip through its index, and an index
/// survives the round trip through its page exactly when it names a page.
pub proof fn lemma_page_round_trip(p: SPage, v: u8)
    ensures
        page_at(page_index(p)) == p,
        page_index(page_at(v)) == if v <= 8 {
            v
        } else {
            0
        },
{
}

/// One anonymous, localizable notice of the settings window.
#[derive(Debug, Clone, Copy, PartialEq, Eq, Structural)]
pub enum SNotice {
    Saved,
    SaveFailed,
    StartupWriteFailed,
    StartupReadFailed,
    HotkeyConflict,
    HotkeyUnavailable,
    HotkeyInvalid,
    ImportParseFailed,
    ImportFutureSchema,
    ImportMigrationNeeded,
    ImportInvalidDocument,
    ImportUnresolvedReference,
    ImportApplied,
    ImportPreviewFailed,
    ExportFailed,
    ExportTargetExists,
    BackupsNone,
    BackupCreated,
    BackupRestoreFailed,
    BackupRestoreApplied,
    BackupListFailed,
    ResetDefaultApplied,
    ClearAllApplied,
    DataDirOpened,
    DataDirOpenFailed,
    ExportWritten,
}

/// The hotkey-recording state of the Hotkey page.
#[derive(Debug, Clone, Copy, PartialEq, Eq, Structural)]
pub enum HotkeyRecordPhase {
    /// Not recording.
    Idle,
    /// Waiting for the next key.
    Listening,
}

/// The hotkey runtime the page shows.
#[derive(Debug, Clone, Copy, PartialEq, Eq, Structural)]
pub enum HotkeyRuntime {
    Disabled,
    Active,
    Paused,
}

/// The Data page's pending flow.
#[derive(Debug, Clone, PartialEq, Eq)]
pub enum DataFlow {
    /// Nothing pending.
    Closed,
    /// A parsed import file is previewed (the plan and the chosen mode).
    ImportPreview { plan: ImportPlan, mode: ImportMode },
    /// The two-step "clear all records" confirmation is armed.
    ConfirmClearAll,
}

/// Rename of a category.
#[derive(Debug, Clone, PartialEq, Eq)]
pub struct CategoryNameCommand {
    pub id: CategoryId,
    pub name: String,
}

/// Rename of a tag.
#[derive(Debug, Clone, PartialEq, Eq)]
pub struct TagNameCommand {
    pub id: TagId,
    pub name: String,
}

/// The combination recorded so far: both the modifiers and the key, or
/// nothing.
pub fn current_recorded(modifiers: Option<HotkeyModifiers>, key: Option<HotkeyKey>) -> (r: Option<HotkeySetting>)
    ensures
        r == match (modifiers, key) {
            (Some(m), Some(k)) => Some(HotkeySetting { modifiers: m, key: k }),
            _ => None,
        },
{
    match (modifiers, key) {
        (Some(m), Some(k)) => Some(HotkeySetting { modifiers: m, key: k }),
        _ => None,
    }
}

/// First code point of the private-use window the UI toolkit reports for
/// F1 to F24.
pub const FUNCTION_KEY_BASE: u32 = 0xF704;

/// Last code point of that window (F24).
pub const FUNCTION_KEY_LAST: u32 = 0xF71B;

/// The hotkey key a key text stands for: a single character only; F1 to F24
/// from the private-use window; space as the space key; otherwise a
/// character of code at most 0xFF, lower-case ASCII letters folded to upper
/// case, accepted in the key range 0x20 to 0x5A.
pub open spec fn hotkey_key_of(s: Seq<char>) -> Option<HotkeyKey> {
    if s.len() != 1 {
        None
    } else {
        let code = s[0] as u32;
        if FUNCTION_KEY_BASE <= code <= FUNCTION_KEY_LAST {
            Some(HotkeyKey::Function { index: (code - FUNCTION_KEY_BASE + 1) as u8 })
        } else if s[0] == ' ' {
            Some(HotkeyKey::Vk { vk: 0x20 })
        } else if code > 0xFF {
            None
        } else {
            let vk = if 0x61 <= code <= 0x7A {
                code - 32
            } else {
                code as int
            };
            if 0x20 <= vk <= 0x5A {
                Some(HotkeyKey::Vk { vk: vk as u8 })
            } else {
                None
            }
        }
    }
}

/// Law: a translated key is always in the accepted ranges: a virtual key
/// within 0x20 to 0x5A, a function key within F1 to F24.
pub proof fn lemma_hotkey_key_ranges(s: Seq<char>)
    ensures
        hotkey_key_of(s) matches Some(HotkeyKey::Vk { vk }) ==> 0x20 <= vk <= 0x5A,
        hotkey_key_of(s) matches Some(HotkeyKey::Function { index }) ==> 1 <= index <= 24,
{
}

/// Translates a key text from the UI into a hotkey key (see
/// [`hotkey_key_of`]).
pub fn hotkey_from_text(text: &str) -> (r: Option<HotkeyKey>)
    ensures
        r == hotkey_key_of(text@),
{
    let chars = chars_of(text);
    if chars.len() != 1 {
        return None;
    }
    let character = chars[0];
    let code = character as u32;
    if FUNCTION_KEY_BASE <= code && code <= FUNCTION_KEY_LAST {
        let index = (code - FUNCTION_KEY_BASE) as u8 + 1;
        return Some(HotkeyKey::Function { index });
    }
    if character == ' ' {
        return Some(HotkeyKey::Vk { vk: 0x20 });
    }
    if code > 0xFF {
        return None;
    }
    let mut vk = code as u8;
    if 0x61 <= vk && vk <= 0x7A {
        vk = vk - 32;
    }
    if 0x20 <= vk && vk <= 0x5A {
        Some(HotkeyKey::Vk { vk })
    } else {
        None
    }
}

/// Why the native hotkey registration last failed.
#[derive(Debug, Clone, Copy, PartialEq, Eq, Structural)]
pub enum HotkeyErrorKind {
    /// Another program holds the combination.
    Conflict,
    /// The system refused the registration.
    Unavailable,
    /// The combination breaks the hotkey rules.
    Invalid,
}

/// The hotkey rules: a function key F1 to F24 stands alone; a virtual key
/// from Space to Z needs at least one modifier.
pub open spec fn hotkey_valid(modifiers: HotkeyModifiers, key: HotkeyKey) -> bool {
    match key {
        HotkeyKey::Function { index } => 1 <= index <= 24,
        HotkeyKey::Vk { vk } => 0x20 <= vk <= 0x5A && (modifiers.control || modifiers.alt || modifiers.shift
            || modifiers.win),
    }
}

/// Checks a combination against the hotkey rules (see [`hotkey_valid`]).
pub fn validate_hotkey(modifiers: HotkeyModifiers, key: HotkeyKey) -> (r: bool)
    ensures
        r == hotkey_valid(modifiers, key),
{
    match key {
        HotkeyKey::Function { index } => 1 <= index && index <= 24,
        HotkeyKey::Vk { vk } => 0x20 <= vk && vk <= 0x5A && (modifiers.control || modifiers.alt
            || modifiers.shift || modifiers.win),
    }
}

/// The observable state of the settings window.
#[derive(Debug, Clone, PartialEq, Eq)]
pub struct SView {
    pub page: u8,
    /// The settings the window binds.
    pub settings: AppSettings,
    /// Whether the system's start-with-session entry is set (`None`: not
    /// read, or reading failed).
    pub launch_at_login_os: Option<bool>,
    pub notice: Option<SNotice>,
    pub hotkey_runtime: HotkeyRuntime,
    pub hotkey_last_error: Option<HotkeyErrorKind>,
    pub hotkey_record_phase: HotkeyRecordPhase,
    /// The combination being recorded (shown while listening).
    pub hotkey_draft: Option<HotkeySetting>,
    pub data_flow: DataFlow,
    /// Backup names listed on the Data page.
    pub backups: Vec<String>,
    /// The one-level-import toggle as the document holds it.
    pub one_level_import_os: bool,
}

/// The modifier set with nothing pressed.
pub open spec fn no_modifiers() -> HotkeyModifiers {
    HotkeyModifiers { control: false, alt: false, shift: false, win: false }
}

impl Default for SView {
    fn default() -> (r: SView)
        ensures
            r.page == 0,
            r.settings == AppSettings::baseline(),
            r.launch_at_login_os is None,
            r.notice is None,
            r.hotkey_runtime == HotkeyRuntime::Disabled,
            r.hotkey_last_error is None,
            r.hotkey_record_phase == HotkeyRecordPhase::Idle,
            r.hotkey_draft is None,
            r.data_flow == DataFlow::Closed,
            r.backups@.len() == 0,
            !r.one_level_import_os,
    {
        SView {
            page: 0,
            settings: AppSettings::default(),
            launch_at_login_os: None,
            notice: None,
            hotkey_runtime: HotkeyRuntime::Disabled,
            hotkey_last_error: None,
            hotkey_record_phase: HotkeyRecordPhase::Idle,
            hotkey_draft: None,
            data_flow: DataFlow::Closed,
            backups: Vec::new(),
            one_level_import_os: false,
        }
    }
}

/// What the settings window asks of the controller.
#[derive(Debug, Clone, PartialEq, Eq)]
pub enum SCommand {
    ShowPage(u8),
    SetLaunchAtLogin(bool),
    SetSilentStart(bool),
    SetShowMainWindowAtStartup(bool),
    SetHideAfterOpen(bool),
    SetClearAfterOpen(bool),
    SetHideOnFocusLoss(bool),
    SetMonitorStrategy(MonitorStrategy),
    SetLanguage(LanguagePreference),
    RestoreDefaultSettings,
    SetSearchPaths(bool),
    SetSearchCategories(bool),
    SetSearchTags(bool),
    SetSearchNotes(bool),
    SetSearchAliases(bool),
    SetFuzzyMatching(bool),
    SetSearchPinyin(bool),
    SetSearchEnglishInitials(bool),
    SetMaxEditDistance(u8),
    SetMaxResults(u16),
    SetEmptyQueryStrategy(EmptyQueryStrategy),
    SetHighlightResults(bool),
    SetRecentSort(bool),
    SetTheme(ThemePreference),
    SetRowHeight(RowHeightPreference),
    SetSearchWindowWidth(u16),
    SetSettingsWindowWidth(u16),
    SetFontScalePercent(u16),
    SetShowPathInResults(bool),
    SetShowCategoryTagInResults(bool),
    StartRecording,
    CancelRecording,
    /// A key was pressed while recording.
    FinishRecording(HotkeyKey),
    /// The modifiers held while recording: control, alt, shift, win.
    SetRecordedModifiers(bool, bool, bool, bool),
    /// Persist a combination (or `None` to disable the hotkey) that the
    /// caller has already registered.
    PersistHotkey(Option<HotkeySetting>),
    RestoreDefaultHotkey,
    SyncHotkeyRuntime(HotkeyRuntime, Option<HotkeyErrorKind>),
    RenameCategory(CategoryNameCommand),
    RenameTag(TagNameCommand),
    MergeTag { source: TagId, target_name: String },
    PushImportPreview(ImportPlan, ImportMode),
    ApplyImport,
    DismissDataFlow,
    DismissNotice,
    SetBackups(Vec<String>),
}

/// The store work a step asks the caller to carry out; the caller then
/// reports the outcome through [`SettingsController::after_save`] or
/// [`SettingsController::after_record_change`].
#[derive(Debug, Clone, PartialEq, Eq)]
pub enum SettingsEffect {
    /// Nothing to store.
    Nothing,
    /// Store `settings` and save the document; on failure the document and
    /// the window return to `previous`.
    PersistSettings { settings: AppSettings, previous: AppSettings, reset: bool },
    /// Rename a category and save.
    RenameCategory { category: CategoryId, name: String },
    /// Rename a tag and save.
    RenameTag { tag: TagId, name: String },
    /// Move every use of `source` to `target`, drop `source`, and save.
    MergeTag { source: TagId, target: TagId },
}

/// The settings window's decision layer: what the window shows and the
/// modifiers recorded so far.
#[derive(Debug, Clone, PartialEq, Eq)]
pub struct SettingsController {
    pub view: SView,
    pub recorded_modifiers: Option<HotkeyModifiers>,
}

/// `value` held within `lo ..= hi`.
pub open spec fn clamped(value: int, lo: int, hi: int) -> int {
    if value < lo {
        lo
    } else if value > hi {
        hi
    } else {
        value
    }
}

fn clamp_u16(value: u16, lo: u16, hi: u16) -> (r: u16)
    requires
        lo <= hi,
    ensures
        r == clamped(value as int, lo as int, hi as int),
{
    if value < lo {
        lo
    } else if value > hi {
        hi
    } else {
        value
    }
}

/// The settings the document holds, or `snapshot` when there is no document.
pub open spec fn previous_settings(stored: Option<AppData>, snapshot: AppSettings) -> AppSettings {
    match stored {
        Some(d) => d.settings,
        None => snapshot,
    }
}

/// Show `view`, and ask for its settings to be stored.
pub open spec fn persisting(c: SettingsController, stored: Option<AppData>, view: SView, reset: bool) -> (
    SettingsController,
    SettingsEffect,
) {
    (
        SettingsController { view, ..c },
        SettingsEffect::PersistSettings { settings: view.settings, previous: previous_settings(stored, view.settings), reset },
    )
}

/// Change the settings to `s` and ask for them to be stored.
pub open spec fn persist_settings(c: SettingsController, stored: Option<AppData>, s: AppSettings) -> (
    SettingsController,
    SettingsEffect,
) {
    persisting(c, stored, SView { settings: s, ..c.view }, false)
}

/// `c` showing `notice`.
pub open spec fn with_notice(c: SettingsController, notice: SNotice) -> SettingsController {
    SettingsController { view: SView { notice: Some(notice), ..c.view }, ..c }
}

/// `c` after recording was cancelled.
pub open spec fn cancelled(c: SettingsController) -> SettingsController {
    SettingsController {
        view: SView { hotkey_record_phase: HotkeyRecordPhase::Idle, hotkey_draft: None, ..c.view },
        recorded_modifiers: None,
    }
}

/// `c` with the stored settings re-read.
pub open spec fn reloaded(c: SettingsController, stored: Option<AppData>) -> SettingsController {
    match stored {
        Some(d) => SettingsController {
            view: SView { settings: d.settings, one_level_import_os: d.settings.one_level_import, ..c.view },
            ..c
        },
        None => c,
    }
}

/// Whether some category other than `id` is named like `name`.
pub open spec fn category_name_taken(cats: Seq<Category>, id: CategoryId, name: Seq<char>) -> bool {
    exists|i: int| 0 <= i < cats.len() && cats[i].id != id && same_name(#[trigger] cats[i].name@, name)
}

/// Whether some tag other than `id` is named like `name`.
pub open spec fn tag_name_taken(tags: Seq<Tag>, id: TagId, name: Seq<char>) -> bool {
    exists|i: int| 0 <= i < tags.len() && tags[i].id != id && same_name(#[trigger] tags[i].name@, name)
}

/// Whether `name` is acceptable for a category or tag renamed here.
pub open spec fn record_name_ok(name: Seq<char>) -> bool {
    trimmed(name).len() > 0 && trimmed(name).len() <= MAX_TAG_NAME_LEN
}

/// The general-page flags.
pub open spec fn is_general_flag(command: SCommand) -> bool {
    ||| command is SetLaunchAtLogin
    ||| command is SetSilentStart
    ||| command is SetShowMainWindowAtStartup
    ||| command is SetHideAfterOpen
    ||| command is SetClearAfterOpen
    ||| command is SetHideOnFocusLoss
    ||| command is SetMonitorStrategy
    ||| command is SetLanguage
    ||| command is SetSearchPaths
    ||| command is SetSearchCategories
    ||| command is SetSearchTags
}

/// The search- and appearance-page flags.
pub open spec fn is_search_flag(command: SCommand) -> bool {
    ||| command is SetSearchNotes
    ||| command is SetSearchAliases
    ||| command is SetFuzzyMatching
    ||| command is SetSearchPinyin
    ||| command is SetSearchEnglishInitials
    ||| command is SetEmptyQueryStrategy
    ||| command is SetHighlightResults
    ||| command is SetRecentSort
    ||| command is SetTheme
    ||| command is SetRowHeight
    ||| command is SetShowPathInResults
    ||| command is SetShowCategoryTagInResults
}

/// Whether `command` sets one plain field of the settings.
pub open spec fn is_flag_command(command: SCommand) -> bool {
    ||| command is SetLaunchAtLogin
    ||| command is SetSilentStart
    ||| command is SetShowMainWindowAtStartup
    ||| command is SetHideAfterOpen
    ||| command is SetClearAfterOpen
    ||| command is SetHideOnFocusLoss
    ||| command is SetMonitorStrategy
    ||| command is SetLanguage
    ||| command is SetSearchPaths
    ||| command is SetSearchCategories
    ||| command is SetSearchTags
    ||| command is SetSearchNotes
    ||| command is SetSearchAliases
    ||| command is SetFuzzyMatching
    ||| command is SetSearchPinyin
    ||| command is SetSearchEnglishInitials
    ||| command is SetEmptyQueryStrategy
    ||| command is SetHighlightResults
    ||| command is SetRecentSort
    ||| command is SetTheme
    ||| command is SetRowHeight
    ||| command is SetShowPathInResults
    ||| command is SetShowCategoryTagInResults
}

/// Whether `command` is a recording, hotkey or Data-page command.
pub open spec fn is_other_command(command: SCommand) -> bool {
    ||| command is StartRecording
    ||| command is CancelRecording
    ||| command is FinishRecording
    ||| command is SetRecordedModifiers
    ||| command is PersistHotkey
    ||| command is RestoreDefaultHotkey
    ||| command is SyncHotkeyRuntime
    ||| command is MergeTag
    ||| command is PushImportPreview
    ||| command is ApplyImport
    ||| command is DismissDataFlow
    ||| command is DismissNotice
    ||| command is SetBackups
}

/// The settings after a general-page flag command.
pub open spec fn general_flag_settings(s: AppSettings, command: SCommand) -> AppSettings {
    match command {
        SCommand::SetLaunchAtLogin(x) => AppSettings { launch_at_login: x, ..s },
        SCommand::SetSilentStart(x) => AppSettings { silent_start: x, ..s },
        SCommand::SetShowMainWindowAtStartup(x) => AppSettings { show_main_window_at_startup: x, ..s },
        SCommand::SetHideAfterOpen(x) => AppSettings { hide_after_open: x, ..s },
        SCommand::SetClearAfterOpen(x) => AppSettings { clear_after_open: x, ..s },
        SCommand::SetHideOnFocusLoss(x) => AppSettings { hide_on_focus_loss: x, ..s },
        SCommand::SetMonitorStrategy(x) => AppSettings { monitor_strategy: x, ..s },
        SCommand::SetLanguage(x) => AppSettings { language_preference: x, ..s },
        SCommand::SetSearchPaths(x) => AppSettings { search_paths: x, ..s },
        SCommand::SetSearchCategories(x) => AppSettings { search_categories: x, ..s },
        SCommand::SetSearchTags(x) => AppSettings { search_tags: x, ..s },
        _ => s,
    }
}

/// The settings after a search- or appearance-page flag command.
pub open spec fn search_flag_settings(s: AppSettings, command: SCommand) -> AppSettings {
    match command {
        SCommand::SetSearchNotes(x) => AppSettings { search_notes: x, ..s },
        SCommand::SetSearchAliases(x) => AppSettings { search_aliases: x, ..s },
        SCommand::SetFuzzyMatching(x) => AppSettings { fuzzy_matching: x, ..s },
        SCommand::SetSearchPinyin(x) => AppSettings { search_pinyin: x, ..s },
        SCommand::SetSearchEnglishInitials(x) => AppSettings { search_english_initials: x, ..s },
        SCommand::SetEmptyQueryStrategy(x) => AppSettings { empty_query_strategy: x, ..s },
        SCommand::SetHighlightResults(x) => AppSettings { highlight_results: x, ..s },
        SCommand::SetRecentSort(x) => AppSettings { recent_sort_first: x, ..s },
        SCommand::SetTheme(x) => AppSettings { theme: x, ..s },
        SCommand::SetRowHeight(x) => AppSettings { row_height_preference: x, ..s },
        SCommand::SetShowPathInResults(x) => AppSettings { show_path_in_results: x, ..s },
        SCommand::SetShowCategoryTagInResults(x) => AppSettings { show_category_tag_in_results: x, ..s },
        _ => s,
    }
}

/// The settings after a flag command (see [`is_flag_command`]).
pub open spec fn flag_settings(s: AppSettings, command: SCommand) -> AppSettings {
    if is_general_flag(command) {
        general_flag_settings(s, command)
    } else {
        search_flag_settings(s, command)
    }
}

fn apply_general_flag(s: AppSettings, command: &SCommand) -> (r: AppSettings)
    ensures
        r == general_flag_settings(s, *command),
{
    match command {
        SCommand::SetLaunchAtLogin(x) => AppSettings { launch_at_login: *x, ..s },
        SCommand::SetSilentStart(x) => AppSettings { silent_start: *x, ..s },
        SCommand::SetShowMainWindowAtStartup(x) => AppSettings { show_main_window_at_startup: *x, ..s },
        SCommand::SetHideAfterOpen(x) => AppSettings { hide_after_open: *x, ..s },
        SCommand::SetClearAfterOpen(x) => AppSettings { clear_after_open: *x, ..s },
        SCommand::SetHideOnFocusLoss(x) => AppSettings { hide_on_focus_loss: *x, ..s },
        SCommand::SetMonitorStrategy(x) => AppSettings { monitor_strategy: *x, ..s },
        SCommand::SetLanguage(x) => AppSettings { language_preference: *x, ..s },
        SCommand::SetSearchPaths(x) => AppSettings { search_paths: *x, ..s },
        SCommand::SetSearchCategories(x) => AppSettings { search_categories: *x, ..s },
        SCommand::SetSearchTags(x) => AppSettings { search_tags: *x, ..s },
        _ => s,
    }
}

fn apply_search_flag(s: AppSettings, command: &SCommand) -> (r: AppSettings)
    ensures
        r == search_flag_settings(s, *command),
{
    match command {
        SCommand::SetSearchNotes(x) => AppSettings { search_notes: *x, ..s },
        SCommand::SetSearchAliases(x) => AppSettings { search_aliases: *x, ..s },
        SCommand::SetFuzzyMatching(x) => AppSettings { fuzzy_matching: *x, ..s },
        SCommand::SetSearchPinyin(x) => AppSettings { search_pinyin: *x, ..s },
        SCommand::SetSearchEnglishInitials(x) => AppSettings { search_english_initials: *x, ..s },
        SCommand::SetEmptyQueryStrategy(x) => AppSettings { empty_query_strategy: *x, ..s },
        SCommand::SetHighlightResults(x) => AppSettings { highlight_results: *x, ..s },
        SCommand::SetRecentSort(x) => AppSettings { recent_sort_first: *x, ..s },
        SCommand::SetTheme(x) => AppSettings { theme: *x, ..s },
        SCommand::SetRowHeight(x) => AppSettings { row_height_preference: *x, ..s },
        SCommand::SetShowPathInResults(x) => AppSettings { show_path_in_results: *x, ..s },
        SCommand::SetShowCategoryTagInResults(x) => AppSettings { show_category_tag_in_results: *x, ..s },
        _ => s,
    }
}

/// The step for every command but the renames (see [`settings_step`]).
pub open spec fn plain_step(c: SettingsController, stored: Option<AppData>, command: SCommand) -> (
    SettingsController,
    SettingsEffect,
) {
    let v = c.view;
    let s = v.settings;
    if is_flag_command(command) {
        persist_settings(c, stored, flag_settings(s, command))
    } else {
    match command {
        SCommand::ShowPage(p) => (
            SettingsController { view: SView { page: if p < 8 { p } else { 8 }, ..v }, ..c },
            SettingsEffect::Nothing,
        ),
        SCommand::RestoreDefaultSettings => persisting(c, stored, SView { settings: AppSettings::baseline(), ..v }, true),
        SCommand::SetMaxEditDistance(d) => persist_settings(
            c,
            stored,
            AppSettings { max_edit_distance: if d < 2 { d } else { 2 }, ..s },
        ),
        SCommand::SetMaxResults(n) => persist_settings(
            c,
            stored,
            AppSettings { max_results: clamped(n as int, 1, 100) as u16, ..s },
        ),
        SCommand::SetSearchWindowWidth(w) => persist_settings(
            c,
            stored,
            AppSettings { search_window_width: Some(clamped(w as int, 480, 760) as u16), ..s },
        ),
        SCommand::SetSettingsWindowWidth(w) => persist_settings(
            c,
            stored,
            AppSettings { settings_window_width: Some(clamped(w as int, 760, 1600) as u16), ..s },
        ),
        SCommand::SetFontScalePercent(p) => persist_settings(
            c,
            stored,
            AppSettings { font_scale_percent: clamped(p as int, 80, 150) as u16, ..s },
        ),
        SCommand::StartRecording => (
            SettingsController {
                view: SView { hotkey_record_phase: HotkeyRecordPhase::Listening, hotkey_draft: None, ..v },
                recorded_modifiers: Some(no_modifiers()),
            },
            SettingsEffect::Nothing,
        ),
        SCommand::CancelRecording => (cancelled(c), SettingsEffect::Nothing),
        SCommand::SetRecordedModifiers(control, alt, shift, win) => (
            SettingsController { recorded_modifiers: Some(HotkeyModifiers { control, alt, shift, win }), ..c },
            SettingsEffect::Nothing,
        ),
        SCommand::FinishRecording(key) => {
            if v.hotkey_record_phase != HotkeyRecordPhase::Listening {
                (c, SettingsEffect::Nothing)
            } else {
                let m = match c.recorded_modifiers {
                    Some(m) => m,
                    None => no_modifiers(),
                };
                if !hotkey_valid(m, key) {
                    (cancelled(with_notice(c, SNotice::HotkeyInvalid)), SettingsEffect::Nothing)
                } else {
                    (
                        SettingsController {
                            view: SView { hotkey_draft: Some(HotkeySetting { modifiers: m, key }), ..v },
                            ..c
                        },
                        SettingsEffect::Nothing,
                    )
                }
            }
        },
        SCommand::PersistHotkey(h) => persisting(
            c,
            stored,
            SView {
                settings: AppSettings { hotkey: h, ..s },
                hotkey_runtime: if h is Some {
                    HotkeyRuntime::Active
                } else {
                    HotkeyRuntime::Disabled
                },
                hotkey_last_error: None,
                ..v
            },
            false,
        ),
        SCommand::RestoreDefaultHotkey => persisting(
            c,
            stored,
            SView {
                settings: AppSettings { hotkey: Some(default_hotkey_spec()), ..s },
                hotkey_runtime: HotkeyRuntime::Active,
                hotkey_last_error: None,
                ..v
            },
            false,
        ),
        SCommand::SyncHotkeyRuntime(runtime, error) => (
            SettingsController { view: SView { hotkey_runtime: runtime, hotkey_last_error: error, ..v }, ..c },
            SettingsEffect::Nothing,
        ),
        SCommand::MergeTag { source, target_name } => match stored {
            None => (c, SettingsEffect::Nothing),
            Some(d) => match merge_match(d.tags@, source, target_name@) {
                None => (with_notice(c, SNotice::SaveFailed), SettingsEffect::Nothing),
                Some(target) => (c, SettingsEffect::MergeTag { source, target }),
            },
        },
        SCommand::PushImportPreview(plan, mode) => (
            SettingsController { view: SView { data_flow: DataFlow::ImportPreview { plan, mode }, ..v }, ..c },
            SettingsEffect::Nothing,
        ),
        SCommand::ApplyImport => {
            if v.data_flow is ImportPreview && stored is Some {
                (
                    reloaded(
                        SettingsController {
                            view: SView { notice: Some(SNotice::ImportApplied), data_flow: DataFlow::Closed, ..v },
                            ..c
                        },
                        stored,
                    ),
                    SettingsEffect::Nothing,
                )
            } else {
                (c, SettingsEffect::Nothing)
            }
        },
        SCommand::DismissDataFlow => (
            SettingsController { view: SView { data_flow: DataFlow::Closed, ..v }, ..c },
            SettingsEffect::Nothing,
        ),
        SCommand::DismissNotice => (
            SettingsController { view: SView { notice: None, ..v }, ..c },
            SettingsEffect::Nothing,
        ),
        SCommand::SetBackups(b) => (
            SettingsController { view: SView { backups: b, ..v }, ..c },
            SettingsEffect::Nothing,
        ),
        _ => (c, SettingsEffect::Nothing),
    }
    }
}

/// One step of the settings window: from the controller `c`, the stored
/// document (if any) and a command, to the next controller and the store
/// work asked for. A rename is refused with `SaveFailed` when the trimmed
/// name is empty or too long, or names another record under the name
/// policy; otherwise it is asked for with the trimmed name.
pub open spec fn settings_step(
    c: SettingsController,
    stored: Option<AppData>,
    command: SCommand,
    next: SettingsController,
    effect: SettingsEffect,
) -> bool {
    match command {
        SCommand::RenameCategory(cmd) => {
            if !record_name_ok(cmd.name@) {
                next == with_notice(c, SNotice::SaveFailed) && effect == SettingsEffect::Nothing
            } else {
                match stored {
                    None => next == c && effect == SettingsEffect::Nothing,
                    Some(d) => if category_name_taken(d.categories@, cmd.id, cmd.name@) {
                        next == with_notice(c, SNotice::SaveFailed) && effect == SettingsEffect::Nothing
                    } else {
                        {
                            &&& next == c
                            &&& effect matches SettingsEffect::RenameCategory { category, name }
                            &&& category == cmd.id
                            &&& name@ == trimmed(cmd.name@)
                        }
                    },
                }
            }
        },
        SCommand::RenameTag(cmd) => {
            if !record_name_ok(cmd.name@) {
                next == with_notice(c, SNotice::SaveFailed) && effect == SettingsEffect::Nothing
            } else {
                match stored {
                    None => next == c && effect == SettingsEffect::Nothing,
                    Some(d) => if tag_name_taken(d.tags@, cmd.id, cmd.name@) {
                        next == with_notice(c, SNotice::SaveFailed) && effect == SettingsEffect::Nothing
                    } else {
                        {
                            &&& next == c
                            &&& effect matches SettingsEffect::RenameTag { tag, name }
                            &&& tag == cmd.id
                            &&& name@ == trimmed(cmd.name@)
                        }
                    },
                }
            }
        },
        _ => (next, effect) == plain_step(c, stored, command),
    }
}

/// `c` after the store reported the outcome of a settings save: on success
/// `Saved`; on failure the settings return to `previous` and `SaveFailed`;
/// after a reset to defaults the notice is `ResetDefaultApplied` either way.
pub open spec fn saved_outcome(c: SettingsController, previous: AppSettings, reset: bool, saved: bool) -> SettingsController {
    let settings = if saved {
        c.view.settings
    } else {
        previous
    };
    let notice = if reset {
        SNotice::ResetDefaultApplied
    } else if saved {
        SNotice::Saved
    } else {
        SNotice::SaveFailed
    };
    SettingsController { view: SView { settings, notice: Some(notice), ..c.view }, ..c }
}

/// `c` with `combo` as the hotkey, recording ended, and the settings to be
/// stored.
pub open spec fn committed(c: SettingsController, stored: Option<AppData>, combo: HotkeySetting) -> (SettingsController, SettingsEffect) {
    persisting(
        SettingsController { recorded_modifiers: None, ..c },
        stored,
        SView {
            settings: AppSettings { hotkey: Some(combo), ..c.view.settings },
            hotkey_draft: None,
            hotkey_record_phase: HotkeyRecordPhase::Idle,
            ..c.view
        },
        false,
    )
}

/// What `commit_recorded` does: nothing without a draft; a draft that
/// breaks the hotkey rules cancels recording with `HotkeyInvalid`; a valid
/// one becomes the hotkey, ends recording and is stored (see [`committed`]).
pub open spec fn commit_step(c: SettingsController, stored: Option<AppData>) -> (SettingsController, SettingsEffect, bool) {
    match c.view.hotkey_draft {
        None => (c, SettingsEffect::Nothing, false),
        Some(combo) => if !hotkey_valid(combo.modifiers, combo.key) {
            (cancelled(with_notice(c, SNotice::HotkeyInvalid)), SettingsEffect::Nothing, false)
        } else {
            (committed(c, stored, combo).0, committed(c, stored, combo).1, true)
        },
    }
}

/// Law: a step keeps the settings within their accepted ranges. Starting
/// from settings in range, with a stored document whose settings are in
/// range, the next settings and both settings a save is asked to store or
/// to fall back to are in range (the numeric commands clamp).
#[verifier::spinoff_prover]
#[verifier::rlimit(100)]
pub proof fn lemma_step_keeps_ranges(
    c: SettingsController,
    stored: Option<AppData>,
    command: SCommand,
    next: SettingsController,
    effect: SettingsEffect,
)
    requires
        settings_step(c, stored, command, next, effect),
        c.view.settings.within_ranges(),
        stored matches Some(d) ==> d.settings.within_ranges(),
    ensures
        next.view.settings.within_ranges(),
        effect matches SettingsEffect::PersistSettings { settings, previous, .. } ==> settings.within_ranges()
            && previous.within_ranges(),
{
    if is_flag_command(command) {
        lemma_general_flag_ranges(c.view.settings, command);
        lemma_search_flag_ranges(c.view.settings, command);
    } else {
        match command {
            SCommand::ShowPage(_) => {},
            SCommand::RestoreDefaultSettings => {},
            SCommand::SetMaxEditDistance(_) => {},
            SCommand::SetMaxResults(_) => {},
            SCommand::SetSearchWindowWidth(_) => {},
            SCommand::SetSettingsWindowWidth(_) => {},
            SCommand::SetFontScalePercent(_) => {},
            SCommand::StartRecording => {},
            SCommand::CancelRecording => {},
            SCommand::FinishRecording(_) => {},
            SCommand::SetRecordedModifiers(..) => {},
            SCommand::PersistHotkey(_) => {},
            SCommand::RestoreDefaultHotkey => {},
            SCommand::SyncHotkeyRuntime(..) => {},
            SCommand::RenameCategory(_) => {},
            SCommand::RenameTag(_) => {},
            SCommand::MergeTag { .. } => {},
            SCommand::PushImportPreview(..) => {},
            SCommand::ApplyImport => {},
            SCommand::DismissDataFlow => {},
            SCommand::DismissNotice => {},
            SCommand::SetBackups(_) => {},
            _ => {},
        }
    }
}

#[verifier::spinoff_prover]
proof fn lemma_general_flag_ranges(s: AppSettings, command: SCommand)
    ensures
        general_flag_settings(s, command).max_results == s.max_results,
        general_flag_settings(s, command).window_width == s.window_width,
        general_flag_settings(s, command).max_edit_distance == s.max_edit_distance,
        general_flag_settings(s, command).font_scale_percent == s.font_scale_percent,
        general_flag_settings(s, command).search_window_width == s.search_window_width,
        general_flag_settings(s, command).settings_window_width == s.settings_window_width,
{
    match command {
        SCommand::SetLaunchAtLogin(_) => {},
        SCommand::SetSilentStart(_) => {},
        SCommand::SetShowMainWindowAtStartup(_) => {},
        SCommand::SetHideAfterOpen(_) => {},
        SCommand::SetClearAfterOpen(_) => {},
        SCommand::SetHideOnFocusLoss(_) => {},
        SCommand::SetMonitorStrategy(_) => {},
        SCommand::SetLanguage(_) => {},
        SCommand::SetSearchPaths(_) => {},
        SCommand::SetSearchCategories(_) => {},
        SCommand::SetSearchTags(_) => {},
        _ => {},
    }
}

#[verifier::spinoff_prover]
proof fn lemma_search_flag_ranges(s: AppSettings, command: SCommand)
    ensures
        search_flag_settings(s, command).max_results == s.max_results,
        search_flag_settings(s, command).window_width == s.window_width,
        search_flag_settings(s, command).max_edit_distance == s.max_edit_distance,
        search_flag_settings(s, command).font_scale_percent == s.font_scale_percent,
        search_flag_settings(s, command).search_window_width == s.search_window_width,
        search_flag_settings(s, command).settings_window_width == s.settings_window_width,
{
    match command {
        SCommand::SetSearchNotes(_) => {},
        SCommand::SetSearchAliases(_) => {},
        SCommand::SetFuzzyMatching(_) => {},
        SCommand::SetSearchPinyin(_) => {},
        SCommand::SetSearchEnglishInitials(_) => {},
        SCommand::SetEmptyQueryStrategy(_) => {},
        SCommand::SetHighlightResults(_) => {},
        SCommand::SetRecentSort(_) => {},
        SCommand::SetTheme(_) => {},
        SCommand::SetRowHeight(_) => {},
        SCommand::SetShowPathInResults(_) => {},
        SCommand::SetShowCategoryTagInResults(_) => {},
        _ => {},
    }
}

/// Law: a settings save either shows what was asked to be stored (`Saved`)
/// or rolls the window back to the stored document's settings
/// (`SaveFailed`); a reset to defaults reports `ResetDefaultApplied` either
/// way.
pub proof fn lemma_save_outcome_rolls_back(
    c: SettingsController,
    d: AppData,
    command: SCommand,
    next: SettingsController,
    settings: AppSettings,
    previous: AppSettings,
    reset: bool,
)
    requires
        settings_step(c, Some(d), command, next, SettingsEffect::PersistSettings { settings, previous, reset }),
    ensures
        next.view.settings == settings,
        saved_outcome(next, previous, reset, true).view.settings == settings,
        saved_outcome(next, previous, reset, false).view.settings == d.settings,
        saved_outcome(next, previous, reset, true).view.notice == Some(
            if reset {
                SNotice::ResetDefaultApplied
            } else {
                SNotice::Saved
            },
        ),
        saved_outcome(next, previous, reset, false).view.notice == Some(
            if reset {
                SNotice::ResetDefaultApplied
            } else {
                SNotice::SaveFailed
            },
        ),
{
}

fn find_merge_target(tags: &Vec<Tag>, source: TagId, target_name: &str) -> (r: Option<TagId>)
    ensures
        r == merge_match(tags@, source, target_name@),
{
    let mut i: usize = 0;
    assert(tags@.skip(0) == tags@);
    while i < tags.len()
        invariant
            i <= tags@.len(),
            merge_match(tags@, source, target_name@) == merge_match(tags@.skip(i as int), source, target_name@),
        decreases tags@.len() - i,
    {
        assert(tags@.skip(i as int).drop_first() == tags@.skip(i + 1));
        let tag = &tags[i];
        if tag.id != source && names_equal(tag.name.as_str(), target_name) {
            return Some(tag.id);
        }
        i = i + 1;
    }
    None
}

fn category_taken(cats: &Vec<Category>, id: CategoryId, name: &str) -> (r: bool)
    ensures
        r == category_name_taken(cats@, id, name@),
{
    for i in 0..cats.len()
        invariant
            forall|k: int| 0 <= k < i ==> !(cats@[k].id != id && same_name(#[trigger] cats@[k].name@, name@)),
    {
        if cats[i].id != id && names_equal(cats[i].name.as_str(), name) {
            return true;
        }
    }
    false
}

fn tag_taken(tags: &Vec<Tag>, id: TagId, name: &str) -> (r: bool)
    ensures
        r == tag_name_taken(tags@, id, name@),
{
    for i in 0..tags.len()
        invariant
            forall|k: int| 0 <= k < i ==> !(tags@[k].id != id && same_name(#[trigger] tags@[k].name@, name@)),
    {
        if tags[i].id != id && names_equal(tags[i].name.as_str(), name) {
            return true;
        }
    }
    false
}

impl SettingsController {
    /// A controller over the stored document: its settings, or the defaults
    /// when there is none.
    pub fn new(stored: &Option<AppData>) -> (r: SettingsController)
        ensures
            r.view.settings == previous_settings(*stored, AppSettings::baseline()),
            r.view.one_level_import_os == (stored matches Some(d) && d.settings.one_level_import),
            r.view.page == 0,
            r.view.launch_at_login_os is None,
            r.view.notice is None,
            r.view.hotkey_runtime == HotkeyRuntime::Disabled,
            r.view.hotkey_last_error is None,
            r.view.hotkey_record_phase == HotkeyRecordPhase::Idle,
            r.view.hotkey_draft is None,
            r.view.data_flow == DataFlow::Closed,
            r.view.backups@.len() == 0,
            r.recorded_modifiers is None,
    {
        let mut view = SView::default();
        match stored {
            Some(d) => {
                view.settings = d.settings;
                view.one_level_import_os = d.settings.one_level_import;
            },
            None => {},
        }
        SettingsController { view, recorded_modifiers: None }
    }

    /// What the window shows.
    pub fn view(&self) -> (r: &SView)
        ensures
            *r == self.view,
    {
        &self.view
    }

    /// Re-reads the stored settings into the window.
    pub fn reload(&mut self, stored: &Option<AppData>)
        ensures
            *final(self) == reloaded(*old(self), *stored),
    {
        match stored {
            Some(d) => {
                self.view.settings = d.settings;
                self.view.one_level_import_os = d.settings.one_level_import;
            },
            None => {},
        }
    }

    /// Records what the system says of the start-with-session entry.
    pub fn set_launch_at_login_os(&mut self, os: Option<bool>)
        ensures
            *final(self) == (SettingsController { view: SView { launch_at_login_os: os, ..old(self).view }, ..*old(self) }),
    {
        self.view.launch_at_login_os = os;
    }

    /// Whether the setting and the system agree (an unknown system state
    /// contradicts nothing).
    pub fn launch_at_login_matches_os(&self) -> (r: bool)
        ensures
            r == match self.view.launch_at_login_os {
                Some(os) => os == self.view.settings.launch_at_login,
                None => true,
            },
    {
        match self.view.launch_at_login_os {
            Some(os) => os == self.view.settings.launch_at_login,
            None => true,
        }
    }

    /// Shows a parsed import's plan for confirmation.
    pub fn push_import_preview(&mut self, plan: ImportPlan, mode: ImportMode)
        ensures
            *final(self) == (SettingsController {
                view: SView { data_flow: DataFlow::ImportPreview { plan, mode }, ..old(self).view },
                ..*old(self)
            }),
    {
        self.view.data_flow = DataFlow::ImportPreview { plan, mode };
    }

    /// Lists the backups found.
    pub fn set_backups(&mut self, backups: Vec<String>)
        ensures
            *final(self) == (SettingsController { view: SView { backups, ..old(self).view }, ..*old(self) }),
    {
        self.view.backups = backups;
    }

    /// Shows a notice.
    pub fn set_notice(&mut self, notice: SNotice)
        ensures
            *final(self) == with_notice(*old(self), notice),
    {
        self.view.notice = Some(notice);
    }

    fn persist(&self, stored: &Option<AppData>, reset: bool) -> (e: SettingsEffect)
        ensures
            e == (SettingsEffect::PersistSettings {
                settings: self.view.settings,
                previous: previous_settings(*stored, self.view.settings),
                reset,
            }),
    {
        let previous = match stored {
            Some(d) => d.settings,
            None => self.view.settings,
        };
        SettingsEffect::PersistSettings { settings: self.view.settings, previous, reset }
    }

    fn cancelled_recording(self) -> (r: SettingsController)
        ensures
            r == cancelled(self),
    {
        let mut c = self;
        c.view.hotkey_record_phase = HotkeyRecordPhase::Idle;
        c.view.hotkey_draft = None;
        c.recorded_modifiers = None;
        c
    }

    /// Carries out one command (see [`settings_step`]): the next controller
    /// and the store work it asks for.
    #[verifier::spinoff_prover]
    #[verifier::rlimit(50)]
    pub fn handle(self, stored: &Option<AppData>, command: SCommand) -> (r: (SettingsController, SettingsEffect))
        ensures
            settings_step(self, *stored, command, r.0, r.1),
    {
        match command {
            SCommand::RenameCategory(cmd) => self.rename_category(stored, cmd),
            SCommand::RenameTag(cmd) => self.rename_tag(stored, cmd),
            SCommand::ShowPage(page) => {
                let mut c = self;
                c.view.page = if page < 8 { page } else { 8 };
                (c, SettingsEffect::Nothing)
            },
            SCommand::RestoreDefaultSettings => {
                let mut c = self;
                c.view.settings = AppSettings::default();
                let e = c.persist(stored, true);
                (c, e)
            },
            SCommand::SetMaxEditDistance(d) => {
                let s = AppSettings { max_edit_distance: if d < 2 { d } else { 2 }, ..self.view.settings };
                self.with_settings(stored, s)
            },
            SCommand::SetMaxResults(n) => {
                let s = AppSettings { max_results: clamp_u16(n, 1, 100), ..self.view.settings };
                self.with_settings(stored, s)
            },
            SCommand::SetSearchWindowWidth(w) => {
                let s = AppSettings { search_window_width: Some(clamp_u16(w, 480, 760)), ..self.view.settings };
                self.with_settings(stored, s)
            },
            SCommand::SetSettingsWindowWidth(w) => {
                let s = AppSettings { settings_window_width: Some(clamp_u16(w, 760, 1600)), ..self.view.settings };
                self.with_settings(stored, s)
            },
            SCommand::SetFontScalePercent(p) => {
                let s = AppSettings { font_scale_percent: clamp_u16(p, 80, 150), ..self.view.settings };
                self.with_settings(stored, s)
            },
            SCommand::SetLaunchAtLogin(_)
            | SCommand::SetSilentStart(_)
            | SCommand::SetShowMainWindowAtStartup(_)
            | SCommand::SetHideAfterOpen(_)
            | SCommand::SetClearAfterOpen(_)
            | SCommand::SetHideOnFocusLoss(_)
            | SCommand::SetMonitorStrategy(_)
            | SCommand::SetLanguage(_)
            | SCommand::SetSearchPaths(_)
            | SCommand::SetSearchCategories(_)
            | SCommand::SetSearchTags(_)
            | SCommand::SetSearchNotes(_)
            | SCommand::SetSearchAliases(_)
            | SCommand::SetFuzzyMatching(_)
            | SCommand::SetSearchPinyin(_)
            | SCommand::SetSearchEnglishInitials(_)
            | SCommand::SetEmptyQueryStrategy(_)
            | SCommand::SetHighlightResults(_)
            | SCommand::SetRecentSort(_)
            | SCommand::SetTheme(_)
            | SCommand::SetRowHeight(_)
            | SCommand::SetShowPathInResults(_)
            | SCommand::SetShowCategoryTagInResults(_) => self.flag_step(stored, command),
            SCommand::StartRecording
            | SCommand::CancelRecording
            | SCommand::FinishRecording(_)
            | SCommand::SetRecordedModifiers(..)
            | SCommand::PersistHotkey(_)
            | SCommand::RestoreDefaultHotkey
            | SCommand::SyncHotkeyRuntime(..)
            | SCommand::MergeTag { .. }
            | SCommand::PushImportPreview(..)
            | SCommand::ApplyImport
            | SCommand::DismissDataFlow
            | SCommand::DismissNotice
            | SCommand::SetBackups(_) => self.other_step(stored, command),
        }
    }

    fn with_settings(self, stored: &Option<AppData>, s: AppSettings) -> (r: (SettingsController, SettingsEffect))
        ensures
            r == persist_settings(self, *stored, s),
    {
        let mut c = self;
        c.view.settings = s;
        let e = c.persist(stored, false);
        (c, e)
    }

    fn rename_category(self, stored: &Option<AppData>, cmd: CategoryNameCommand) -> (r: (SettingsController, SettingsEffect))
        ensures
            settings_step(self, *stored, SCommand::RenameCategory(cmd), r.0, r.1),
    {
        let mut c = self;
        if !valid_named_value(cmd.name.as_str(), MAX_TAG_NAME_LEN) {
            c.view.notice = Some(SNotice::SaveFailed);
            return (c, SettingsEffect::Nothing);
        }
        match stored {
            None => (c, SettingsEffect::Nothing),
            Some(d) => {
                if category_taken(&d.categories, cmd.id, cmd.name.as_str()) {
                    c.view.notice = Some(SNotice::SaveFailed);
                    (c, SettingsEffect::Nothing)
                } else {
                    let name = crate::presentation::management::normalize_name(cmd.name.as_str());
                    (c, SettingsEffect::RenameCategory { category: cmd.id, name })
                }
            },
        }
    }

    fn rename_tag(self, stored: &Option<AppData>, cmd: TagNameCommand) -> (r: (SettingsController, SettingsEffect))
        ensures
            settings_step(self, *stored, SCommand::RenameTag(cmd), r.0, r.1),
    {
        let mut c = self;
        if !valid_named_value(cmd.name.as_str(), MAX_TAG_NAME_LEN) {
            c.view.notice = Some(SNotice::SaveFailed);
            return (c, SettingsEffect::Nothing);
        }
        match stored {
            None => (c, SettingsEffect::Nothing),
            Some(d) => {
                if tag_taken(&d.tags, cmd.id, cmd.name.as_str()) {
                    c.view.notice = Some(SNotice::SaveFailed);
                    (c, SettingsEffect::Nothing)
                } else {
                    let name = crate::presentation::management::normalize_name(cmd.name.as_str());
                    (c, SettingsEffect::RenameTag { tag: cmd.id, name })
                }
            },
        }
    }

    /// The commands that set one plain field of the settings.
    fn flag_step(self, stored: &Option<AppData>, command: SCommand) -> (r: (SettingsController, SettingsEffect))
        requires
            is_flag_command(command),
        ensures
            (r.0, r.1) == plain_step(self, *stored, command),
    {
        let s = match command {
            SCommand::SetLaunchAtLogin(_)
            | SCommand::SetSilentStart(_)
            | SCommand::SetShowMainWindowAtStartup(_)
            | SCommand::SetHideAfterOpen(_)
            | SCommand::SetClearAfterOpen(_)
            | SCommand::SetHideOnFocusLoss(_)
            | SCommand::SetMonitorStrategy(_)
            | SCommand::SetLanguage(_)
            | SCommand::SetSearchPaths(_)
            | SCommand::SetSearchCategories(_)
            | SCommand::SetSearchTags(_) => apply_general_flag(self.view.settings, &command),
            _ => apply_search_flag(self.view.settings, &command),
        };
        self.with_settings(stored, s)
    }

    /// The recording, hotkey and Data-page commands.
    #[verifier::spinoff_prover]
    #[verifier::rlimit(50)]
    fn other_step(self, stored: &Option<AppData>, command: SCommand) -> (r: (SettingsController, SettingsEffect))
        requires
            is_other_command(command),
        ensures
            (r.0, r.1) == plain_step(self, *stored, command),
    {
        let mut c = self;
        match command {
            SCommand::StartRecording => {
                c.view.hotkey_record_phase = HotkeyRecordPhase::Listening;
                c.recorded_modifiers = Some(HotkeyModifiers::default());
                c.view.hotkey_draft = current_recorded(c.recorded_modifiers, None);
                (c, SettingsEffect::Nothing)
            },
            SCommand::CancelRecording => (c.cancelled_recording(), SettingsEffect::Nothing),
            SCommand::SetRecordedModifiers(control, alt, shift, win) => {
                c.recorded_modifiers = Some(HotkeyModifiers { control, alt, shift, win });
                (c, SettingsEffect::Nothing)
            },
            SCommand::FinishRecording(key) => {
                if c.view.hotkey_record_phase != HotkeyRecordPhase::Listening {
                    return (c, SettingsEffect::Nothing);
                }
                let modifiers = match c.recorded_modifiers {
                    Some(m) => m,
                    None => HotkeyModifiers::default(),
                };
                if !validate_hotkey(modifiers, key) {
                    c.view.notice = Some(SNotice::HotkeyInvalid);
                    return (c.cancelled_recording(), SettingsEffect::Nothing);
                }
                c.view.hotkey_draft = Some(HotkeySetting { modifiers, key });
                (c, SettingsEffect::Nothing)
            },
            SCommand::PersistHotkey(h) => {
                let settings = AppSettings { hotkey: h, ..c.view.settings };
                c.view.settings = settings;
                c.view.hotkey_runtime = match h {
                    Some(_) => HotkeyRuntime::Active,
                    None => HotkeyRuntime::Disabled,
                };
                c.view.hotkey_last_error = None;
                let e = c.persist(stored, false);
                (c, e)
            },
            SCommand::RestoreDefaultHotkey => {
                let settings = AppSettings { hotkey: Some(default_hotkey()), ..c.view.settings };
                c.view.settings = settings;
                c.view.hotkey_runtime = HotkeyRuntime::Active;
                c.view.hotkey_last_error = None;
                let e = c.persist(stored, false);
                (c, e)
            },
            SCommand::SyncHotkeyRuntime(runtime, error) => {
                c.view.hotkey_runtime = runtime;
                c.view.hotkey_last_error = error;
                (c, SettingsEffect::Nothing)
            },
            SCommand::MergeTag { source, target_name } => match stored {
                None => (c, SettingsEffect::Nothing),
                Some(d) => match find_merge_target(&d.tags, source, target_name.as_str()) {
                    None => {
                        c.view.notice = Some(SNotice::SaveFailed);
                        (c, SettingsEffect::Nothing)
                    },
                    Some(target) => (c, SettingsEffect::MergeTag { source, target }),
                },
            },
            SCommand::PushImportPreview(plan, mode) => {
                c.view.data_flow = DataFlow::ImportPreview { plan, mode };
                (c, SettingsEffect::Nothing)
            },
            SCommand::ApplyImport => {
                let previewing = match &c.view.data_flow {
                    DataFlow::ImportPreview { .. } => true,
                    _ => false,
                };
                if previewing && stored.is_some() {
                    c.view.notice = Some(SNotice::ImportApplied);
                    c.view.data_flow = DataFlow::Closed;
                    c.reload(stored);
                }
                (c, SettingsEffect::Nothing)
            },
            SCommand::DismissDataFlow => {
                c.view.data_flow = DataFlow::Closed;
                (c, SettingsEffect::Nothing)
            },
            SCommand::DismissNotice => {
                c.view.notice = None;
                (c, SettingsEffect::Nothing)
            },
            SCommand::SetBackups(b) => {
                c.view.backups = b;
                (c, SettingsEffect::Nothing)
            },
            _ => (c, SettingsEffect::Nothing),
        }
    }

    /// Takes the outcome of a [`SettingsEffect::PersistSettings`] (see
    /// [`saved_outcome`]).
    pub fn after_save(&mut self, previous: AppSettings, reset: bool, saved: bool)
        ensures
            *final(self) == saved_outcome(*old(self), previous, reset, saved),
    {
        if !saved {
            self.view.settings = previous;
        }
        self.view.notice = Some(
            if reset {
                SNotice::ResetDefaultApplied
            } else if saved {
                SNotice::Saved
            } else {
                SNotice::SaveFailed
            },
        );
    }

    /// Takes the outcome of a rename or merge: `Saved` when the store
    /// changed the record and saved, `SaveFailed` otherwise.
    pub fn after_record_change(&mut self, ok: bool)
        ensures
            *final(self) == with_notice(*old(self), if ok { SNotice::Saved } else { SNotice::SaveFailed }),
    {
        self.view.notice = Some(if ok { SNotice::Saved } else { SNotice::SaveFailed });
    }

    fn commit_combo(self, stored: &Option<AppData>, combo: HotkeySetting) -> (r: (SettingsController, SettingsEffect))
        ensures
            r == committed(self, *stored, combo),
    {
        let settings = AppSettings { hotkey: Some(combo), ..self.view.settings };
        let mut c = self;
        c.view.settings = settings;
        c.view.hotkey_draft = None;
        c.view.hotkey_record_phase = HotkeyRecordPhase::Idle;
        c.recorded_modifiers = None;
        let e = c.persist(stored, false);
        (c, e)
    }

    /// Commits the recorded combination (see [`commit_step`]): the next
    /// controller, the store work, and whether it was committed.
    #[verifier::spinoff_prover]
    pub fn commit_recorded(self, stored: &Option<AppData>) -> (r: (SettingsController, SettingsEffect, bool))
        ensures
            r == commit_step(self, *stored),
    {
        let mut c = self;
        match c.view.hotkey_draft {
            None => (c, SettingsEffect::Nothing, false),
            Some(combo) => {
                if !validate_hotkey(combo.modifiers, combo.key) {
                    c.view.notice = Some(SNotice::HotkeyInvalid);
                    return (c.cancelled_recording(), SettingsEffect::Nothing, false);
                }
                let (c, e) = c.commit_combo(stored, combo);
                (c, e, true)
            },
        }
    }
}

} // verus!
