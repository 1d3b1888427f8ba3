//! The management window's controller over an in-memory document: the
//! controller decides, the harness stores what it asks for.

use filego::domain::{AppData, AppSettings, Category, CategoryId, FolderEntry, FolderId, Tag, TagId};
use filego::presentation::management::{ChildImportChoice, DuplicatePolicy, FolderRow};
use filego::presentation::manager::{
    batch_records, BatchItem, BatchStatus, MCommand, ManagementController, Notice, StoreAction,
};
use filego::storage::records::{
    change_folder_record, merge_tag_records, put_folder_record, remove_category_records, remove_tag_records,
    rename_category_record, rename_tag_record, restore_removed_record, FolderChange,
};

fn seed() -> AppData {
    AppData {
        settings: AppSettings::default(),
        folders: vec![FolderEntry {
            id: FolderId::from_u128(10),
            display_name: "Documents".to_owned(),
            aliases: Vec::new(),
            path: r"C:\Users\me\Documents".to_owned(),
            enabled: true,
            favorite: false,
            pinned: true,
            manual_weight: 0,
            category_id: Some(CategoryId::from_u128(1)),
            tag_ids: vec![TagId::from_u128(2)],
            note: String::new(),
            color: None,
            sort_order: 0,
            created_at: 100,
            updated_at: 100,
            last_opened_at: Some(200),
            open_count: 0,
        }],
        categories: vec![Category { id: CategoryId::from_u128(1), name: "工作".to_owned(), color: None }],
        tags: vec![
            Tag { id: TagId::from_u128(2), name: "重要".to_owned() },
            Tag { id: TagId::from_u128(3), name: "客户 A".to_owned() },
        ],
        revision: 1,
    }
}

struct Window {
    controller: ManagementController,
    doc: AppData,
    next_id: u128,
    now: i64,
}

impl Window {
    fn new() -> Self {
        Window { controller: ManagementController::new(false), doc: seed(), next_id: 1000, now: 5_000 }
    }

    fn fresh(&mut self) -> FolderId {
        self.next_id += 1;
        FolderId::from_u128(self.next_id)
    }

    fn handle(&mut self, command: MCommand) {
        let fresh = self.fresh();
        let (next, action) = self.controller.clone().handle(&self.doc, command, fresh, self.now);
        self.controller = next;
        let outside = matches!(
            action,
            StoreAction::CountChildren(_) | StoreAction::ListChildren(_) | StoreAction::ProbePath(_)
        );
        if action != StoreAction::Nothing && !outside {
            let found = self.carry_out(&action);
            if found {
                self.doc.revision += 1;
            }
            self.controller = self.controller.clone().after_store(&action, found, true);
        }
    }

    fn rows(&self) -> Vec<FolderRow> {
        self.controller.rows(&self.doc)
    }

    fn folder_mut(&mut self, id: FolderId) -> Option<&mut FolderEntry> {
        self.doc.folders.iter_mut().find(|f| f.id == id)
    }

    /// Store what `action` asks for; whether the record it names existed.
    fn carry_out(&mut self, action: &StoreAction) -> bool {
        match action.clone() {
            StoreAction::Nothing => true,
            StoreAction::PutFolder(entry) => {
                match self.folder_mut(entry.id) {
                    Some(existing) => *existing = entry,
                    None => self.doc.folders.push(entry),
                }
                true
            }
            StoreAction::AddBatch => {
                let count = self.controller.batch.len();
                let ids: Vec<FolderId> = (0..count).map(|_| self.fresh()).collect();
                let records = batch_records(&self.controller.batch, &ids, 5_000);
                self.doc.folders.extend(records);
                true
            }
            StoreAction::SetEnabled(id, on) => self.folder_mut(id).map(|f| f.enabled = on).is_some(),
            StoreAction::SetPinned(id, on) => self.folder_mut(id).map(|f| f.pinned = on).is_some(),
            StoreAction::SetFavorite(id, on) => self.folder_mut(id).map(|f| f.favorite = on).is_some(),
            StoreAction::Relocate(id, path) => self.folder_mut(id).map(|f| f.path = path).is_some(),
            StoreAction::PutCategory(category) => {
                self.doc.categories.push(category);
                true
            }
            StoreAction::RenameCategory(id, name) => match rename_category_record(&self.doc.categories, id, name) {
                Some(categories) => {
                    self.doc.categories = categories;
                    true
                }
                None => false,
            },
            StoreAction::RemoveCategory(id) => {
                let before = self.doc.categories.len();
                self.doc.categories.retain(|c| c.id != id);
                for f in &mut self.doc.folders {
                    if f.category_id == Some(id) {
                        f.category_id = None;
                    }
                }
                self.doc.categories.len() != before
            }
            StoreAction::PutTag(tag) => {
                self.doc.tags.push(tag);
                true
            }
            StoreAction::RenameTag(id, name) => match rename_tag_record(&self.doc.tags, id, name) {
                Some(tags) => {
                    self.doc.tags = tags;
                    true
                }
                None => false,
            },
            StoreAction::MergeTag(source, target) => {
                let (folders, tags) = merge_tag_records(&self.doc.folders, &self.doc.tags, source, target);
                self.doc.folders = folders;
                self.doc.tags = tags;
                true
            }
            StoreAction::RemoveTag(id) => {
                let before = self.doc.tags.len();
                self.doc.tags.retain(|t| t.id != id);
                for f in &mut self.doc.folders {
                    f.tag_ids.retain(|t| *t != id);
                }
                self.doc.tags.len() != before
            }
            StoreAction::SetOneLevelImport(on) => {
                self.doc.settings.one_level_import = on;
                true
            }
            StoreAction::RemoveRecord(id) => {
                let before = self.doc.folders.len();
                self.doc.folders.retain(|f| f.id != id);
                self.doc.folders.len() != before
            }
            StoreAction::RestoreRemoved => match self.controller.pending_remove.clone() {
                Some(pending) if pending.previous_revision + 1 == self.doc.revision => {
                    self.doc.folders.push(pending.payload);
                    true
                }
                _ => false,
            },
            StoreAction::CountChildren(_) | StoreAction::ListChildren(_) | StoreAction::ProbePath(_) => true,
        }
    }
}

#[test]
fn add_draft_validates_duplicate_and_default_blocks() {
    let mut window = Window::new();
    window.handle(MCommand::OpenManual);
    window.handle(MCommand::EditPath(r"C:\Users\me\Documents".to_owned()));
    window.handle(MCommand::SaveDraft);
    assert_eq!(window.controller.notice, Some(Notice::DuplicateBlocked));
    assert_eq!(window.doc.folders.len(), 1, "duplicate must not be added");
}

#[test]
fn add_draft_unique_path_saves_and_appears_in_list() {
    let mut window = Window::new();
    window.handle(MCommand::OpenManual);
    window.handle(MCommand::EditPath(r"D:\new\资料".to_owned()));
    window.handle(MCommand::EditName("资料".to_owned()));
    window.handle(MCommand::SaveDraft);
    assert_eq!(window.controller.notice, Some(Notice::Saved));
    assert_eq!(window.doc.folders.len(), 2);
    assert_eq!(window.rows().len(), 2);
    assert!(window.controller.draft.is_none(), "a stored draft closes the dialog");
}

#[test]
fn invalid_path_is_rejected_without_changing_data() {
    let mut window = Window::new();
    window.handle(MCommand::OpenManual);
    window.handle(MCommand::EditPath("   ".to_owned()));
    window.handle(MCommand::SaveDraft);
    assert_eq!(window.controller.notice, Some(Notice::InvalidPath));
    assert_eq!(window.doc.folders.len(), 1);
}

#[test]
fn edit_preserves_existing_record_by_id() {
    let mut window = Window::new();
    let id = FolderId::from_u128(10);
    window.handle(MCommand::EditFolder(id));
    window.handle(MCommand::EditPath(r"C:\Users\me\Documents\x".to_owned()));
    window.handle(MCommand::SaveDraft);
    assert_eq!(window.doc.folders.len(), 1, "edit must not duplicate");
    assert_eq!(window.controller.notice, Some(Notice::Saved));
    assert_eq!(window.doc.folders[0].id, id);
    assert_eq!(window.doc.folders[0].created_at, 100);
    assert_eq!(window.doc.folders[0].display_name, "x");
}

#[test]
fn toggle_enable_and_pin_persist_and_list_reflects_status() {
    let mut window = Window::new();
    let id = FolderId::from_u128(10);
    window.handle(MCommand::SetFilterEnabled(Some(false)));
    assert_eq!(window.rows().len(), 0);
    window.handle(MCommand::ToggleEnable(id));
    window.handle(MCommand::SetFilterEnabled(Some(false)));
    assert_eq!(window.rows().len(), 1, "disabled filter shows it");
    assert!(!window.rows()[0].enabled);
    window.handle(MCommand::TogglePin(id));
    assert!(!window.doc.folders[0].pinned);
    window.handle(MCommand::ToggleFavorite(id));
    assert!(window.doc.folders[0].favorite);
}

#[test]
fn category_create_rename_delete_updates_references() {
    let mut window = Window::new();
    window.handle(MCommand::CreateCategory("新分类".to_owned()));
    assert_eq!(window.doc.categories.len(), 2);
    let new_id = window.doc.categories[1].id;
    let folder_id = FolderId::from_u128(10);
    window.handle(MCommand::EditFolder(folder_id));
    window.handle(MCommand::SetDraftCategory(Some(new_id)));
    window.handle(MCommand::SaveDraft);
    window.handle(MCommand::RenameCategory(new_id, " 新分类2 ".to_owned()));
    assert_eq!(window.doc.categories[1].name, "新分类2");
    window.handle(MCommand::DeleteCategory(new_id));
    assert_eq!(window.doc.categories.len(), 1);
    assert!(window.doc.folders[0].category_id.is_none(), "deleted category clears reference");
    assert_eq!(window.doc.folders.len(), 1, "folder survives category delete");
    window.handle(MCommand::DeleteCategory(new_id));
    assert_eq!(window.controller.notice, Some(Notice::NotFound));
}

#[test]
fn tag_create_blocks_exact_duplicate_and_merge_updates_usage() {
    let mut window = Window::new();
    window.handle(MCommand::CreateTag("重要".to_owned()));
    assert_eq!(window.doc.tags.len(), 2);
    assert_eq!(window.controller.notice, Some(Notice::InvalidName));
    window.handle(MCommand::CreateTag("新标签".to_owned()));
    assert_eq!(window.doc.tags.len(), 3);
    let important = TagId::from_u128(2);
    window.handle(MCommand::MergeTag(important, "新标签".to_owned()));
    assert!(!window.doc.folders[0].tag_ids.contains(&important));
    assert_eq!(window.doc.tags.len(), 2, "source tag removed");
}

#[test]
fn tag_delete_clears_associations_only() {
    let mut window = Window::new();
    window.handle(MCommand::DeleteTag(TagId::from_u128(2)));
    assert!(window.doc.folders[0].tag_ids.is_empty());
    assert_eq!(window.doc.folders.len(), 1);
}

#[test]
fn filter_by_name_is_case_insensitive() {
    let mut window = Window::new();
    window.handle(MCommand::SetFilterName("doc".to_owned()));
    assert_eq!(window.rows().len(), 1);
    window.handle(MCommand::SetFilterName("DOC".to_owned()));
    assert_eq!(window.rows().len(), 1);
}

#[test]
fn duplicate_policy_edit_existing_opens_the_existing_record() {
    let mut window = Window::new();
    window.handle(MCommand::OpenManual);
    window.handle(MCommand::EditPath(r"C:\Users\me\Documents".to_owned()));
    window.handle(MCommand::EditName("Documents copy".to_owned()));
    window.handle(MCommand::SaveDraft);
    assert_eq!(window.controller.notice, Some(Notice::DuplicateBlocked));
    window.handle(MCommand::ResolveDuplicate(DuplicatePolicy::EditExisting));
    let draft = window.controller.draft.clone().expect("edit draft");
    assert_eq!(draft.id, Some(FolderId::from_u128(10)));
    assert_eq!(draft.display_name, "Documents");
    assert_eq!(window.doc.folders.len(), 1);
}

#[test]
fn duplicate_policy_save_as_different_name_adds_an_independent_record() {
    let mut window = Window::new();
    window.handle(MCommand::OpenManual);
    window.handle(MCommand::EditPath(r"C:\Users\me\Documents".to_owned()));
    window.handle(MCommand::EditName("Documents 2".to_owned()));
    window.handle(MCommand::ResolveDuplicate(DuplicatePolicy::SaveAsDifferentName));
    assert_eq!(window.controller.notice, Some(Notice::Saved));
    assert_eq!(window.doc.folders.len(), 2, "independent record added");
    let names: Vec<&str> = window.doc.folders.iter().map(|f| f.display_name.as_str()).collect();
    assert!(names.contains(&"Documents"));
    assert!(names.contains(&"Documents 2"));
}

#[test]
fn duplicate_policy_cancel_blocks_without_change() {
    let mut window = Window::new();
    window.handle(MCommand::OpenManual);
    window.handle(MCommand::EditPath(r"C:\Users\me\Documents".to_owned()));
    window.handle(MCommand::ResolveDuplicate(DuplicatePolicy::Cancel));
    assert_eq!(window.controller.notice, Some(Notice::DuplicateBlocked));
    assert_eq!(window.doc.folders.len(), 1);
}

#[test]
fn applying_a_batch_adds_only_ready_items_and_clears_the_preview() {
    let mut window = Window::new();
    window.controller.batch = vec![
        BatchItem { path: r"C:\new\one".to_owned(), name: "one".to_owned(), status: BatchStatus::Ready },
        BatchItem {
            path: r"C:\Users\me\Documents".to_owned(),
            name: "Documents".to_owned(),
            status: BatchStatus::Duplicate,
        },
        BatchItem { path: r"D:\new\two".to_owned(), name: "two".to_owned(), status: BatchStatus::Ready },
    ];
    window.handle(MCommand::ApplyBatch);
    assert_eq!(window.doc.folders.len(), 1 + 2, "only the two ready items added");
    assert!(window.controller.batch.is_empty());
    assert_eq!(window.controller.notice, Some(Notice::Saved));
}

#[test]
fn a_failed_store_keeps_the_draft_and_reports_it() {
    let mut window = Window::new();
    window.handle(MCommand::OpenManual);
    window.handle(MCommand::EditPath(r"E:\fresh".to_owned()));
    let fresh = FolderId::from_u128(1);
    let (next, action) = window.controller.clone().handle(&window.doc, MCommand::SaveDraft, fresh, 1);
    assert!(matches!(action, StoreAction::PutFolder(_)));
    let after = next.after_store(&action, true, false);
    assert_eq!(after.notice, Some(Notice::SaveFailed));
    assert!(after.draft.is_some());
}

#[test]
fn draft_edits_before_opening_do_nothing() {
    let mut window = Window::new();
    window.handle(MCommand::EditName("x".to_owned()));
    window.handle(MCommand::SaveDraft);
    assert!(window.controller.draft.is_none());
    assert_eq!(window.controller.notice, None);
    window.handle(MCommand::Relocate(FolderId::from_u128(99), r"D:\x".to_owned()));
    assert_eq!(window.controller.notice, Some(Notice::NotFound));
    window.handle(MCommand::DismissNotice);
    assert_eq!(window.controller.notice, None);
}

#[test]
fn multi_pick_previews_batch_and_applies_ready_only() {
    let mut window = Window::new();
    let paths = vec![
        r"C:\new\one".to_owned(),
        r"C:\Users\me\Documents".to_owned(),
        r"D:\new\two".to_owned(),
    ];
    window.handle(MCommand::OpenPickPaths(paths));
    assert_eq!(window.controller.batch.len(), 3);
    assert_eq!(window.controller.batch[1].status, BatchStatus::Duplicate);
    assert_eq!(window.controller.batch[0].name, "one");
    window.handle(MCommand::ApplyBatch);
    assert_eq!(window.doc.folders.len(), 1 + 2, "only the two ready items added");
}

#[test]
fn one_level_import_toggle_persists_and_controls_the_offer() {
    let mut window = Window::new();
    assert!(!window.controller.one_level_import_setting);
    window.handle(MCommand::SetOneLevelImport(true));
    assert!(window.controller.one_level_import_setting);
    assert!(window.doc.settings.one_level_import);
    window.handle(MCommand::SetOneLevelImport(false));
    assert!(!window.controller.one_level_import_setting);
    assert!(!window.doc.settings.one_level_import);
}

#[test]
fn one_level_import_offer_follows_setting_and_counts() {
    let off = ManagementController::new(false);
    let (c, action) = off.handle(&seed(), MCommand::OpenPickPaths(vec![r"C:\a".to_owned()]), FolderId::from_u128(1), 0);
    assert_eq!(action, StoreAction::Nothing);
    assert!(c.import_offer.is_none());
    assert_eq!(c.draft.expect("draft").display_name, "a");

    let on = ManagementController::new(true);
    let (c, action) = on.handle(&seed(), MCommand::OpenPickPaths(vec![r"C:\a".to_owned()]), FolderId::from_u128(1), 0);
    assert_eq!(action, StoreAction::CountChildren(r"C:\a".to_owned()));
    let offered = c.clone().after_child_count(r"C:\a".to_owned(), 250);
    let offer = offered.import_offer.clone().expect("offer");
    assert_eq!(offer.child_count, 100, "capped at the one-level limit");
    let none = c.after_child_count(r"C:\a".to_owned(), 0);
    assert!(none.import_offer.is_none());
    assert!(none.draft.is_some());

    let (c, action) = offered.clone().handle(&seed(), MCommand::ChooseImport(ChildImportChoice::DirectChildren), FolderId::from_u128(1), 0);
    assert_eq!(action, StoreAction::ListChildren(r"C:\a".to_owned()));
    let (c, _) = c.after_children(&seed().folders, r"C:\a".to_owned(), vec![r"C:\a\x".to_owned(), r"C:\a\y".to_owned()]);
    assert!(c.import_offer.is_none());
    assert_eq!(c.batch.len(), 2);
    let (empty, _) = offered.clone().after_children(&seed().folders, r"C:\a".to_owned(), Vec::new());
    assert_eq!(empty.notice, Some(Notice::ImportLimited));
    assert!(empty.draft.is_some());
    let (parent, _) = offered.handle(&seed(), MCommand::ChooseImport(ChildImportChoice::ParentOnly), FolderId::from_u128(1), 0);
    assert!(parent.import_offer.is_none());
    assert_eq!(parent.draft.expect("draft").path, r"C:\a");
}

#[test]
fn remove_then_undo_restores_within_window() {
    let mut window = Window::new();
    let id = FolderId::from_u128(10);
    window.handle(MCommand::StartRemove(id));
    assert_eq!(window.doc.folders.len(), 0);
    assert!(window.controller.pending_remove.is_some());
    assert_eq!(window.controller.notice, Some(Notice::Removed));
    window.handle(MCommand::UndoRemove);
    assert_eq!(window.doc.folders.len(), 1);
    assert_eq!(window.doc.folders[0].display_name, "Documents");
    assert_eq!(window.controller.notice, Some(Notice::Restored));
}

#[test]
fn remove_undo_expires_and_cannot_undo() {
    let mut window = Window::new();
    let id = FolderId::from_u128(10);
    window.handle(MCommand::StartRemove(id));
    window.now += 2 * 8_000;
    window.handle(MCommand::UndoRemove);
    assert_eq!(window.doc.folders.len(), 0);
    assert_eq!(window.controller.notice, Some(Notice::UndoExpired));
}

#[test]
fn undo_is_refused_after_an_intervening_save() {
    let mut window = Window::new();
    let id = FolderId::from_u128(10);
    window.handle(MCommand::StartRemove(id));
    window.doc.revision += 1;
    window.handle(MCommand::UndoRemove);
    assert_eq!(window.doc.folders.len(), 0);
    assert_eq!(window.controller.notice, Some(Notice::CannotUndo));
    assert!(window.controller.pending_remove.is_none());
}

#[test]
fn check_path_reports_reachability_and_keeps_the_record() {
    let mut window = Window::new();
    let id = FolderId::from_u128(10);
    let (c, action) = window.controller.clone().handle(&window.doc, MCommand::CheckPath(id), FolderId::from_u128(1), 0);
    assert_eq!(action, StoreAction::ProbePath(r"C:\Users\me\Documents".to_owned()));
    let c = c.after_probe(false);
    assert_eq!(c.notice, Some(Notice::PathInaccessible));
    assert_eq!(window.doc.folders.len(), 1, "inaccessible path keeps the record");
    window.handle(MCommand::CheckPath(FolderId::from_u128(99)));
    assert_eq!(window.controller.notice, Some(Notice::NotFound));
    window.handle(MCommand::StartRemove(id));
    window.handle(MCommand::DismissUndo);
    assert!(window.controller.pending_remove.is_none());
}

#[test]
fn record_changes_touch_only_what_they_name() {
    let data = seed();
    let mut other = data.folders[0].clone();
    other.id = FolderId::from_u128(11);
    other.path = r"D:\other".to_owned();
    let folders = put_folder_record(&data.folders, other.clone());
    assert_eq!(folders.len(), 2);
    let mut renamed = other.clone();
    renamed.display_name = "Other".to_owned();
    let folders = put_folder_record(&folders, renamed);
    assert_eq!(folders.len(), 2);
    assert_eq!(folders[1].display_name, "Other");
    assert_eq!(folders[0], data.folders[0]);

    let changed = change_folder_record(&folders, FolderId::from_u128(11), FolderChange::Pinned(false)).expect("found");
    assert!(!changed[1].pinned);
    assert_eq!(changed[1].display_name, "Other");
    assert!(change_folder_record(&folders, FolderId::from_u128(99), FolderChange::Enabled(false)).is_none());

    let (cats, cleared) = remove_category_records(&data.categories, &folders, CategoryId::from_u128(1)).expect("known");
    assert!(cats.is_empty());
    assert!(cleared.iter().all(|f| f.category_id.is_none()));
    assert!(remove_category_records(&data.categories, &folders, CategoryId::from_u128(9)).is_none());

    let (tags, untagged) = remove_tag_records(&data.tags, &folders, TagId::from_u128(2)).expect("known");
    assert_eq!(tags.len(), 1);
    assert!(untagged[0].tag_ids.is_empty());
    assert!(remove_tag_records(&data.tags, &folders, TagId::from_u128(7)).is_none());

    let restored = restore_removed_record(&Vec::new(), &data.folders[0], 4, 5).expect("last save");
    assert_eq!(restored, data.folders);
    assert!(restore_removed_record(&Vec::new(), &data.folders[0], 4, 6).is_none());
    assert!(restore_removed_record(&Vec::new(), &data.folders[0], u64::MAX, u64::MAX).is_some());
}
