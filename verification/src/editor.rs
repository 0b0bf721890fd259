//! Editing rules of the configuration window for the pinned list: adding,
//! removing and renaming entries, moving them by drag and drop, and storing
//! what a file picker returned.

use vstd::prelude::*;
use vstd::string::*;
use crate::config::AppEntry;

verus! {

/// The apps of a folder; nothing for other entries.
pub open spec fn inner_apps(e: AppEntry) -> Seq<AppEntry> {
    match e {
        AppEntry::Folder { apps, .. } => apps@,
        _ => seq![],
    }
}

/// `new` is the folder `old` with its apps replaced by `apps`.
pub open spec fn refilled(new: AppEntry, old: AppEntry, apps: Seq<AppEntry>) -> bool {
    match (new, old) {
        (
            AppEntry::Folder { name: n1, icon: i1, apps: a1, show_miniatures: s1 },
            AppEntry::Folder { name: n0, icon: i0, show_miniatures: s0, .. },
        ) => n1 == n0 && i1 == i0 && s1 == s0 && a1@ == apps,
        _ => false,
    }
}

/// The list `after` is `before` with the apps of the folder at `f` replaced by
/// `apps`.
pub open spec fn folder_refilled(after: Seq<AppEntry>, before: Seq<AppEntry>, f: int, apps: Seq<AppEntry>) -> bool {
    0 <= f < before.len() && after == before.update(f, after[f]) && refilled(after[f], before[f], apps)
}

/// The entry at `i` is a folder.
pub open spec fn folder_at(s: Seq<AppEntry>, i: int) -> bool {
    0 <= i < s.len() && s[i] is Folder
}

/// An app named `New App` with every other field empty.
pub open spec fn is_new_app(e: AppEntry) -> bool {
    e matches AppEntry::App { name, exec_line, args, icon, custom_icon_path, desktop_file }
        && name@ == "New App"@ && exec_line@.len() == 0 && args@.len() == 0 && icon@.len() == 0
        && custom_icon_path is None && desktop_file is None
}

/// An empty folder named `New Folder`.
pub open spec fn is_new_folder(e: AppEntry) -> bool {
    e matches AppEntry::Folder { name, icon, apps, show_miniatures }
        && name@ == "New Folder"@ && icon is None && apps@.len() == 0 && !show_miniatures
}

/// A fresh app named `New App`.
pub fn new_app() -> (r: AppEntry)
    ensures
        is_new_app(r),
{
    AppEntry::new(String::from_str("New App"))
}

// ── Drag and drop ────────────────────────────────────────────────────────────

/// Where an entry is dragged from or dropped onto.
#[derive(Debug, Clone, Copy, PartialEq, Eq, Structural)]
pub enum DragId {
    /// A top-level entry.
    Top(usize),
    /// App `.1` of the folder at `.0`.
    Folder(usize, usize),
}

/// `after` is `mid` with `item` put at `target`: at a top-level position
/// (clamped to the end), into a folder at a position (clamped to its end), or
/// at the end of the list when the target is no folder.
pub open spec fn placed(mid: Seq<AppEntry>, target: DragId, item: AppEntry, after: Seq<AppEntry>) -> bool {
    match target {
        DragId::Top(ti) => after == mid.insert(if ti < mid.len() { ti as int } else { mid.len() as int }, item),
        DragId::Folder(tf, af) => if folder_at(mid, tf as int) {
            let inner = inner_apps(mid[tf as int]);
            folder_refilled(after, mid, tf as int, inner.insert(
                if af < inner.len() { af as int } else { inner.len() as int }, item))
        } else {
            after == mid.push(item)
        },
    }
}

/// The list after dragging `source` onto `target`. Nothing changes when the two
/// are the same, when a top-level entry is dropped into itself, or when the
/// source does not exist. Otherwise the item is taken out first, so a
/// top-level target counts positions in the list without it.
pub open spec fn dropped(before: Seq<AppEntry>, source: DragId, target: DragId, after: Seq<AppEntry>) -> bool {
    if source == target || (source matches DragId::Top(si) && target matches DragId::Folder(tf, _) && si == tf) {
        after == before
    } else {
        match source {
            DragId::Top(i) => if i < before.len() {
                placed(before.remove(i as int), target, before[i as int], after)
            } else {
                after == before
            },
            DragId::Folder(fi, ai) => if folder_at(before, fi as int) && ai < inner_apps(before[fi as int]).len() {
                exists|mid: Seq<AppEntry>| #[trigger] folder_refilled(mid, before, fi as int,
                    inner_apps(before[fi as int]).remove(ai as int))
                    && placed(mid, target, inner_apps(before[fi as int])[ai as int], after)
            } else {
                after == before
            },
        }
    }
}

fn place_item(apps: &mut Vec<AppEntry>, target: DragId, item: AppEntry)
    ensures
        placed(old(apps)@, target, item, final(apps)@),
{
    match target {
        DragId::Top(ti) => {
            let at = if ti < apps.len() { ti } else { apps.len() };
            apps.insert(at, item);
        },
        DragId::Folder(tf, af) => {
            if tf < apps.len() && apps[tf].is_folder() {
                let ghost before = apps@;
                match apps[tf].folder_apps_mut() {
                    Some(inner) => {
                        let at = if af < inner.len() { af } else { inner.len() };
                        inner.insert(at, item);
                    },
                    None => {},
                }
                assert(folder_refilled(apps@, before, tf as int, inner_apps(before[tf as int]).insert(
                    if af < inner_apps(before[tf as int]).len() { af as int } else { inner_apps(before[tf as int]).len() as int },
                    item)));
            } else {
                apps.push(item);
            }
        },
    }
}

/// Moves an entry of the pinned list from `source` to `target` (see [`dropped`]).
pub fn handle_drag_drop(apps: &mut Vec<AppEntry>, source: DragId, target: DragId)
    ensures
        dropped(old(apps)@, source, target, final(apps)@),
{
    if source == target {
        return;
    }
    match (source, target) {
        (DragId::Top(si), DragId::Folder(tf, _)) => {
            if si == tf {
                return;
            }
        },
        _ => {},
    }
    match source {
        DragId::Top(i) => {
            if i < apps.len() {
                let item = apps.remove(i);
                place_item(apps, target, item);
            }
        },
        DragId::Folder(fi, ai) => {
            if fi < apps.len() && apps[fi].is_folder() {
                let ghost before = apps@;
                let mut taken: Option<AppEntry> = None;
                match apps[fi].folder_apps_mut() {
                    Some(inner) => {
                        if ai < inner.len() {
                            taken = Some(inner.remove(ai));
                        }
                    },
                    None => {},
                }
                match taken {
                    Some(item) => {
                        let ghost mid = apps@;
                        assert(folder_refilled(mid, before, fi as int, inner_apps(before[fi as int]).remove(ai as int)));
                        place_item(apps, target, item);
                    },
                    None => {
                        assert(apps@ == before);
                    },
                }
            }
        },
    }
}

// ── Single-field edits ───────────────────────────────────────────────────────

/// The entry with a new name; a spacer has none.
pub open spec fn renamed(e: AppEntry, v: String) -> AppEntry {
    match e {
        AppEntry::App { exec_line, args, icon, custom_icon_path, desktop_file, .. } =>
            AppEntry::App { name: v, exec_line, args, icon, custom_icon_path, desktop_file },
        AppEntry::Folder { icon, apps, show_miniatures, .. } =>
            AppEntry::Folder { name: v, icon, apps, show_miniatures },
        AppEntry::Spacer => AppEntry::Spacer,
    }
}

/// The app with a new command; other entries unchanged.
pub open spec fn with_exec(e: AppEntry, v: String) -> AppEntry {
    match e {
        AppEntry::App { name, args, icon, custom_icon_path, desktop_file, .. } =>
            AppEntry::App { name, exec_line: v, args, icon, custom_icon_path, desktop_file },
        _ => e,
    }
}

/// The app with new extra arguments; other entries unchanged.
pub open spec fn with_args(e: AppEntry, v: String) -> AppEntry {
    match e {
        AppEntry::App { name, exec_line, icon, custom_icon_path, desktop_file, .. } =>
            AppEntry::App { name, exec_line, args: v, icon, custom_icon_path, desktop_file },
        _ => e,
    }
}

/// The app with a new icon-theme name; other entries unchanged.
pub open spec fn with_icon_theme(e: AppEntry, v: String) -> AppEntry {
    match e {
        AppEntry::App { name, exec_line, args, custom_icon_path, desktop_file, .. } =>
            AppEntry::App { name, exec_line, args, icon: v, custom_icon_path, desktop_file },
        _ => e,
    }
}

/// The app with a new custom icon file; other entries unchanged.
pub open spec fn with_custom_icon(e: AppEntry, v: Option<String>) -> AppEntry {
    match e {
        AppEntry::App { name, exec_line, args, icon, desktop_file, .. } =>
            AppEntry::App { name, exec_line, args, icon, custom_icon_path: v, desktop_file },
        _ => e,
    }
}

/// The app with a new desktop file; other entries unchanged.
pub open spec fn with_desktop_file(e: AppEntry, v: Option<String>) -> AppEntry {
    match e {
        AppEntry::App { name, exec_line, args, icon, custom_icon_path, .. } =>
            AppEntry::App { name, exec_line, args, icon, custom_icon_path, desktop_file: v },
        _ => e,
    }
}

/// The folder with a new icon; other entries unchanged.
pub open spec fn with_folder_icon(e: AppEntry, v: Option<String>) -> AppEntry {
    match e {
        AppEntry::Folder { name, apps, show_miniatures, .. } =>
            AppEntry::Folder { name, icon: v, apps, show_miniatures },
        _ => e,
    }
}

/// The folder with miniatures switched on or off; other entries unchanged.
pub open spec fn with_miniatures(e: AppEntry, b: bool) -> AppEntry {
    match e {
        AppEntry::Folder { name, icon, apps, .. } =>
            AppEntry::Folder { name, icon, apps, show_miniatures: b },
        _ => e,
    }
}

// ── File pickers ─────────────────────────────────────────────────────────────

/// Which field a picker fills.
#[derive(Debug, Clone, Copy, PartialEq, Eq, Structural)]
pub enum DockEntryField {
    Icon,
    Exec,
    Desktop,
}

/// The entry a picker was opened for.
#[derive(Debug, Clone, Copy, PartialEq, Eq, Structural)]
pub enum PickerTarget {
    /// A top-level entry.
    DockEntry(usize, DockEntryField),
    /// App `.1` of the folder at `.0`.
    FolderApp(usize, usize, DockEntryField),
}

/// A top-level entry after a picker filled `field` with `v`: an icon becomes
/// the custom icon file of an app or the icon of a folder.
pub open spec fn picked_top(e: AppEntry, field: DockEntryField, v: String) -> AppEntry {
    match field {
        DockEntryField::Icon => match e {
            AppEntry::Folder { .. } => with_folder_icon(e, Some(v)),
            _ => with_custom_icon(e, Some(v)),
        },
        DockEntryField::Exec => with_exec(e, v),
        DockEntryField::Desktop => with_desktop_file(e, Some(v)),
    }
}

/// An app inside a folder after a picker filled `field` with `v`.
pub open spec fn picked_inner(e: AppEntry, field: DockEntryField, v: String) -> AppEntry {
    match field {
        DockEntryField::Icon => with_custom_icon(e, Some(v)),
        DockEntryField::Exec => with_exec(e, v),
        DockEntryField::Desktop => with_desktop_file(e, Some(v)),
    }
}

/// The list after a picker for `target` returned `v`; nothing changes when the
/// target does not exist.
pub open spec fn picker_applied(before: Seq<AppEntry>, target: PickerTarget, v: String, after: Seq<AppEntry>) -> bool {
    match target {
        PickerTarget::DockEntry(i, f) => if i < before.len() {
            after == before.update(i as int, picked_top(before[i as int], f, v))
        } else {
            after == before
        },
        PickerTarget::FolderApp(fi, ai, f) => if folder_at(before, fi as int) && ai < inner_apps(before[fi as int]).len() {
            let inner = inner_apps(before[fi as int]);
            folder_refilled(after, before, fi as int, inner.update(ai as int, picked_inner(inner[ai as int], f, v)))
        } else {
            after == before
        },
    }
}

fn fill_field(e: &mut AppEntry, field: DockEntryField, v: String, top: bool)
    ensures
        *final(e) == (if top { picked_top(*old(e), field, v) } else { picked_inner(*old(e), field, v) }),
{
    match field {
        DockEntryField::Icon => {
            if top && e.is_folder() {
                match e.folder_icon_mut() {
                    Some(ic) => { *ic = Some(v); },
                    None => {},
                }
            } else {
                match e.custom_icon_path_mut() {
                    Some(ic) => { *ic = Some(v); },
                    None => {},
                }
            }
        },
        DockEntryField::Exec => {
            match e.exec_mut() {
                Some(x) => { *x = v; },
                None => {},
            }
        },
        DockEntryField::Desktop => {
            match e.desktop_file_mut() {
                Some(df) => { *df = Some(v); },
                None => {},
            }
        },
    }
}

/// Stores what a picker returned in the entry it was opened for.
pub fn apply_picker_result(apps: &mut Vec<AppEntry>, target: PickerTarget, value: String)
    ensures
        picker_applied(old(apps)@, target, value, final(apps)@),
{
    match target {
        PickerTarget::DockEntry(idx, field) => {
            if idx < apps.len() {
                fill_field(&mut apps[idx], field, value, true);
            }
        },
        PickerTarget::FolderApp(fi, ai, field) => {
            if fi < apps.len() && apps[fi].is_folder() {
                let ghost before = apps@;
                match apps[fi].folder_apps_mut() {
                    Some(inner) => {
                        if ai < inner.len() {
                            fill_field(&mut inner[ai], field, value, false);
                        }
                    },
                    None => {},
                }
                assert(ai >= inner_apps(before[fi as int]).len() ==> apps@ == before);
            }
        },
    }
}

// ── Selection in the pinned list ─────────────────────────────────────────────

/// App `app` of the folder at `folder`.
#[derive(Debug, Clone, Copy, PartialEq, Eq, Structural)]
pub struct FolderSlot {
    pub folder: usize,
    pub app: usize,
}

/// Which entry of the pinned list, and which app of a folder, is open for
/// editing.
#[derive(Debug, Clone, Copy, PartialEq, Eq, Structural)]
pub struct Selection {
    pub app: Option<usize>,
    pub folder_app: Option<FolderSlot>,
}

impl Selection {
    /// Nothing selected.
    pub fn new() -> (r: Self)
        ensures
            (r.app is None) && (r.folder_app is None),
    {
        Selection { app: None, folder_app: None }
    }

    /// A click on the edit button of entry `i`: closes it when it was open,
    /// otherwise opens it and closes any folder app.
    pub fn toggle_app(self, i: usize) -> (r: Self)
        ensures
            self.app == Some(i) ==> r == (Selection { app: None, folder_app: self.folder_app }),
            self.app != Some(i) ==> r == (Selection { app: Some(i), folder_app: None }),
    {
        if self.app == Some(i) {
            Selection { app: None, folder_app: self.folder_app }
        } else {
            Selection { app: Some(i), folder_app: None }
        }
    }

    /// A click on the edit button of app `ai` of folder `fi`: closes it when it
    /// was open, otherwise opens it.
    pub fn toggle_folder_app(self, fi: usize, ai: usize) -> (r: Self)
        ensures
            r.app == self.app,
            r.folder_app == (if self.folder_app == Some(FolderSlot { folder: fi, app: ai }) { None } else { Some(FolderSlot { folder: fi, app: ai }) }),
    {
        let slot = FolderSlot { folder: fi, app: ai };
        if self.folder_app == Some(slot) {
            Selection { app: self.app, folder_app: None }
        } else {
            Selection { app: self.app, folder_app: Some(slot) }
        }
    }

    /// An entry was removed: no entry stays open, a folder app may.
    pub fn after_remove(self) -> (r: Self)
        ensures
            r == (Selection { app: None, folder_app: self.folder_app }),
    {
        Selection { app: None, folder_app: self.folder_app }
    }

    /// Editing is done: nothing stays open.
    pub fn done(self) -> (r: Self)
        ensures
            (r.app is None) && (r.folder_app is None),
    {
        Selection::new()
    }
}

// ── Keyboard ─────────────────────────────────────────────────────────────────

/// What a key press in the configuration window does.
#[derive(Debug, Clone, Copy, PartialEq, Eq, Structural)]
pub enum KeyAction {
    Nothing,
    Save,
    HidePicker,
    HideDesktopPicker,
}

/// The action of a key press: the command modifier with `s` saves; Escape
/// closes the file picker, or else the desktop-file picker.
pub fn key_action(is_s: bool, command: bool, is_escape: bool, picker_open: bool, desktop_picker_open: bool) -> (r: KeyAction)
    ensures
        r == (if is_s && command {
            KeyAction::Save
        } else if is_escape && picker_open {
            KeyAction::HidePicker
        } else if is_escape && desktop_picker_open {
            KeyAction::HideDesktopPicker
        } else {
            KeyAction::Nothing
        }),
{
    if is_s && command {
        KeyAction::Save
    } else if is_escape && picker_open {
        KeyAction::HidePicker
    } else if is_escape && desktop_picker_open {
        KeyAction::HideDesktopPicker
    } else {
        KeyAction::Nothing
    }
}

// ── Edits of the pinned list ────────────────────────────────────────────────

/// An edit made in the configuration window's pinned-apps section.
#[derive(Debug)]
pub enum PinnedEdit {
    /// Switch miniatures of the folder at `.0`.
    FolderMiniatures(usize, bool),
    /// Append an app named `New App`.
    AddApp,
    /// Append a spacer.
    AddSpacer,
    /// Append an empty folder named `New Folder`.
    AddFolder,
    /// Remove the entry at `.0`.
    Remove(usize),
    /// Append an app named `New App` to the folder at `.0`.
    AddAppToFolder(usize),
    /// Remove app `.1` of the folder at `.0`.
    FaRemove(usize, usize),
    /// Rename the entry at `.0`.
    AppName(usize, String),
    /// Set the command of the app at `.0`.
    AppExec(usize, String),
    /// Set the extra arguments of the app at `.0`.
    AppArgs(usize, String),
    /// Set the icon-theme name of the app at `.0`.
    AppIconTheme(usize, String),
    /// Set the icon of the folder at `.0`; an empty text clears it.
    FolderIconPath(usize, String),
    /// Rename app `.1` of the folder at `.0`.
    FaName(usize, usize, String),
    /// Set the command of app `.1` of the folder at `.0`.
    FaExec(usize, usize, String),
    /// Set the extra arguments of app `.1` of the folder at `.0`.
    FaArgs(usize, usize, String),
    /// Set the icon-theme name of app `.1` of the folder at `.0`.
    FaIconTheme(usize, usize, String),
}

/// The list with the entry at `i` replaced by `e`, when it exists.
pub open spec fn at_top(before: Seq<AppEntry>, i: usize, e: AppEntry, after: Seq<AppEntry>) -> bool {
    if i < before.len() {
        after == before.update(i as int, e)
    } else {
        after == before
    }
}

/// The list with app `ai` of the folder at `fi` replaced by `e`, when both exist.
pub open spec fn in_folder(before: Seq<AppEntry>, fi: usize, ai: usize, e: AppEntry, after: Seq<AppEntry>) -> bool {
    if folder_at(before, fi as int) && ai < inner_apps(before[fi as int]).len() {
        folder_refilled(after, before, fi as int, inner_apps(before[fi as int]).update(ai as int, e))
    } else {
        after == before
    }
}

/// App `ai` of the folder at `fi`.
pub open spec fn folder_app(before: Seq<AppEntry>, fi: usize, ai: usize) -> AppEntry {
    inner_apps(before[fi as int])[ai as int]
}

/// `after` is `before` with one more item at the end.
pub open spec fn grown(before: Seq<AppEntry>, after: Seq<AppEntry>) -> bool {
    after.len() == before.len() + 1 && after.drop_last() == before
}

/// What each edit does to the pinned list.
pub open spec fn edited(before: Seq<AppEntry>, edit: PinnedEdit, after: Seq<AppEntry>) -> bool {
    match edit {
        PinnedEdit::FolderMiniatures(i, b) => at_top(before, i, with_miniatures(before[i as int], b), after),
        PinnedEdit::AddApp => grown(before, after) && is_new_app(after.last()),
        PinnedEdit::AddSpacer => after == before.push(AppEntry::Spacer),
        PinnedEdit::AddFolder => grown(before, after) && is_new_folder(after.last()),
        PinnedEdit::Remove(i) => after == before.remove(i as int),
        PinnedEdit::AddAppToFolder(i) => if folder_at(before, i as int) {
            let inner = inner_apps(before[i as int]);
            folder_refilled(after, before, i as int, inner_apps(after[i as int]))
                && grown(inner, inner_apps(after[i as int])) && is_new_app(inner_apps(after[i as int]).last())
        } else {
            after == before
        },
        PinnedEdit::FaRemove(fi, ai) => if folder_at(before, fi as int) {
            folder_refilled(after, before, fi as int, inner_apps(before[fi as int]).remove(ai as int))
        } else {
            after == before
        },
        PinnedEdit::AppName(i, v) => at_top(before, i, renamed(before[i as int], v), after),
        PinnedEdit::AppExec(i, v) => at_top(before, i, with_exec(before[i as int], v), after),
        PinnedEdit::AppArgs(i, v) => at_top(before, i, with_args(before[i as int], v), after),
        PinnedEdit::AppIconTheme(i, v) => at_top(before, i, with_icon_theme(before[i as int], v), after),
        PinnedEdit::FolderIconPath(i, v) => at_top(before, i, with_folder_icon(before[i as int],
            if v@.len() == 0 { None } else { Some(v) }), after),
        PinnedEdit::FaName(fi, ai, v) => in_folder(before, fi, ai, renamed(folder_app(before, fi, ai), v), after),
        PinnedEdit::FaExec(fi, ai, v) => in_folder(before, fi, ai, with_exec(folder_app(before, fi, ai), v), after),
        PinnedEdit::FaArgs(fi, ai, v) => in_folder(before, fi, ai, with_args(folder_app(before, fi, ai), v), after),
        PinnedEdit::FaIconTheme(fi, ai, v) => in_folder(before, fi, ai, with_icon_theme(folder_app(before, fi, ai), v),
            after),
    }
}

/// The inputs on which an edit can be made: a removed entry must exist.
pub open spec fn edit_allowed(before: Seq<AppEntry>, edit: PinnedEdit) -> bool {
    match edit {
        PinnedEdit::Remove(i) => i < before.len(),
        PinnedEdit::FaRemove(fi, ai) => folder_at(before, fi as int) ==> ai < inner_apps(before[fi as int]).len(),
        _ => true,
    }
}

fn set_name(e: &mut AppEntry, v: String)
    ensures
        *final(e) == renamed(*old(e), v),
{
    match e.name_mut() {
        Some(n) => { *n = v; },
        None => {},
    }
}

fn set_exec(e: &mut AppEntry, v: String)
    ensures
        *final(e) == with_exec(*old(e), v),
{
    match e.exec_mut() {
        Some(x) => { *x = v; },
        None => {},
    }
}

fn set_args(e: &mut AppEntry, v: String)
    ensures
        *final(e) == with_args(*old(e), v),
{
    match e.args_mut() {
        Some(x) => { *x = v; },
        None => {},
    }
}

fn set_icon_theme(e: &mut AppEntry, v: String)
    ensures
        *final(e) == with_icon_theme(*old(e), v),
{
    match e.icon_mut() {
        Some(x) => { *x = v; },
        None => {},
    }
}

/// Applies an edit of the pinned list (see [`edited`]).
pub fn apply_pinned_edit(apps: &mut Vec<AppEntry>, edit: PinnedEdit)
    requires
        edit_allowed(old(apps)@, edit),
    ensures
        edited(old(apps)@, edit, final(apps)@),
{
    let ghost before = apps@;
    match edit {
        PinnedEdit::FolderMiniatures(i, b) => {
            if i < apps.len() {
                match apps[i].folder_show_miniatures_mut() {
                    Some(m) => { *m = b; },
                    None => {},
                }
                assert(apps@[i as int] == before[i as int] ==> apps@ =~= before);
            }
        },
        PinnedEdit::AddApp => {
            apps.push(new_app());
            assert(apps@.drop_last() == before);
        },
        PinnedEdit::AddSpacer => {
            apps.push(AppEntry::new_spacer());
        },
        PinnedEdit::AddFolder => {
            apps.push(AppEntry::new_folder(String::from_str("New Folder")));
            assert(apps@.drop_last() == before);
        },
        PinnedEdit::Remove(i) => {
            apps.remove(i);
        },
        PinnedEdit::AddAppToFolder(i) => {
            if i < apps.len() {
                match apps[i].folder_apps_mut() {
                    Some(inner) => {
                        let ghost old_inner = inner@;
                        inner.push(new_app());
                        assert(inner@.drop_last() == old_inner);
                    },
                    None => {},
                }
                assert(apps@[i as int] == before[i as int] ==> apps@ =~= before);
            }
        },
        PinnedEdit::FaRemove(fi, ai) => {
            if fi < apps.len() {
                match apps[fi].folder_apps_mut() {
                    Some(inner) => { inner.remove(ai); },
                    None => {},
                }
                assert(apps@[fi as int] == before[fi as int] ==> apps@ =~= before);
            }
        },
        PinnedEdit::AppName(i, v) => {
            if i < apps.len() {
                set_name(&mut apps[i], v);
            }
        },
        PinnedEdit::AppExec(i, v) => {
            if i < apps.len() {
                set_exec(&mut apps[i], v);
            }
        },
        PinnedEdit::AppArgs(i, v) => {
            if i < apps.len() {
                set_args(&mut apps[i], v);
            }
        },
        PinnedEdit::AppIconTheme(i, v) => {
            if i < apps.len() {
                set_icon_theme(&mut apps[i], v);
            }
        },
        PinnedEdit::FolderIconPath(i, v) => {
            if i < apps.len() {
                match apps[i].folder_icon_mut() {
                    Some(ic) => {
                        *ic = if v.as_str().is_empty() { None } else { Some(v) };
                    },
                    None => {},
                }
                assert(apps@[i as int] == before[i as int] ==> apps@ =~= before);
            }
        },
        PinnedEdit::FaName(fi, ai, v) => {
            if fi < apps.len() {
                match apps[fi].folder_apps_mut() {
                    Some(inner) => {
                        if ai < inner.len() {
                            set_name(&mut inner[ai], v);
                        }
                    },
                    None => {},
                }
                assert(apps@[fi as int] == before[fi as int] ==> apps@ =~= before);
            }
        },
        PinnedEdit::FaExec(fi, ai, v) => {
            if fi < apps.len() {
                match apps[fi].folder_apps_mut() {
                    Some(inner) => {
                        if ai < inner.len() {
                            set_exec(&mut inner[ai], v);
                        }
                    },
                    None => {},
                }
                assert(apps@[fi as int] == before[fi as int] ==> apps@ =~= before);
            }
        },
        PinnedEdit::FaArgs(fi, ai, v) => {
            if fi < apps.len() {
                match apps[fi].folder_apps_mut() {
                    Some(inner) => {
                        if ai < inner.len() {
                            set_args(&mut inner[ai], v);
                        }
                    },
                    None => {},
                }
                assert(apps@[fi as int] == before[fi as int] ==> apps@ =~= before);
            }
        },
        PinnedEdit::FaIconTheme(fi, ai, v) => {
            if fi < apps.len() {
                match apps[fi].folder_apps_mut() {
                    Some(inner) => {
                        if ai < inner.len() {
                            set_icon_theme(&mut inner[ai], v);
                        }
                    },
                    None => {},
                }
                assert(apps@[fi as int] == before[fi as int] ==> apps@ =~= before);
            }
        },
    }
}

// ── What a drag keeps ────────────────────────────────────────────────────────

/// One piece of the pinned list, at any depth: an app or a spacer, or the
/// settings of a folder (name, icon, miniatures) without its apps.
pub enum Piece {
    Leaf(AppEntry),
    Shell(String, Option<String>, bool),
}

/// The pieces of an entry: itself, or for a folder its settings and then the
/// pieces of its apps.
pub open spec fn entry_pieces(e: AppEntry) -> Seq<Piece>
    decreases e, 1int,
{
    match e {
        AppEntry::Folder { name, icon, apps, show_miniatures } => {
            proof {
                assert(decreases_to!(e => apps@));
            }
            seq![Piece::Shell(name, icon, show_miniatures)] + list_pieces(apps@)
        },
        _ => seq![Piece::Leaf(e)],
    }
}

/// The pieces of a list of entries, in order.
pub open spec fn list_pieces(s: Seq<AppEntry>) -> Seq<Piece>
    decreases s, 0int,
{
    if s.len() == 0 {
        seq![]
    } else {
        list_pieces(s.drop_last()) + entry_pieces(s.last())
    }
}

proof fn lemma_pieces_append(a: Seq<AppEntry>, b: Seq<AppEntry>)
    ensures
        list_pieces(a + b) == list_pieces(a) + list_pieces(b),
    decreases b.len(),
{
    if b.len() == 0 {
        assert(a + b == a);
        assert(list_pieces(a) + list_pieces(b) == list_pieces(a));
    } else {
        lemma_pieces_append(a, b.drop_last());
        assert((a + b).drop_last() == a + b.drop_last());
        assert((a + b).last() == b.last());
        assert(list_pieces(a) + list_pieces(b.drop_last()) + entry_pieces(b.last())
            == list_pieces(a) + (list_pieces(b.drop_last()) + entry_pieces(b.last())));
    }
}

proof fn lemma_pieces_one(x: AppEntry)
    ensures
        list_pieces(seq![x]) == entry_pieces(x),
{
    assert(seq![x].drop_last() == Seq::<AppEntry>::empty());
    assert(seq![x].last() == x);
    assert(list_pieces(Seq::<AppEntry>::empty()) == Seq::<Piece>::empty());
    assert(list_pieces(seq![x]) == list_pieces(Seq::<AppEntry>::empty()) + entry_pieces(x));
    assert(Seq::<Piece>::empty() + entry_pieces(x) == entry_pieces(x));
}

/// The multiset of the pieces of a list.
pub open spec fn pieces(s: Seq<AppEntry>) -> vstd::multiset::Multiset<Piece> {
    list_pieces(s).to_multiset()
}

/// Splitting a list around position `k` splits its pieces.
proof fn lemma_pieces_around(s: Seq<AppEntry>, k: int)
    requires
        0 <= k < s.len(),
    ensures
        pieces(s) == pieces(s.take(k)).add(entry_pieces(s[k]).to_multiset()).add(pieces(s.skip(k + 1))),
{
    broadcast use vstd::seq_lib::lemma_multiset_commutative;
    let pre = s.take(k);
    let post = s.skip(k + 1);
    assert(s =~= pre + seq![s[k]] + post);
    lemma_pieces_append(pre + seq![s[k]], post);
    lemma_pieces_append(pre, seq![s[k]]);
    lemma_pieces_one(s[k]);
    assert(list_pieces(s) == list_pieces(pre) + entry_pieces(s[k]) + list_pieces(post));
}

proof fn lemma_pieces_insert(s: Seq<AppEntry>, k: int, x: AppEntry)
    requires
        0 <= k <= s.len(),
    ensures
        pieces(s.insert(k, x)) == pieces(s).add(entry_pieces(x).to_multiset()),
{
    broadcast use vstd::seq_lib::lemma_multiset_commutative;
    broadcast use vstd::multiset::group_multiset_axioms;
    let t = s.insert(k, x);
    lemma_pieces_around(t, k);
    assert(t.take(k) == s.take(k));
    assert(t.skip(k + 1) == s.skip(k));
    assert(s =~= s.take(k) + s.skip(k));
    lemma_pieces_append(s.take(k), s.skip(k));
    assert(pieces(s) == pieces(s.take(k)).add(pieces(s.skip(k))));
    assert(pieces(t) =~= pieces(s).add(entry_pieces(x).to_multiset()));
}

proof fn lemma_pieces_update(s: Seq<AppEntry>, k: int, y: AppEntry)
    requires
        0 <= k < s.len(),
    ensures
        pieces(s.update(k, y)).add(entry_pieces(s[k]).to_multiset())
            == pieces(s).add(entry_pieces(y).to_multiset()),
{
    broadcast use vstd::multiset::group_multiset_axioms;
    let t = s.update(k, y);
    lemma_pieces_around(t, k);
    lemma_pieces_around(s, k);
    assert(t.take(k) == s.take(k));
    assert(t.skip(k + 1) == s.skip(k + 1));
    assert(pieces(t).add(entry_pieces(s[k]).to_multiset()) =~= pieces(s).add(entry_pieces(y).to_multiset()));
}

proof fn lemma_pieces_remove(s: Seq<AppEntry>, k: int)
    requires
        0 <= k < s.len(),
    ensures
        pieces(s.remove(k)).add(entry_pieces(s[k]).to_multiset()) == pieces(s),
{
    lemma_pieces_insert(s.remove(k), k, s[k]);
    assert(s.remove(k).insert(k, s[k]) =~= s);
}

/// Refilling the folder at `f` with `apps` trades the pieces of its old apps
/// for those of `apps`.
proof fn lemma_pieces_refill(after: Seq<AppEntry>, before: Seq<AppEntry>, f: int, apps: Seq<AppEntry>)
    requires
        folder_refilled(after, before, f, apps),
    ensures
        pieces(after).add(pieces(inner_apps(before[f]))) == pieces(before).add(pieces(apps)),
{
    broadcast use vstd::seq_lib::lemma_multiset_commutative;
    broadcast use vstd::multiset::group_multiset_axioms;
    lemma_pieces_update(before, f, after[f]);
    assert(before.update(f, after[f]) == after);
    match (after[f], before[f]) {
        (AppEntry::Folder { name: n1, icon: i1, apps: a1, show_miniatures: s1 },
         AppEntry::Folder { name: n0, icon: i0, apps: a0, show_miniatures: s0 }) => {
            let sh = seq![Piece::Shell(n1, i1, s1)];
            assert(sh == seq![Piece::Shell(n0, i0, s0)]);
            assert(a1@ == apps);
            assert(a0@ == inner_apps(before[f]));
            assert(entry_pieces(after[f]) == sh + list_pieces(a1@));
            assert(entry_pieces(before[f]) == sh + list_pieces(a0@));
            assert(entry_pieces(after[f]).to_multiset() == sh.to_multiset().add(pieces(apps)));
            assert(entry_pieces(before[f]).to_multiset() == sh.to_multiset().add(pieces(inner_apps(before[f]))));
            let (x, y) = (pieces(after).add(pieces(inner_apps(before[f]))), pieces(before).add(pieces(apps)));
            assert forall|v: Piece| x.count(v) == y.count(v) by {
                assert(pieces(after).add(entry_pieces(before[f]).to_multiset()).count(v)
                    == pieces(before).add(entry_pieces(after[f]).to_multiset()).count(v));
            }
            assert(x =~= y);
        },
        _ => {},
    }
}

proof fn lemma_pieces_placed(mid: Seq<AppEntry>, target: DragId, item: AppEntry, after: Seq<AppEntry>)
    requires
        placed(mid, target, item, after),
    ensures
        pieces(after) == pieces(mid).add(entry_pieces(item).to_multiset()),
{
    broadcast use vstd::multiset::group_multiset_axioms;
    match target {
        DragId::Top(ti) => {
            lemma_pieces_insert(mid, if ti < mid.len() { ti as int } else { mid.len() as int }, item);
        },
        DragId::Folder(tf, af) => {
            if folder_at(mid, tf as int) {
                let inner = inner_apps(mid[tf as int]);
                let p = if af < inner.len() { af as int } else { inner.len() as int };
                lemma_pieces_refill(after, mid, tf as int, inner.insert(p, item));
                lemma_pieces_insert(inner, p, item);
                assert forall|v: Piece| pieces(after).count(v) == pieces(mid).add(entry_pieces(item).to_multiset()).count(v) by {
                    assert(pieces(after).add(pieces(inner)).count(v) == pieces(mid).add(pieces(inner.insert(p, item))).count(v));
                }
                assert(pieces(after) =~= pieces(mid).add(entry_pieces(item).to_multiset()));
            } else {
                lemma_pieces_insert(mid, mid.len() as int, item);
                assert(mid.insert(mid.len() as int, item) == mid.push(item));
            }
        },
    }
}

/// A drag and drop loses and duplicates nothing: the pieces of the pinned list
/// at every depth (apps, spacers, folder settings) stay the same multiset.
pub proof fn drag_keeps_pieces(before: Seq<AppEntry>, source: DragId, target: DragId, after: Seq<AppEntry>)
    requires
        dropped(before, source, target, after),
    ensures
        pieces(after) == pieces(before),
{
    broadcast use vstd::multiset::group_multiset_axioms;
    if source == target || (source matches DragId::Top(si) && target matches DragId::Folder(tf, _) && si == tf) {
    } else {
        match source {
            DragId::Top(i) => {
                if i < before.len() {
                    lemma_pieces_remove(before, i as int);
                    lemma_pieces_placed(before.remove(i as int), target, before[i as int], after);
                }
            },
            DragId::Folder(fi, ai) => {
                if folder_at(before, fi as int) && ai < inner_apps(before[fi as int]).len() {
                    let inner = inner_apps(before[fi as int]);
                    let mid = choose|mid: Seq<AppEntry>| #[trigger] folder_refilled(mid, before, fi as int,
                        inner.remove(ai as int)) && placed(mid, target, inner[ai as int], after);
                    lemma_pieces_refill(mid, before, fi as int, inner.remove(ai as int));
                    lemma_pieces_remove(inner, ai as int);
                    lemma_pieces_placed(mid, target, inner[ai as int], after);
                    let e = entry_pieces(inner[ai as int]).to_multiset();
                    assert forall|v: Piece| pieces(after).count(v) == pieces(before).count(v) by {
                        assert(pieces(mid).add(pieces(inner)).count(v) == pieces(before).add(pieces(inner.remove(ai as int))).count(v));
                        assert(pieces(inner.remove(ai as int)).add(e).count(v) == pieces(inner).count(v));
                        assert(pieces(after).count(v) == pieces(mid).add(e).count(v));
                    }
                    assert(pieces(after) =~= pieces(before));
                }
            },
        }
    }
}

// ── Laws ──────────────────────────────────────────────────────────────────────

/// An icon picked for an app inside a folder becomes that app's custom icon
/// file; its icon-theme name and every other field stay, as do the other apps
/// and entries.
pub proof fn folder_app_icon_pick(before: Seq<AppEntry>, fi: usize, ai: usize, v: String, after: Seq<AppEntry>)
    requires
        picker_applied(before, PickerTarget::FolderApp(fi, ai, DockEntryField::Icon), v, after),
        folder_at(before, fi as int),
        ai < inner_apps(before[fi as int]).len(),
    ensures
        after.len() == before.len(),
        forall|k: int| 0 <= k < before.len() && k != fi ==> after[k] == before[k],
        inner_apps(after[fi as int]).len() == inner_apps(before[fi as int]).len(),
        forall|k: int| 0 <= k < inner_apps(before[fi as int]).len() && k != ai
            ==> inner_apps(after[fi as int])[k] == inner_apps(before[fi as int])[k],
        match inner_apps(before[fi as int])[ai as int] {
            AppEntry::App { name, exec_line, args, icon, desktop_file, .. } => inner_apps(after[fi as int])[ai as int]
                == (AppEntry::App { name, exec_line, args, icon, custom_icon_path: Some(v), desktop_file }),
            other => inner_apps(after[fi as int])[ai as int] == other,
        },
{
}

/// A command or a desktop file picked for an app inside a folder is stored in
/// that field of that app, and nothing else changes in it.
pub proof fn folder_app_exec_and_desktop_pick(before: Seq<AppEntry>, fi: usize, ai: usize, v: String, after: Seq<AppEntry>, field: DockEntryField)
    requires
        field != DockEntryField::Icon,
        picker_applied(before, PickerTarget::FolderApp(fi, ai, field), v, after),
        folder_at(before, fi as int),
        ai < inner_apps(before[fi as int]).len(),
    ensures
        match inner_apps(before[fi as int])[ai as int] {
            AppEntry::App { name, exec_line, args, icon, custom_icon_path, desktop_file } => inner_apps(after[fi as int])[ai as int]
                == (if field == DockEntryField::Exec {
                    AppEntry::App { name, exec_line: v, args, icon, custom_icon_path, desktop_file }
                } else {
                    AppEntry::App { name, exec_line, args, icon, custom_icon_path, desktop_file: Some(v) }
                }),
            other => inner_apps(after[fi as int])[ai as int] == other,
        },
{
}

/// An icon picked for a top-level entry becomes an app's custom icon file or a
/// folder's icon; the app's icon-theme name and all other entries stay.
pub proof fn top_icon_pick(before: Seq<AppEntry>, i: usize, v: String, after: Seq<AppEntry>)
    requires
        picker_applied(before, PickerTarget::DockEntry(i, DockEntryField::Icon), v, after),
        i < before.len(),
    ensures
        after.len() == before.len(),
        forall|k: int| 0 <= k < before.len() && k != i ==> after[k] == before[k],
        (match before[i as int] {
            AppEntry::App { name, exec_line, args, icon, desktop_file, .. } => after[i as int]
                == (AppEntry::App { name, exec_line, args, icon, custom_icon_path: Some(v), desktop_file }),
            AppEntry::Folder { name, apps, show_miniatures, .. } => after[i as int]
                == (AppEntry::Folder { name, icon: Some(v), apps, show_miniatures }),
            AppEntry::Spacer => after[i as int] == (AppEntry::Spacer),
        }),
{
}

/// Renaming an entry sets its name and keeps everything else; a spacer has no
/// name and stays; an index past the end changes nothing.
pub proof fn rename_sets_only_the_name(before: Seq<AppEntry>, i: usize, v: String, after: Seq<AppEntry>)
    requires
        edited(before, PinnedEdit::AppName(i, v), after),
    ensures
        i >= before.len() ==> after == before,
        i < before.len() ==> after.len() == before.len() && forall|k: int| 0 <= k < before.len() && k != i
            ==> after[k] == before[k],
        i < before.len() ==> (match before[i as int] {
            AppEntry::App { exec_line, args, icon, custom_icon_path, desktop_file, .. } => after[i as int]
                == (AppEntry::App { name: v, exec_line, args, icon, custom_icon_path, desktop_file }),
            AppEntry::Folder { icon, apps, show_miniatures, .. } => after[i as int]
                == (AppEntry::Folder { name: v, icon, apps, show_miniatures }),
            AppEntry::Spacer => after[i as int] == (AppEntry::Spacer),
        }),
{
}

/// Setting a folder's icon path stores it, and an empty path clears the icon;
/// the folder's name, apps and miniatures stay.
pub proof fn folder_icon_path_edit(before: Seq<AppEntry>, i: usize, v: String, after: Seq<AppEntry>)
    requires
        edited(before, PinnedEdit::FolderIconPath(i, v), after),
        i < before.len(),
        before[i as int] is Folder,
    ensures
        after.len() == before.len(),
        (match before[i as int] {
            AppEntry::Folder { name, apps, show_miniatures, .. } => after[i as int] == (AppEntry::Folder {
                name,
                icon: if v@.len() == 0 { None } else { Some(v) },
                apps,
                show_miniatures,
            }),
            _ => true,
        }),
{
}

/// Removing the entry that was just added restores the list.
pub proof fn remove_undoes_add(before: Seq<AppEntry>, add: PinnedEdit, mid: Seq<AppEntry>, after: Seq<AppEntry>)
    requires
        add is AddApp || add is AddSpacer || add is AddFolder,
        edited(before, add, mid),
        edited(mid, PinnedEdit::Remove(before.len() as usize), after),
        before.len() < usize::MAX,
    ensures
        after == before,
{
    assert(mid.remove(before.len() as int) =~= mid.drop_last());
}

/// Dragging a top-level entry onto another top-level position, then dragging
/// it from there back to where it was, restores the list.
pub proof fn drag_back_restores(before: Seq<AppEntry>, i: usize, j: usize, mid: Seq<AppEntry>, after: Seq<AppEntry>)
    requires
        i < before.len(),
        j < before.len(),
        dropped(before, DragId::Top(i), DragId::Top(j), mid),
        dropped(mid, DragId::Top(j), DragId::Top(i), after),
    ensures
        after == before,
{
    if i != j {
        let t = before.remove(i as int).insert(j as int, before[i as int]);
        assert(mid == t);
        assert(t[j as int] == before[i as int]);
        assert(t.remove(j as int).insert(i as int, t[j as int]) =~= before);
    }
}

} // verus!
