use rusty_dock::config::AppEntry;
use rusty_dock::editor::{
    apply_picker_result, apply_pinned_edit, handle_drag_drop, key_action, new_app, DockEntryField, DragId,
    FolderSlot, KeyAction, PickerTarget, PinnedEdit, Selection,
};

fn app(name: &str) -> AppEntry {
    AppEntry::new(name.to_string())
}

fn folder(name: &str, inner: &[&str]) -> AppEntry {
    let mut f = AppEntry::new_folder(name.to_string());
    if let AppEntry::Folder { apps, .. } = &mut f {
        for n in inner {
            apps.push(app(n));
        }
    }
    f
}

fn names(apps: &[AppEntry]) -> Vec<String> {
    apps.iter().map(|e| e.name().to_string()).collect()
}

fn inner_names(apps: &[AppEntry], i: usize) -> Vec<String> {
    names(apps[i].folder_apps().expect("a folder"))
}

fn sample() -> Vec<AppEntry> {
    vec![app("A"), folder("F", &["x", "y"]), app("B"), AppEntry::new_spacer()]
}

#[test]
fn new_app_is_blank() {
    match new_app() {
        AppEntry::App { name, exec_line, args, icon, custom_icon_path, desktop_file } => {
            assert_eq!(name, "New App");
            assert!(exec_line.is_empty() && args.is_empty() && icon.is_empty());
            assert!(custom_icon_path.is_none() && desktop_file.is_none());
        }
        _ => panic!("not an app"),
    }
}

#[test]
fn drag_top_level_entry_forward_and_back() {
    let mut apps = sample();
    handle_drag_drop(&mut apps, DragId::Top(0), DragId::Top(2));
    assert_eq!(names(&apps), vec!["F", "B", "A", "---Spacer---"]);
    handle_drag_drop(&mut apps, DragId::Top(2), DragId::Top(0));
    assert_eq!(names(&apps), vec!["A", "F", "B", "---Spacer---"]);
}

#[test]
fn drag_past_the_end_appends() {
    let mut apps = sample();
    handle_drag_drop(&mut apps, DragId::Top(0), DragId::Top(99));
    assert_eq!(names(&apps), vec!["F", "B", "---Spacer---", "A"]);
}

#[test]
fn drag_into_a_folder() {
    let mut apps = sample();
    handle_drag_drop(&mut apps, DragId::Top(2), DragId::Folder(1, 1));
    assert_eq!(names(&apps), vec!["A", "F", "---Spacer---"]);
    assert_eq!(inner_names(&apps, 1), vec!["x", "B", "y"]);
}

#[test]
fn drag_out_of_a_folder() {
    let mut apps = sample();
    handle_drag_drop(&mut apps, DragId::Folder(1, 0), DragId::Top(0));
    assert_eq!(names(&apps), vec!["x", "A", "F", "B", "---Spacer---"]);
    assert_eq!(inner_names(&apps, 2), vec!["y"]);
}

#[test]
fn drag_onto_a_non_folder_appends() {
    let mut apps = sample();
    handle_drag_drop(&mut apps, DragId::Folder(1, 1), DragId::Folder(0, 0));
    assert_eq!(names(&apps), vec!["A", "F", "B", "---Spacer---", "y"]);
    assert_eq!(inner_names(&apps, 1), vec!["x"]);
}

#[test]
fn drops_that_change_nothing() {
    let mut apps = sample();
    handle_drag_drop(&mut apps, DragId::Top(1), DragId::Top(1));
    handle_drag_drop(&mut apps, DragId::Top(1), DragId::Folder(1, 0));
    handle_drag_drop(&mut apps, DragId::Top(9), DragId::Top(0));
    handle_drag_drop(&mut apps, DragId::Folder(0, 0), DragId::Top(0));
    handle_drag_drop(&mut apps, DragId::Folder(1, 5), DragId::Top(0));
    assert_eq!(names(&apps), vec!["A", "F", "B", "---Spacer---"]);
    assert_eq!(inner_names(&apps, 1), vec!["x", "y"]);
}

#[test]
fn picker_fills_the_field_it_was_opened_for() {
    let mut apps = sample();
    apply_picker_result(&mut apps, PickerTarget::DockEntry(0, DockEntryField::Icon), "/i/a.png".to_string());
    apply_picker_result(&mut apps, PickerTarget::DockEntry(0, DockEntryField::Exec), "/bin/a".to_string());
    apply_picker_result(&mut apps, PickerTarget::DockEntry(0, DockEntryField::Desktop), "/d/a.desktop".to_string());
    apply_picker_result(&mut apps, PickerTarget::DockEntry(1, DockEntryField::Icon), "/i/f.png".to_string());
    apply_picker_result(&mut apps, PickerTarget::FolderApp(1, 1, DockEntryField::Exec), "/bin/y".to_string());
    apply_picker_result(&mut apps, PickerTarget::DockEntry(7, DockEntryField::Exec), "/bin/none".to_string());
    match &apps[0] {
        AppEntry::App { exec_line, custom_icon_path, desktop_file, .. } => {
            assert_eq!(exec_line, "/bin/a");
            assert_eq!(custom_icon_path.as_deref(), Some("/i/a.png"));
            assert_eq!(desktop_file.as_deref(), Some("/d/a.desktop"));
        }
        _ => panic!("not an app"),
    }
    match &apps[1] {
        AppEntry::Folder { icon, apps: inner, .. } => {
            assert_eq!(icon.as_deref(), Some("/i/f.png"));
            match &inner[1] {
                AppEntry::App { exec_line, .. } => assert_eq!(exec_line, "/bin/y"),
                _ => panic!("not an app"),
            }
        }
        _ => panic!("not a folder"),
    }
    assert_eq!(apps.len(), 4);
}

#[test]
fn adding_and_removing_entries() {
    let mut apps = sample();
    apply_pinned_edit(&mut apps, PinnedEdit::AddApp);
    apply_pinned_edit(&mut apps, PinnedEdit::AddSpacer);
    apply_pinned_edit(&mut apps, PinnedEdit::AddFolder);
    assert_eq!(names(&apps), vec!["A", "F", "B", "---Spacer---", "New App", "---Spacer---", "New Folder"]);
    assert!(apps[5].is_spacer());
    assert!(apps[6].is_folder());
    apply_pinned_edit(&mut apps, PinnedEdit::Remove(4));
    apply_pinned_edit(&mut apps, PinnedEdit::Remove(0));
    assert_eq!(names(&apps), vec!["F", "B", "---Spacer---", "---Spacer---", "New Folder"]);
}

#[test]
fn folder_edits() {
    let mut apps = sample();
    apply_pinned_edit(&mut apps, PinnedEdit::AddAppToFolder(1));
    assert_eq!(inner_names(&apps, 1), vec!["x", "y", "New App"]);
    apply_pinned_edit(&mut apps, PinnedEdit::FaRemove(1, 0));
    assert_eq!(inner_names(&apps, 1), vec!["y", "New App"]);
    apply_pinned_edit(&mut apps, PinnedEdit::FaName(1, 1, "Z".to_string()));
    apply_pinned_edit(&mut apps, PinnedEdit::FaExec(1, 1, "zz".to_string()));
    apply_pinned_edit(&mut apps, PinnedEdit::FaArgs(1, 1, "--z".to_string()));
    apply_pinned_edit(&mut apps, PinnedEdit::FaIconTheme(1, 1, "z-icon".to_string()));
    apply_pinned_edit(&mut apps, PinnedEdit::FolderMiniatures(1, true));
    apply_pinned_edit(&mut apps, PinnedEdit::FolderIconPath(1, "/f.png".to_string()));
    match &apps[1] {
        AppEntry::Folder { icon, apps: inner, show_miniatures, .. } => {
            assert!(*show_miniatures);
            assert_eq!(icon.as_deref(), Some("/f.png"));
            match &inner[1] {
                AppEntry::App { name, exec_line, args, icon, .. } => {
                    assert_eq!((name.as_str(), exec_line.as_str(), args.as_str(), icon.as_str()), ("Z", "zz", "--z", "z-icon"));
                }
                _ => panic!("not an app"),
            }
        }
        _ => panic!("not a folder"),
    }
    apply_pinned_edit(&mut apps, PinnedEdit::FolderIconPath(1, String::new()));
    match &apps[1] {
        AppEntry::Folder { icon, .. } => assert!(icon.is_none()),
        _ => panic!("not a folder"),
    }
    // Folder edits aimed at a non-folder change nothing.
    apply_pinned_edit(&mut apps, PinnedEdit::AddAppToFolder(0));
    apply_pinned_edit(&mut apps, PinnedEdit::FaRemove(0, 3));
    assert_eq!(names(&apps), vec!["A", "F", "B", "---Spacer---"]);
}

#[test]
fn top_level_field_edits() {
    let mut apps = sample();
    apply_pinned_edit(&mut apps, PinnedEdit::AppName(0, "Alpha".to_string()));
    apply_pinned_edit(&mut apps, PinnedEdit::AppExec(0, "alpha".to_string()));
    apply_pinned_edit(&mut apps, PinnedEdit::AppArgs(0, "-v".to_string()));
    apply_pinned_edit(&mut apps, PinnedEdit::AppIconTheme(0, "alpha-icon".to_string()));
    apply_pinned_edit(&mut apps, PinnedEdit::AppName(1, "Folder".to_string()));
    apply_pinned_edit(&mut apps, PinnedEdit::AppName(3, "spacer".to_string()));
    apply_pinned_edit(&mut apps, PinnedEdit::AppExec(1, "ignored".to_string()));
    apply_pinned_edit(&mut apps, PinnedEdit::AppName(42, "nobody".to_string()));
    assert_eq!(names(&apps), vec!["Alpha", "Folder", "B", "---Spacer---"]);
    match &apps[0] {
        AppEntry::App { exec_line, args, icon, .. } => {
            assert_eq!((exec_line.as_str(), args.as_str(), icon.as_str()), ("alpha", "-v", "alpha-icon"));
        }
        _ => panic!("not an app"),
    }
}

#[test]
fn edit_buttons_toggle_the_selection() {
    let s = Selection::new();
    assert_eq!(s, Selection { app: None, folder_app: None });
    let s = s.toggle_folder_app(1, 2);
    assert_eq!(s.folder_app, Some(FolderSlot { folder: 1, app: 2 }));
    let s = s.toggle_app(3);
    assert_eq!(s, Selection { app: Some(3), folder_app: None });
    let s = s.toggle_folder_app(1, 2).toggle_app(3);
    assert_eq!(s, Selection { app: None, folder_app: Some(FolderSlot { folder: 1, app: 2 }) });
    let s = s.toggle_folder_app(1, 2);
    assert_eq!(s.folder_app, None);
    let s = s.toggle_app(0).toggle_folder_app(0, 0).after_remove();
    assert_eq!(s, Selection { app: None, folder_app: Some(FolderSlot { folder: 0, app: 0 }) });
    assert_eq!(s.done(), Selection::new());
}

#[test]
fn keys_save_and_close_pickers() {
    assert_eq!(key_action(true, true, false, true, true), KeyAction::Save);
    assert_eq!(key_action(true, false, false, true, true), KeyAction::Nothing);
    assert_eq!(key_action(false, false, true, true, true), KeyAction::HidePicker);
    assert_eq!(key_action(false, false, true, false, true), KeyAction::HideDesktopPicker);
    assert_eq!(key_action(false, true, true, false, false), KeyAction::Nothing);
}

#[test]
fn removing_what_was_just_added_restores_the_list() {
    for add in [PinnedEdit::AddApp, PinnedEdit::AddSpacer, PinnedEdit::AddFolder] {
        let mut apps = sample();
        let before = names(&apps);
        let n = apps.len();
        apply_pinned_edit(&mut apps, add);
        apply_pinned_edit(&mut apps, PinnedEdit::Remove(n));
        assert_eq!(names(&apps), before);
        assert_eq!(inner_names(&apps, 1), vec!["x", "y"]);
    }
}

fn all_names(apps: &[AppEntry], out: &mut Vec<String>) {
    for e in apps {
        out.push(e.name().to_string());
        if let Some(inner) = e.folder_apps() {
            all_names(inner, out);
        }
    }
}

#[test]
fn drags_lose_and_duplicate_nothing() {
    let mut apps = vec![app("A"), folder("F", &["x", "y"]), folder("G", &["z"]), AppEntry::new_spacer()];
    let mut before = vec![];
    all_names(&apps, &mut before);
    before.sort();
    let moves = [
        (DragId::Top(1), DragId::Folder(2, 0)),
        (DragId::Folder(1, 0), DragId::Top(0)),
        (DragId::Top(0), DragId::Folder(0, 5)),
        (DragId::Folder(0, 1), DragId::Folder(3, 0)),
        (DragId::Top(2), DragId::Top(0)),
    ];
    for (s, t) in moves {
        handle_drag_drop(&mut apps, s, t);
        let mut now = vec![];
        all_names(&apps, &mut now);
        now.sort();
        assert_eq!(now, before);
    }
}
