use rusty_dock::config::AppEntry;
use rusty_dock::desktop::{desktop_icon_of, DesktopInfo};
use rusty_dock::process::ProcessKey;
use rusty_dock::launcher::{
    entry_from_desktop, referenced_desktop_files, AppCatalog, AppLauncher, DesktopCache,
    LaunchPlan,
};

const FIREFOX: &str = "[Desktop Entry]\nType=Application\nName=Firefox\nExec=firefox %u\nIcon=firefox\n";

fn info(name: Option<&str>, exec_line: Option<&str>, icon: Option<&str>, no_display: bool) -> DesktopInfo {
    DesktopInfo {
        name: name.map(|s| s.to_string()),
        exec_line: exec_line.map(|s| s.to_string()),
        icon: icon.map(|s| s.to_string()),
        no_display,
    }
}

fn app(name: &str, exec_line: &str) -> AppEntry {
    AppEntry::App {
        name: name.to_string(),
        exec_line: exec_line.to_string(),
        args: String::new(),
        icon: String::new(),
        custom_icon_path: None,
        desktop_file: None,
    }
}

fn catalog() -> AppCatalog {
    let mut c = AppCatalog::new();
    c.add_discovered("/apps/firefox.desktop".to_string(), info(Some("Firefox"), Some("firefox %u"), Some("firefox"), false));
    c.add_discovered("/apps/term.desktop".to_string(), info(Some("GNOME Terminal"), Some("gnome-terminal"), Some("term"), false));
    c
}

#[test]
fn desktop_entries_are_read() {
    let mut d = DesktopCache::new();
    d.load("/usr/share/applications/firefox.desktop".to_string(), FIREFOX);
    let e = d.lookup("/usr/share/applications/firefox.desktop").unwrap();
    assert_eq!(e.name, "Firefox");
    assert_eq!(e.exec_line, "firefox %u");
    assert_eq!(e.icon.as_deref(), Some("firefox"));
    assert_eq!(e.desktop_file.as_deref(), Some("/usr/share/applications/firefox.desktop"));
    let mut c = AppCatalog::new();
    c.discover_file("/x/h.desktop".to_string(), "[Desktop Entry]\nName=H\nExec=h\nNoDisplay=true\n");
    assert_eq!(c.len(), 0);
    d.load("/x/firefox.txt".to_string(), FIREFOX);
    assert!(d.lookup("/x/firefox.txt").is_none());
}

#[test]
fn discovery_keys_by_lower_case_name() {
    let mut c = AppCatalog::new();
    c.add_discovered("/a/x.desktop".to_string(), info(Some("Hidden"), Some("h"), None, true));
    c.add_discovered("/a/y.desktop".to_string(), info(Some("NoCmd"), None, None, false));
    c.add_discovered("/a/z.desktop".to_string(), info(Some("Empty"), Some(""), None, false));
    assert_eq!(c.len(), 0);
    c.add_discovered("/a/u.desktop".to_string(), info(None, Some("u"), None, false));
    assert_eq!(c.len(), 1);
    let u = c.get(&"unknown".to_string()).unwrap();
    assert_eq!(u.name, "Unknown");
    assert_eq!(u.desktop_file.as_deref(), Some("/a/u.desktop"));
    c.add_discovered("/a/f1.desktop".to_string(), info(Some("FireFox"), Some("ff1"), None, false));
    c.add_discovered("/a/f2.desktop".to_string(), info(Some("firefox"), Some("ff2"), None, false));
    assert_eq!(c.len(), 2);
    assert_eq!(c.get(&"firefox".to_string()).unwrap().exec_line, "ff2");
    assert!(c.get(&"FireFox".to_string()).is_none());
}

#[test]
fn discovery_from_file_text() {
    let mut c = AppCatalog::new();
    c.discover_file("/usr/share/applications/firefox.desktop".to_string(), FIREFOX);
    c.discover_file("/usr/share/applications/broken.txt".to_string(), FIREFOX);
    assert_eq!(c.len(), 1);
    assert_eq!(c.get(&"firefox".to_string()).unwrap().exec_line, "firefox %u");
}

#[test]
fn fuzzy_lookup_takes_first_match() {
    let c = catalog();
    assert_eq!(c.find_fuzzy(&"terminal".to_string()).unwrap().exec_line, "gnome-terminal");
    assert_eq!(c.find_fuzzy(&"xfirefoxy".to_string()).unwrap().exec_line, "firefox %u");
    assert!(c.find_fuzzy(&"steam".to_string()).is_none());
}

#[test]
fn desktop_cache_needs_name_and_command() {
    let mut d = DesktopCache::new();
    d.load("/d/firefox.desktop".to_string(), FIREFOX);
    d.load("/d/noexec.desktop".to_string(), "[Desktop Entry]\nName=X\n");
    let e = d.lookup("/d/firefox.desktop").unwrap();
    assert_eq!(e.exec_line, "firefox %u");
    assert_eq!(e.desktop_file.as_deref(), Some("/d/firefox.desktop"));
    assert!(d.lookup("/d/noexec.desktop").is_none());
    assert!(d.lookup("/d/never.desktop").is_none());
    assert!(entry_from_desktop("/p".to_string(), None).is_none());
    assert!(entry_from_desktop("/p".to_string(), Some(info(None, Some("x"), None, false))).is_none());
}

#[test]
fn launcher_resolves_pinned_entries() {
    let mut d = DesktopCache::new();
    d.load("/d/firefox.desktop".to_string(), FIREFOX);
    let mut with_file = app("New App", "");
    if let AppEntry::App { desktop_file, args, .. } = &mut with_file {
        *desktop_file = Some("/d/firefox.desktop".to_string());
        *args = "--private".to_string();
    }
    let mut folder = AppEntry::new_folder("Tools".to_string());
    folder.folder_apps_mut().unwrap().push(app("Firefox", ""));
    folder.folder_apps_mut().unwrap().push(AppEntry::new_spacer());
    folder.folder_apps_mut().unwrap().push(app("Editor", "gedit"));
    let pinned = vec![
        with_file,
        app("Firefox", ""),
        AppEntry::new_spacer(),
        app("terminal", ""),
        app("Custom", "my-tool --flag"),
        app("Custom", "other"),
        folder,
        app("Nothing", ""),
    ];
    let l = AppLauncher::new(pinned, false, catalog(), d);
    let names: Vec<&str> = l.entries().iter().map(|e| e.name.as_str()).collect();
    assert_eq!(names, vec!["Firefox", "Spacer", "GNOME Terminal", "Custom", "Tools", "Nothing", "Settings"]);
    assert_eq!(l.entries()[0].args, "--private");
    assert_eq!(l.entries()[0].desktop_file.as_deref(), Some("/d/firefox.desktop"));
    assert!(l.entries()[1].is_spacer);
    assert_eq!(l.entries()[3].exec_line, "my-tool --flag");
    let tools = &l.entries()[4];
    assert!(tools.is_folder);
    assert_eq!(tools.folder_entries.len(), 2);
    assert_eq!(tools.folder_entries[0].exec_line, "firefox %u");
    assert_eq!(tools.folder_entries[0].icon.as_deref(), Some("firefox"));
    assert_eq!(tools.folder_entries[1].exec_line, "gedit");
    assert_eq!(l.entries()[5].exec_line, "");
    let last = l.entries().last().unwrap();
    assert!(last.is_special);
    assert_eq!(last.exec_line, "internal:config");
}

#[test]
fn reorder_moves_and_refuses_settings() {
    let pinned = vec![app("A", "a"), app("B", "b"), app("C", "c")];
    let mut l = AppLauncher::new(pinned, false, AppCatalog::new(), DesktopCache::new());
    l.reorder_app(0, 2);
    let names: Vec<&str> = l.entries().iter().map(|e| e.name.as_str()).collect();
    assert_eq!(names, vec!["B", "C", "A", "Settings"]);
    l.reorder_app(2, 0);
    let names: Vec<&str> = l.entries().iter().map(|e| e.name.as_str()).collect();
    assert_eq!(names, vec!["A", "B", "C", "Settings"]);
    l.reorder_app(0, 3);
    l.reorder_app(3, 0);
    l.reorder_app(1, 1);
    l.reorder_app(7, 0);
    let names: Vec<&str> = l.entries().iter().map(|e| e.name.as_str()).collect();
    assert_eq!(names, vec!["A", "B", "C", "Settings"]);
}

#[test]
fn launch_plans() {
    let mut folder = AppEntry::new_folder("F".to_string());
    folder.folder_apps_mut().unwrap().push(app("In", "inner %f"));
    folder.folder_apps_mut().unwrap().push(app("Empty", ""));
    let mut with_args = app("Args", "tool \"a b\" %U");
    if let AppEntry::App { args, .. } = &mut with_args {
        *args = "--x \"y z\"".to_string();
    }
    let pinned = vec![with_args, app("NoCmd", ""), app("Codes", "%u %f"), AppEntry::new_spacer(), folder];
    let l = AppLauncher::new(pinned, false, AppCatalog::new(), DesktopCache::new());
    match l.plan_launch(0) {
        LaunchPlan::Run(v) => assert_eq!(v, vec!["tool", "a b", "--x", "y z"]),
        other => panic!("{:?}", other),
    }
    assert!(matches!(l.plan_launch(1), LaunchPlan::MissingCommand));
    assert!(matches!(l.plan_launch(2), LaunchPlan::Nothing));
    assert!(matches!(l.plan_launch(3), LaunchPlan::Nothing));
    assert!(matches!(l.plan_launch(4), LaunchPlan::Nothing));
    assert!(matches!(l.plan_launch(5), LaunchPlan::OpenSettings));
    assert!(matches!(l.plan_launch(99), LaunchPlan::Nothing));
    match l.plan_folder_launch(4, 0) {
        LaunchPlan::Run(v) => assert_eq!(v, vec!["inner"]),
        other => panic!("{:?}", other),
    }
    assert!(matches!(l.plan_folder_launch(4, 1), LaunchPlan::MissingCommand));
    assert!(matches!(l.plan_folder_launch(4, 2), LaunchPlan::Nothing));
    assert!(matches!(l.plan_folder_launch(0, 0), LaunchPlan::Nothing));
}

#[test]
fn running_marks_and_exits() {
    let mut folder = AppEntry::new_folder("F".to_string());
    folder.folder_apps_mut().unwrap().push(app("In", "inner"));
    let pinned = vec![folder, app("A", "a"), app("B", "b")];
    let mut l = AppLauncher::new(pinned, false, AppCatalog::new(), DesktopCache::new());
    l.mark_launched(1);
    l.mark_launched(50);
    assert!(l.entries()[1].is_active);
    assert!(l.mark_process_exited(ProcessKey::Slot(1)));
    assert!(!l.entries()[1].is_active);
    assert!(!l.mark_process_exited(ProcessKey::Slot(1)));

    // A folder app at slot 0 is told apart from slot 0 itself.
    l.mark_launched(0);
    l.mark_folder_app_launched(0, 0);
    assert!(l.entries()[0].folder_entries[0].is_active);
    assert!(l.mark_process_exited(ProcessKey::FolderApp(0, 0)));
    assert!(!l.entries()[0].folder_entries[0].is_active);
    assert!(l.entries()[0].is_active);
    assert!(l.mark_process_exited(ProcessKey::Slot(0)));
    assert!(!l.entries()[0].is_active);
}

#[test]
fn folder_app_exits_leave_slots_alone() {
    let mut folder = AppEntry::new_folder("F".to_string());
    folder.folder_apps_mut().unwrap().push(app("In", "inner"));
    folder.folder_apps_mut().unwrap().push(app("In2", "inner2"));
    let pinned = vec![folder, app("A", "a")];
    let mut l = AppLauncher::new(pinned, false, AppCatalog::new(), DesktopCache::new());
    l.mark_launched(1);
    l.mark_folder_app_launched(0, 1);
    assert!(l.mark_process_exited(ProcessKey::FolderApp(0, 1)));
    assert!(!l.entries()[0].folder_entries[1].is_active);
    assert!(l.entries()[1].is_active);
    assert!(!l.mark_process_exited(ProcessKey::FolderApp(0, 1)));
    assert!(!l.mark_process_exited(ProcessKey::FolderApp(5, 3)));
    assert!(!l.mark_process_exited(ProcessKey::FolderApp(1, 0)));
}

#[test]
fn referenced_files_in_order() {
    let mut a = app("A", "");
    if let AppEntry::App { desktop_file, .. } = &mut a {
        *desktop_file = Some("/a.desktop".to_string());
    }
    let mut inner = app("I", "");
    if let AppEntry::App { desktop_file, .. } = &mut inner {
        *desktop_file = Some("/i.desktop".to_string());
    }
    let mut folder = AppEntry::new_folder("F".to_string());
    folder.folder_apps_mut().unwrap().push(inner);
    let files = referenced_desktop_files(&vec![a, AppEntry::new_spacer(), folder, app("B", "b")]);
    assert_eq!(files, vec!["/a.desktop", "/i.desktop"]);
}

#[test]
fn launcher_helpers() {
    let l = AppLauncher::new(Vec::new(), true, AppCatalog::new(), DesktopCache::new());
    assert!(l.debug());
    assert_eq!(l.entries().len(), 1);
    assert_eq!(l.clean_exec("x %u y"), "x y");
    assert_eq!(l.parse_exec("\"a b\" c"), vec!["a b", "c"]);
    let e = l.resolve_app("Zed", "", "--z", "zed", &None, &None);
    assert_eq!(e.name, "Zed");
    assert_eq!(e.icon.as_deref(), Some("zed"));
    assert_eq!(e.args, "--z");
    assert!(l.resolve_config_app_to_folder_entry(&AppEntry::new_spacer()).is_none());
    let fe = l.resolve_config_app_to_folder_entry(&app("Q", "q")).unwrap();
    assert_eq!(fe.exec_line, "q");
}

#[test]
fn icons_of_desktop_files() {
    assert_eq!(desktop_icon_of("/a/firefox.desktop", FIREFOX).as_deref(), Some("firefox"));
    assert_eq!(desktop_icon_of("/a/firefox.txt", FIREFOX), None);
    assert_eq!(desktop_icon_of("/a/x.desktop", "[Desktop Entry]\nName=X\n"), None);
}

#[test]
fn discovered_names_are_the_name_key() {
    let mut c = AppCatalog::new();
    let text = "[Desktop Entry]\nX-Ubuntu-Gettext-Domain=nautilus\nName=Files\nExec=nautilus\n";
    c.discover_file("/a/files.desktop".to_string(), text);
    assert_eq!(c.get(&"files".to_string()).unwrap().name, "Files");
}
