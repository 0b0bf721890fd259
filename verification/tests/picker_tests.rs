use rusty_dock::desktop::DesktopInfo;
use rusty_dock::picker::{
    arrange_listing, cached_icon_name, choice_from_info, desktop_file_choice, first_matching_dir, keep_in_listing, matches_search, picker_start,
    precedes, sort_by_name, PickerMode,
};

#[test]
fn search_is_case_insensitive_on_the_name() {
    assert!(matches_search("Anything", ""));
    assert!(matches_search("Firefox", "fox"));
    assert!(matches_search("FIREFOX", "fire"));
    assert!(!matches_search("Firefox", "FOX"));
    assert!(!matches_search("Terminal", "fox"));
    assert!(matches_search("ÄRGER", "ärg"));
}

#[test]
fn submitting_a_search_opens_the_first_matching_directory() {
    let entries = vec![
        ("Documents".to_string(), true),
        ("music.png".to_string(), false),
        ("Music".to_string(), true),
        ("musicals".to_string(), true),
    ];
    assert_eq!(first_matching_dir(&entries, "MUS"), Some(2));
    assert_eq!(first_matching_dir(&entries, ""), Some(0));
    assert_eq!(first_matching_dir(&entries, "video"), None);
    assert_eq!(first_matching_dir(&Vec::new(), ""), None);
}

#[test]
fn hidden_entries_only_when_asked() {
    assert!(!keep_in_listing(".config", true, PickerMode::Any, false, false));
    assert!(keep_in_listing(".config", true, PickerMode::Any, true, false));
    assert!(keep_in_listing("src", true, PickerMode::Icons, false, false));
}

#[test]
fn icon_picker_lists_image_files() {
    assert!(keep_in_listing("app.PNG", false, PickerMode::Icons, false, false));
    assert!(keep_in_listing("app.svg", false, PickerMode::Icons, false, false));
    assert!(keep_in_listing("app.xpm", false, PickerMode::Icons, false, false));
    assert!(keep_in_listing("app.Ico", false, PickerMode::Icons, false, false));
    assert!(!keep_in_listing("app.jpg", false, PickerMode::Icons, false, false));
    assert!(!keep_in_listing("png", false, PickerMode::Icons, false, false));
}

#[test]
fn executable_picker_lists_executables() {
    assert!(keep_in_listing("run.sh", false, PickerMode::Executables, false, true));
    assert!(!keep_in_listing("notes.txt", false, PickerMode::Executables, false, false));
    assert!(keep_in_listing("notes.txt", false, PickerMode::Any, false, false));
}

#[test]
fn names_compare_as_strings_do() {
    let names = ["", "a", "B", "b", "ab", "abc", "Zebra", "zebra", "é", "e"];
    for a in names {
        for b in names {
            assert_eq!(precedes(a, b), a < b, "{:?} < {:?}", a, b);
        }
    }
}

#[test]
fn listings_sort_by_name() {
    let mut v = vec![
        ("zeta".to_string(), 1),
        ("Alpha".to_string(), 2),
        ("beta".to_string(), 3),
        ("alpha".to_string(), 4),
    ];
    sort_by_name(&mut v);
    let names: Vec<&str> = v.iter().map(|p| p.0.as_str()).collect();
    assert_eq!(names, vec!["Alpha", "alpha", "beta", "zeta"]);
    let tags: Vec<i32> = v.iter().map(|p| p.1).collect();
    assert_eq!(tags, vec![2, 4, 3, 1]);
}

#[test]
fn cached_icon_names_are_made_safe() {
    assert_eq!(cached_icon_name("My App!"), "My_App_.png");
    assert_eq!(cached_icon_name("gnome-terminal_2"), "gnome-terminal_2.png");
    assert_eq!(cached_icon_name("Café/Ω"), "Café_Ω.png");
    assert_eq!(cached_icon_name(""), ".png");
}

#[test]
fn desktop_choice_needs_a_visible_name() {
    let shown = DesktopInfo {
        name: Some("Files".to_string()),
        exec_line: Some("nautilus".to_string()),
        icon: None,
        no_display: false,
    };
    assert_eq!(
        choice_from_info("/a/files.desktop".to_string(), Some(shown.clone())),
        Some(("Files".to_string(), "/a/files.desktop".to_string()))
    );
    let hidden = DesktopInfo { no_display: true, ..shown.clone() };
    assert_eq!(choice_from_info("/a/files.desktop".to_string(), Some(hidden)), None);
    let nameless = DesktopInfo { name: None, ..shown };
    assert_eq!(choice_from_info("/a/files.desktop".to_string(), Some(nameless)), None);
    assert_eq!(choice_from_info("/a/files.desktop".to_string(), None), None);
}

#[test]
fn desktop_files_are_decoded_for_the_picker() {
    let text = "[Desktop Entry]\nType=Application\nName=Files\nExec=nautilus\n";
    assert_eq!(
        desktop_file_choice("/usr/share/applications/files.desktop".to_string(), text),
        Some(("Files".to_string(), "/usr/share/applications/files.desktop".to_string()))
    );
    let hidden = "[Desktop Entry]\nName=Files\nExec=nautilus\nNoDisplay=true\n";
    assert_eq!(desktop_file_choice("/x/files.desktop".to_string(), hidden), None);
    assert_eq!(desktop_file_choice("/x/files.txt".to_string(), text), None);
    let nameless = "[Desktop Entry]\nExec=nautilus\n";
    assert_eq!(desktop_file_choice("/x/files.desktop".to_string(), nameless), None);
}

fn entry(name: &str, is_dir: bool, executable: bool) -> (String, bool, bool) {
    (name.to_string(), is_dir, executable)
}

#[test]
fn listing_puts_sorted_directories_before_sorted_files() {
    let found = vec![
        entry("zeta.png", false, false),
        entry("Pictures", true, false),
        entry(".hidden", true, false),
        entry("alpha.svg", false, true),
        entry("notes.txt", false, false),
        entry("Apps", true, false),
        entry(".icon.png", false, false),
    ];
    let icons = arrange_listing(found.clone(), PickerMode::Icons, false);
    let expected: Vec<(String, bool)> = vec![
        ("Apps".to_string(), true),
        ("Pictures".to_string(), true),
        ("alpha.svg".to_string(), false),
        ("zeta.png".to_string(), false),
    ];
    assert_eq!(icons, expected);
    let all = arrange_listing(found.clone(), PickerMode::Any, true);
    let names: Vec<&str> = all.iter().map(|p| p.0.as_str()).collect();
    assert_eq!(names, vec![".hidden", "Apps", "Pictures", ".icon.png", "alpha.svg", "notes.txt", "zeta.png"]);
    let exes = arrange_listing(found, PickerMode::Executables, false);
    let names: Vec<&str> = exes.iter().map(|p| p.0.as_str()).collect();
    assert_eq!(names, vec!["Apps", "Pictures", "alpha.svg"]);
    assert!(arrange_listing(Vec::new(), PickerMode::Any, true).is_empty());
}

#[test]
fn pickers_start_where_their_files_are() {
    assert_eq!(picker_start(PickerMode::Icons), ("/usr/share/icons", "Select Icon"));
    assert_eq!(picker_start(PickerMode::Executables), ("/usr/bin", "Select Executable"));
    assert_eq!(picker_start(PickerMode::Any), ("/", "Select File"));
}

#[test]
fn sorting_keeps_the_order_of_equal_names() {
    let mut v = vec![
        ("Files".to_string(), "/b/files.desktop".to_string()),
        ("Editor".to_string(), "/a/editor.desktop".to_string()),
        ("Files".to_string(), "/a/files.desktop".to_string()),
        ("Editor".to_string(), "/c/editor.desktop".to_string()),
    ];
    let mut expected = v.clone();
    expected.sort_by(|a, b| a.0.cmp(&b.0));
    sort_by_name(&mut v);
    assert_eq!(v, expected);
    assert_eq!(v[0].1, "/a/editor.desktop");
    assert_eq!(v[2].1, "/b/files.desktop");
}

#[test]
fn gettext_domains_do_not_change_the_name() {
    let text = "[Desktop Entry]\nX-Ubuntu-Gettext-Domain=a\u{0}b\nName=Files\nExec=nautilus\n";
    assert_eq!(
        desktop_file_choice("/x/files.desktop".to_string(), text),
        Some(("Files".to_string(), "/x/files.desktop".to_string()))
    );
}
