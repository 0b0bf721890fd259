use rusty_dock::config::{
    default_animation_duration, default_folder_columns, default_folder_icon_size, default_hide_delay,
    default_pinned_apps, default_smart_trigger_delay, default_true, validate_settings, ActiveIndicatorStyle,
    AppEntry, ConfigError, DockPosition,
};

#[test]
fn defaults_match_the_documented_values() {
    assert_eq!(default_animation_duration(), 200);
    assert!(default_true());
    assert_eq!(default_hide_delay(), 500);
    assert_eq!(default_smart_trigger_delay(), 1000);
    assert_eq!(default_folder_columns(), 3);
    assert_eq!(default_folder_icon_size(), 48);
    assert_eq!(ActiveIndicatorStyle::default(), ActiveIndicatorStyle::Dot);
    assert_ne!(DockPosition::Top, DockPosition::Bottom);
}

#[test]
fn default_pinned_apps_are_firefox_files_terminal() {
    let apps = default_pinned_apps();
    let expected = [("Firefox", "firefox"), ("Files", "system-file-manager"), ("Terminal", "utilities-terminal")];
    assert_eq!(apps.len(), 3);
    for (e, (name, icon)) in apps.iter().zip(expected) {
        match e {
            AppEntry::App { name: n, exec_line, args, icon: i, custom_icon_path, desktop_file } => {
                assert_eq!(n, name);
                assert_eq!(i, icon);
                assert!(exec_line.is_empty() && args.is_empty());
                assert!(custom_icon_path.is_none() && desktop_file.is_none());
            }
            _ => panic!("not an app"),
        }
    }
}

#[test]
fn default_settings_pass_validation() {
    assert_eq!(validate_settings(48, 64, true, true, 200, true), Ok(()));
}

#[test]
fn each_rule_has_its_error() {
    assert_eq!(validate_settings(0, 0, false, false, 0, false), Err(ConfigError::IconSizeZero));
    assert_eq!(validate_settings(1, 0, false, false, 0, false), Err(ConfigError::DockHeightZero));
    assert_eq!(validate_settings(1, 1, false, false, 0, false), Err(ConfigError::OpacityOutOfRange));
    assert_eq!(validate_settings(1, 1, true, false, 0, false), Err(ConfigError::NegativeBorderRadius));
    assert_eq!(validate_settings(1, 1, true, true, 0, false), Err(ConfigError::AnimationDurationZero));
    assert_eq!(validate_settings(1, 1, true, true, 1, false), Err(ConfigError::ZoomBelowOne));
}

#[test]
fn error_messages() {
    assert_eq!(ConfigError::IconSizeZero.message(), "icon_size must be greater than 0");
    assert_eq!(ConfigError::DockHeightZero.message(), "dock_height must be greater than 0");
    assert_eq!(ConfigError::OpacityOutOfRange.message(), "background_opacity must be between 0.0 and 1.0");
    assert_eq!(ConfigError::NegativeBorderRadius.message(), "border_radius cannot be negative");
    assert_eq!(ConfigError::AnimationDurationZero.message(), "animation_duration_ms must be greater than 0");
    assert_eq!(ConfigError::ZoomBelowOne.message(), "icon_zoom_on_hover must be at least 1.0");
}

#[test]
fn constructors_and_names() {
    let app = AppEntry::new("Firefox".to_string());
    assert_eq!(app.name(), "Firefox");
    assert!(!app.is_spacer() && !app.is_folder());
    let spacer = AppEntry::new_spacer();
    assert_eq!(spacer.name(), "---Spacer---");
    assert!(spacer.is_spacer());
    let folder = AppEntry::new_folder("Games".to_string());
    assert!(folder.is_folder());
    assert_eq!(folder.name(), "Games");
    assert_eq!(folder.folder_apps().map(|a| a.len()), Some(0));
    assert!(app.folder_apps().is_none());
}

#[test]
fn mutable_accessors() {
    let mut app = AppEntry::new("A".to_string());
    *app.name_mut().unwrap() = "B".to_string();
    *app.exec_mut().unwrap() = "b --x".to_string();
    *app.args_mut().unwrap() = "--y".to_string();
    *app.icon_mut().unwrap() = "b-icon".to_string();
    *app.custom_icon_path_mut().unwrap() = Some("/tmp/b.png".to_string());
    *app.desktop_file_mut().unwrap() = Some("/x/b.desktop".to_string());
    assert!(app.folder_icon_mut().is_none());
    assert!(app.folder_apps_mut().is_none());
    assert!(app.folder_show_miniatures_mut().is_none());
    match &app {
        AppEntry::App { name, exec_line, args, icon, custom_icon_path, desktop_file } => {
            assert_eq!(name, "B");
            assert_eq!(exec_line, "b --x");
            assert_eq!(args, "--y");
            assert_eq!(icon, "b-icon");
            assert_eq!(custom_icon_path.as_deref(), Some("/tmp/b.png"));
            assert_eq!(desktop_file.as_deref(), Some("/x/b.desktop"));
        }
        _ => panic!("not an app"),
    }

    let mut folder = AppEntry::new_folder("F".to_string());
    *folder.folder_icon_mut().unwrap() = Some("folder".to_string());
    *folder.folder_show_miniatures_mut().unwrap() = true;
    folder.folder_apps_mut().unwrap().push(AppEntry::new_spacer());
    assert!(folder.exec_mut().is_none());
    *folder.name_mut().unwrap() = "G".to_string();
    match &folder {
        AppEntry::Folder { name, icon, apps, show_miniatures } => {
            assert_eq!(name, "G");
            assert_eq!(icon.as_deref(), Some("folder"));
            assert_eq!(apps.len(), 1);
            assert!(*show_miniatures);
        }
        _ => panic!("not a folder"),
    }

    let mut spacer = AppEntry::new_spacer();
    assert!(spacer.name_mut().is_none());
}

#[test]
fn settings_buttons_cycle_through_choices() {
    let mut p = DockPosition::Bottom;
    let mut seen = vec![];
    for _ in 0..4 {
        p = p.next();
        seen.push(p);
    }
    assert_eq!(seen, vec![DockPosition::Top, DockPosition::Left, DockPosition::Right, DockPosition::Bottom]);
    let mut s = ActiveIndicatorStyle::Dot;
    let mut styles = vec![];
    for _ in 0..4 {
        s = s.next();
        styles.push(s);
    }
    assert_eq!(
        styles,
        vec![ActiveIndicatorStyle::Underline, ActiveIndicatorStyle::Border, ActiveIndicatorStyle::Glow, ActiveIndicatorStyle::Dot]
    );
}
