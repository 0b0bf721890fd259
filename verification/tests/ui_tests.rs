use rusty_dock::launcher::{Entry, FolderEntry};
use rusty_dock::ui::{
    any_running, calculate_dock_width, ensure_capacity, grid_cell, indicator_for, popup_columns, popup_rows,
    press_target, release_action, slot_left, slot_under_pointer, smart_hide_step, zoom_slot, AnimationState, IndicatorDot, ReleaseAction, SmartHideStep,
    BOUNCE_MARGIN, OVERDRAW, POPUP_RESERVE,
};

#[test]
fn overdraw_is_popup_plus_bounce() {
    assert_eq!(BOUNCE_MARGIN, 56);
    assert_eq!(POPUP_RESERVE, 180);
    assert_eq!(OVERDRAW, 236);
}

#[test]
fn dock_width_counts_slots() {
    assert_eq!(calculate_dock_width(0, 48, 8), 200);
    assert_eq!(calculate_dock_width(1, 48, 8), 104);
    assert_eq!(calculate_dock_width(5, 48, 8), 5 * 64 + 40);
    assert_eq!(calculate_dock_width(3, 0, 0), 40);
}

#[test]
fn release_over_open_folder_app_launches_it() {
    assert_eq!(
        release_action(Some(2), Some(1), Some(4), true, false, Some(4)),
        ReleaseAction::LaunchFolderApp(2, 1)
    );
    assert_eq!(release_action(None, Some(1), None, true, false, None), ReleaseAction::Nothing);
}

#[test]
fn release_without_drag_does_nothing() {
    assert_eq!(release_action(Some(2), None, None, true, true, Some(2)), ReleaseAction::Nothing);
}

#[test]
fn click_on_folder_toggles_it() {
    assert_eq!(release_action(None, None, Some(3), true, true, Some(3)), ReleaseAction::ToggleFolder(Some(3)));
    assert_eq!(release_action(Some(3), None, Some(3), true, true, Some(3)), ReleaseAction::ToggleFolder(None));
    assert_eq!(release_action(Some(1), None, Some(3), true, true, Some(3)), ReleaseAction::ToggleFolder(Some(3)));
}

#[test]
fn click_on_app_launches_it() {
    assert_eq!(release_action(Some(1), None, Some(0), true, false, Some(0)), ReleaseAction::LaunchSlot(0));
}

#[test]
fn drag_onto_other_slot_reorders() {
    assert_eq!(release_action(None, None, Some(0), false, false, Some(3)), ReleaseAction::Reorder(0, 3));
    assert_eq!(release_action(None, None, Some(3), false, true, Some(3)), ReleaseAction::CloseFolder);
    assert_eq!(release_action(None, None, Some(3), false, false, None), ReleaseAction::CloseFolder);
}

#[test]
fn running_animations_are_found_anywhere() {
    let idle = vec![Some(AnimationState::Idle), None, Some(AnimationState::Completed)];
    assert!(!any_running(None, &idle, &idle, Some(AnimationState::Completed)));
    assert!(any_running(Some(AnimationState::Running), &idle, &idle, None));
    let mut with_run = idle.clone();
    with_run[1] = Some(AnimationState::Running);
    assert!(any_running(None, &with_run, &idle, None));
    assert!(any_running(None, &idle, &with_run, None));
    assert!(any_running(None, &Vec::new(), &Vec::new(), Some(AnimationState::Running)));
}

#[test]
fn animation_lists_grow_in_step() {
    let mut scales: Vec<Option<u8>> = vec![Some(1)];
    let mut bounces: Vec<Option<u16>> = vec![Some(7)];
    ensure_capacity(&mut scales, &mut bounces, 3);
    assert_eq!(scales, vec![Some(1), None, None]);
    assert_eq!(bounces, vec![Some(7), None, None]);
    ensure_capacity(&mut scales, &mut bounces, 2);
    assert_eq!(scales.len(), 3);
    assert_eq!(bounces.len(), 3);
}

#[test]
fn smart_hide_reveals_after_the_delay() {
    assert_eq!(smart_hide_step(false, true, false, 1075, 1080, None, 500), SmartHideStep::Idle);
    assert_eq!(smart_hide_step(true, false, false, 1075, 1080, None, 500), SmartHideStep::Idle);
    assert_eq!(smart_hide_step(true, true, true, 1075, 1080, None, 500), SmartHideStep::Idle);
    assert_eq!(smart_hide_step(true, true, false, 1070, 1080, None, 500), SmartHideStep::StartTimer);
    assert_eq!(smart_hide_step(true, true, false, 1079, 1080, Some(499), 500), SmartHideStep::KeepWaiting);
    assert_eq!(smart_hide_step(true, true, false, 1079, 1080, Some(500), 500), SmartHideStep::Reveal);
    assert_eq!(smart_hide_step(true, true, false, 1069, 1080, Some(900), 500), SmartHideStep::ResetTimer);
}

#[test]
fn slots_are_centred() {
    let width = calculate_dock_width(3, 48, 8);
    assert_eq!(slot_left(width, 3, 48, 8, 0), 20);
    assert_eq!(slot_left(width, 3, 48, 8, 1), 84);
    assert_eq!(slot_left(width, 3, 48, 8, 2), 148);
    assert_eq!(slot_left(101, 1, 48, 8, 0), 18);
    assert_eq!(slot_left(100, 3, 48, 8, 0), -46);
    assert_eq!(slot_left(101, 3, 48, 8, 2), 83);
    assert_eq!(slot_left(width, 3, 48, 8, 3), 212);
}

#[test]
fn popup_grid_shape() {
    assert_eq!(popup_columns(0), 1);
    assert_eq!(popup_columns(3), 3);
    assert_eq!(popup_rows(0, 3), 0);
    assert_eq!(popup_rows(1, 3), 1);
    assert_eq!(popup_rows(3, 3), 1);
    assert_eq!(popup_rows(4, 3), 2);
    assert_eq!(popup_rows(7, 1), 7);
}

#[test]
fn popup_cells_map_to_apps() {
    assert_eq!(grid_cell(0, 0, 3, 5), Some(0));
    assert_eq!(grid_cell(1, 1, 3, 5), Some(4));
    assert_eq!(grid_cell(1, 2, 3, 5), None);
    assert_eq!(grid_cell(0, 4, 3, 5), Some(4));
    assert_eq!(grid_cell(0, 0, 3, 0), None);
}

fn slot(is_active: bool, is_folder: bool, inner_active: &[bool]) -> Entry {
    Entry {
        name: "x".to_string(),
        exec_line: String::new(),
        args: String::new(),
        icon: None,
        desktop_file: None,
        is_active,
        is_special: false,
        is_spacer: false,
        is_folder,
        show_miniatures: false,
        folder_entries: inner_active
            .iter()
            .map(|a| FolderEntry { name: "y".to_string(), exec_line: String::new(), args: String::new(), icon: None, is_active: *a })
            .collect(),
    }
}

#[test]
fn running_dots() {
    assert_eq!(indicator_for(&slot(true, false, &[]), true, false), IndicatorDot::Running);
    assert_eq!(indicator_for(&slot(true, false, &[]), false, false), IndicatorDot::Absent);
    assert_eq!(indicator_for(&slot(true, false, &[]), true, true), IndicatorDot::Absent);
    assert_eq!(indicator_for(&slot(false, true, &[false, true]), true, false), IndicatorDot::FolderRunning);
    assert_eq!(indicator_for(&slot(false, true, &[false, false]), true, false), IndicatorDot::Absent);
    assert_eq!(indicator_for(&slot(false, false, &[true]), true, false), IndicatorDot::Absent);
    assert_eq!(indicator_for(&slot(true, true, &[true]), true, false), IndicatorDot::Running);
}

#[test]
fn press_starts_dragging_the_hovered_slot() {
    assert_eq!(press_target(true, Some(2), 3), Some(2));
    assert_eq!(press_target(true, Some(3), 3), None);
    assert_eq!(press_target(false, Some(0), 3), None);
    assert_eq!(press_target(true, None, 3), None);
}

#[test]
fn hover_zoom_waits_for_drag_and_folder() {
    assert_eq!(zoom_slot(Some(1), None, None), Some(1));
    assert_eq!(zoom_slot(Some(1), Some(1), None), None);
    assert_eq!(zoom_slot(Some(1), None, Some(0)), None);
    assert_eq!(zoom_slot(None, None, None), None);
}

#[test]
fn pointer_finds_the_slot_under_it() {
    let width = calculate_dock_width(3, 48, 8);
    // Slots start at 20, 84 and 148 and are 64 wide.
    assert_eq!(slot_under_pointer(20, 20, true, width, 3, 48, 8), Some(0));
    assert_eq!(slot_under_pointer(19, 20, true, width, 3, 48, 8), None);
    assert_eq!(slot_under_pointer(84, 84, true, width, 3, 48, 8), Some(0));
    assert_eq!(slot_under_pointer(84, 85, true, width, 3, 48, 8), Some(1));
    assert_eq!(slot_under_pointer(212, 212, true, width, 3, 48, 8), Some(2));
    assert_eq!(slot_under_pointer(212, 213, true, width, 3, 48, 8), None);
    assert_eq!(slot_under_pointer(100, 100, false, width, 3, 48, 8), None);
    assert_eq!(slot_under_pointer(i64::MIN, i64::MIN, true, width, 3, 48, 8), None);
    assert_eq!(slot_under_pointer(i64::MAX, i64::MAX, true, width, 3, 48, 8), None);
    assert_eq!(slot_under_pointer(5, 5, true, width, 0, 48, 8), None);
}
