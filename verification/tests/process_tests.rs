use rusty_dock::process::{status_is_zombie, ProcessKey, ProcessMonitor};

#[test]
fn fresh_monitor_waits_for_the_interval() {
    let m = ProcessMonitor::new();
    assert!(!m.should_poll());
    assert!(!m.poll_due(0));
    assert!(!m.poll_due(1499));
    assert!(m.poll_due(1500));
    assert!(m.poll_due(60_000));
}

#[test]
fn dead_processes_are_reported_once() {
    let mut m = ProcessMonitor::new();
    m.register(0, 10);
    m.register(1, 20);
    m.register(2, 30);
    let dead = m.poll_dead(|pid| pid != 20);
    assert_eq!(dead, vec![ProcessKey::Slot(1)]);
    let dead = m.poll_dead(|_| true);
    assert!(dead.is_empty());
    let dead = m.poll_dead(|_| false);
    assert_eq!(dead.len(), 2);
    assert!(dead.contains(&ProcessKey::Slot(0)) && dead.contains(&ProcessKey::Slot(2)));
    assert!(m.poll_dead(|_| false).is_empty());
}

#[test]
fn registering_a_slot_again_replaces_its_process() {
    let mut m = ProcessMonitor::new();
    m.register(4, 100);
    m.register(4, 200);
    let dead = m.poll_dead(|pid| pid == 100);
    assert_eq!(dead, vec![ProcessKey::Slot(4)]);
    assert!(m.poll_dead(|_| false).is_empty());
}

#[test]
fn polling_resets_the_clock() {
    let mut m = ProcessMonitor::new();
    m.register(0, 1);
    let _ = m.poll_dead(|_| true);
    assert!(!m.should_poll());
}

#[test]
fn zombie_state_is_read_from_status_text() {
    let zombie = "Name:\tdefunct\nUmask:\t0022\nState:\tZ (zombie)\nTgid:\t42\n";
    let running = "Name:\tfirefox\nState:\tS (sleeping)\nTgid:\t42\n";
    assert!(status_is_zombie(zombie));
    assert!(!status_is_zombie(running));
    assert!(!status_is_zombie("Name:\tZed\nPid:\t1\n"));
    assert!(!status_is_zombie(""));
    // Only the first state line counts.
    assert!(!status_is_zombie("State:\tR (running)\nState:\tZ (zombie)\n"));
    assert!(status_is_zombie("State:\tZ\r\nName:\tx\r\n"));
}

#[test]
fn folder_apps_are_watched_apart_from_slots() {
    let mut m = ProcessMonitor::new();
    m.register(3, 10);
    m.register_folder_app(0, 3, 20);
    m.register_folder_app(0, 3, 21);
    let dead = m.poll_dead(|pid| pid != 21);
    assert_eq!(dead, vec![ProcessKey::FolderApp(0, 3)]);
    let dead = m.poll_dead(|_| false);
    assert_eq!(dead, vec![ProcessKey::Slot(3)]);
}
