use icy::config::{Config, FilesystemType, RetentionPolicy};
use icy::display::{config_item_label, snapshot_item_label, snapshot_table_header, snapshot_table_row,
    description_or_default};
use icy::snapshots::{Snapshot, Timestamp};
use icy::tui::{Focus, InputMode, Key, TuiAction, TuiApp};

fn cfg(name: &str) -> Config {
    Config {
        name: name.to_string(),
        path: "/".to_string(),
        snapshot_dir: "/s".to_string(),
        retention: RetentionPolicy::default(),
        fs_type: FilesystemType::Btrfs,
        lvm_snapshot_size: "5G".to_string(),
    }
}

fn snap(id: usize) -> Snapshot {
    Snapshot {
        id,
        timestamp: Timestamp { secs: 86400 + 3661, nanos: 0 },
        description: format!("d{}", id),
        path: String::new(),
    }
}

#[test]
fn start_selects_first_config_and_loads_it() {
    let app = TuiApp::new(vec![cfg("a"), cfg("b")]);
    assert_eq!(app.config_selected, Some(0));
    assert!(matches!(app.startup_action(), TuiAction::LoadSnapshots { config_index: 0 }));
    let empty = TuiApp::new(vec![]);
    assert_eq!(empty.config_selected, None);
    assert!(matches!(empty.startup_action(), TuiAction::Nothing));
}

#[test]
fn arrows_wrap_and_undo_each_other() {
    let mut app = TuiApp::new(vec![cfg("a"), cfg("b"), cfg("c")]);
    app.navigate_up();
    assert_eq!(app.config_selected, Some(2));
    app.navigate_down();
    assert_eq!(app.config_selected, Some(0));
    app.navigate_down();
    assert_eq!(app.config_selected, Some(1));
    app.navigate_up();
    assert_eq!(app.config_selected, Some(0));
    let mut empty = TuiApp::new(vec![]);
    empty.navigate_down();
    assert_eq!(empty.config_selected, Some(0));
    empty.navigate_up();
    assert_eq!(empty.config_selected, Some(0));
}

#[test]
fn tab_switches_lists_and_selects_first_snapshot() {
    let mut app = TuiApp::new(vec![cfg("a")]);
    app.snapshots_loaded(vec![snap(1), snap(2)]);
    assert_eq!(app.snapshot_selected, Some(0));
    app.snapshot_selected = None;
    assert!(matches!(app.handle_key(Key::Tab, ""), TuiAction::Nothing));
    assert_eq!(app.focus, Focus::Snapshots);
    assert_eq!(app.snapshot_selected, Some(0));
    app.handle_key(Key::Down, "");
    assert_eq!(app.snapshot_selected, Some(1));
    app.handle_key(Key::Tab, "");
    assert_eq!(app.focus, Focus::Configs);
}

#[test]
fn keys_ask_for_work() {
    let mut app = TuiApp::new(vec![cfg("a")]);
    app.snapshots_loaded(vec![snap(5), snap(6)]);
    app.snapshot_selected = Some(1);
    assert!(matches!(app.handle_key(Key::Char('d'), ""),
        TuiAction::DeleteSnapshot { config_index: 0, snapshot_id: 6 }));
    assert!(matches!(app.handle_key(Key::Char('r'), ""), TuiAction::Nothing));
    assert_eq!(app.input_mode, InputMode::ConfirmRollback);
    assert!(matches!(app.handle_key(Key::Char('y'), ""),
        TuiAction::RollbackSnapshot { config_index: 0, snapshot_id: 6 }));
    assert_eq!(app.input_mode, InputMode::ConfirmRollback);
    app.rolled_back(6);
    assert_eq!(app.input_mode, InputMode::Normal);
    assert!(matches!(app.handle_key(Key::Enter, ""), TuiAction::LoadSnapshots { config_index: 0 }));
    assert!(matches!(app.handle_key(Key::Char('x'), ""), TuiAction::Nothing));
    assert!(matches!(app.handle_key(Key::Char('c'), ""), TuiAction::ResetInput));
    assert_eq!(app.input_mode, InputMode::CreateSnapshot);
    assert!(matches!(app.handle_key(Key::Char('q'), "q"), TuiAction::EditInput));
    assert!(!app.should_quit);
    match app.handle_key(Key::Enter, "my snapshot") {
        TuiAction::CreateSnapshot { config_index, description } => {
            assert_eq!(config_index, 0);
            assert_eq!(description, "my snapshot");
        }
        _ => panic!("expected create"),
    }
    assert_eq!(app.input_mode, InputMode::CreateSnapshot);
    app.snapshot_created("my snapshot", vec![snap(5), snap(6), snap(7)]);
    assert_eq!(app.input_mode, InputMode::Normal);
    app.handle_key(Key::Char('c'), "");
    assert!(matches!(app.handle_key(Key::Esc, "zzz"), TuiAction::Nothing));
    assert_eq!(app.input_mode, InputMode::Normal);
    app.handle_key(Key::Char('q'), "");
    assert!(app.should_quit);
}

#[test]
fn nothing_selected_asks_for_nothing() {
    let mut app = TuiApp::new(vec![]);
    assert!(matches!(app.handle_key(Key::Char('d'), ""), TuiAction::Nothing));
    assert!(matches!(app.handle_key(Key::Char('r'), ""), TuiAction::Nothing));
    assert!(matches!(app.handle_key(Key::Enter, ""), TuiAction::Nothing));
    app.handle_key(Key::Char('c'), "");
    assert!(matches!(app.handle_key(Key::Enter, "x"), TuiAction::Nothing));
    assert_eq!(app.input_mode, InputMode::Normal);
}

#[test]
fn completions_set_messages() {
    let mut app = TuiApp::new(vec![cfg("a")]);
    app.snapshot_created("nightly", vec![snap(1)]);
    assert_eq!(app.message.as_deref(), Some("✓ Snapshot created: nightly"));
    assert_eq!(app.snapshot_selected, Some(0));
    app.snapshot_deleted(1, vec![]);
    assert_eq!(app.message.as_deref(), Some("✓ Snapshot #1 deleted"));
    assert_eq!(app.snapshot_selected, None);
    app.rolled_back(3);
    assert_eq!(app.message.as_deref(), Some("✓ Rolled back to snapshot #3. Please reboot."));
}

#[test]
fn labels_and_titles() {
    let mut app = TuiApp::new(vec![cfg("root")]);
    assert_eq!(app.snapshots_title(), "Snapshots (root)");
    app.config_selected = None;
    assert_eq!(app.snapshots_title(), "Snapshots");
    assert_eq!(app.help_text(),
        "c: Create  r: Rollback  d: Delete  q: Quit  ↑/↓: Navigate  Tab: Switch Panel");
    app.input_mode = InputMode::CreateSnapshot;
    assert_eq!(app.help_text(), "Enter: Confirm  Esc: Cancel");
    app.input_mode = InputMode::ConfirmRollback;
    assert_eq!(app.help_text(), "y/Enter: Confirm rollback  Any other key: Cancel");
    assert_eq!(config_item_label(&cfg("home")), "📁 home");
    assert_eq!(snapshot_item_label(&snap(7)), "#7   1970-01-02 01:01:01 - d7");
    assert_eq!(snapshot_item_label(&snap(12345)), "#12345 1970-01-02 01:01:01 - d12345");
    assert_eq!(snapshot_table_header(), format!("{:<5} {:<20} {:<30} {}", "ID", "Date", "Time", "Description"));
    assert_eq!(snapshot_table_row(&snap(3)),
        format!("{:<5} {:<20} {:<30} {}", 3, "1970-01-02", "01:01:01", "d3"));
    assert_eq!(description_or_default(None), "Manual snapshot");
    assert_eq!(description_or_default(Some("x".to_string())), "x");
}

#[test]
fn rollback_waits_for_confirmation() {
    let mut app = TuiApp::new(vec![cfg("a")]);
    app.snapshots_loaded(vec![snap(5), snap(6)]);
    app.focus = Focus::Snapshots;
    assert!(matches!(app.handle_key(Key::Char('r'), ""), TuiAction::Nothing));
    assert_eq!(app.input_mode, InputMode::ConfirmRollback);
    assert!(matches!(app.handle_key(Key::Char('n'), ""), TuiAction::Nothing));
    assert_eq!(app.input_mode, InputMode::Normal);
    app.handle_key(Key::Char('r'), "");
    assert!(matches!(app.handle_key(Key::Esc, ""), TuiAction::Nothing));
    assert_eq!(app.input_mode, InputMode::Normal);
    app.handle_key(Key::Char('r'), "");
    assert!(matches!(app.handle_key(Key::Enter, ""),
        TuiAction::RollbackSnapshot { config_index: 0, snapshot_id: 5 }));
    let mut none = TuiApp::new(vec![cfg("a")]);
    assert!(matches!(none.handle_key(Key::Char('r'), ""), TuiAction::Nothing));
    assert_eq!(none.input_mode, InputMode::Normal);
}

#[test]
fn description_field_stays_open_until_created() {
    let mut app = TuiApp::new(vec![cfg("a")]);
    app.handle_key(Key::Char('c'), "");
    assert!(matches!(app.handle_key(Key::Enter, "nightly"),
        TuiAction::CreateSnapshot { config_index: 0, .. }));
    assert_eq!(app.input_mode, InputMode::CreateSnapshot);
    assert!(matches!(app.handle_key(Key::Char('x'), "nightly"), TuiAction::EditInput));
    app.snapshot_created("nightly", vec![snap(1)]);
    assert_eq!(app.input_mode, InputMode::Normal);
}

#[test]
fn arrows_come_back_after_a_full_turn() {
    let mut app = TuiApp::new(vec![cfg("a"), cfg("b"), cfg("c"), cfg("d")]);
    app.config_selected = Some(1);
    for _ in 0..4 {
        app.navigate_down();
    }
    assert_eq!(app.config_selected, Some(1));
    for _ in 0..6 {
        app.navigate_up();
    }
    assert_eq!(app.config_selected, Some(3));
}
