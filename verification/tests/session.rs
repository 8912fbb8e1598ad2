use sshmenu::permissions::{OpOutcome, PermissionFixer};
use sshmenu::profile::HostEntry;
use sshmenu::session::{Action, AppState, EditTarget, Key, Mode, DEBOUNCE_NANOS};
use sshmenu::store::StoreError;

const MS: u64 = 1_000_000;

fn session_of(text: &str) -> AppState {
    AppState::from_config(text)
}

fn press_all(app: &mut AppState, keys: &[Key], start: u64) -> (u64, usize) {
    let mut now = start;
    let mut persists = 0;
    for key in keys {
        now += 100 * MS;
        if let Action::Persist = app.handle_key(*key, now) {
            persists += 1;
        }
    }
    (now, persists)
}

fn typed(s: &str) -> Vec<Key> {
    s.chars().map(Key::Char).collect()
}

fn buffer(app: &AppState) -> &HostEntry {
    &app.edit_state().expect("an edit is pending").host
}

#[test]
fn a_session_starts_browsing_with_the_first_profile_selected() {
    let app = session_of("Host a\nHost b\n");
    assert!(matches!(app.mode(), Mode::Browsing));
    assert!(!app.is_editing());
    assert!(!app.is_finished());
    assert_eq!(app.store().selected(), 0);
    assert_eq!(app.store().len(), 2);
    assert!(app.status_message().is_none());
    assert_eq!(app.last_key(), None);
    assert_eq!(app.last_key_time(), None);
}

#[test]
fn a_session_refuses_profiles_without_a_name() {
    let r = AppState::new(vec![HostEntry::named(String::new())]);
    assert!(matches!(r, Err(StoreError::EmptyName)));
    let ok = AppState::new(vec![HostEntry::named("a".to_string())]).expect("named");
    assert_eq!(ok.store().len(), 1);
}

#[test]
fn new_entry_typed_and_committed_is_appended_and_saved_once() {
    let mut app = session_of("Host a\nHost b\n");
    let mut keys = vec![Key::Char('n')];
    keys.extend(std::iter::repeat(Key::Backspace).take("new-host".len()));
    keys.extend(typed("db1"));
    keys.push(Key::Enter);
    let (_, persists) = press_all(&mut app, &keys, 0);
    assert_eq!(persists, 1);
    assert_eq!(app.store().len(), 3);
    assert_eq!(app.store().get(2), Some(&HostEntry::named("db1".to_string())));
    assert_eq!(app.store().selected(), 2);
    assert!(matches!(app.mode(), Mode::Browsing));
    assert_eq!(app.store().get(0).map(|h| h.name.as_str()), Some("a"));
    assert_eq!(app.store().get(1).map(|h| h.name.as_str()), Some("b"));
}

#[test]
fn a_new_entry_starts_as_new_host() {
    let mut app = session_of("");
    assert!(matches!(app.handle_key(Key::Char('n'), 0), Action::Continue));
    let edit = app.edit_state().expect("editing");
    assert_eq!(edit.host, HostEntry::named("new-host".to_string()));
    assert_eq!(edit.field_index, 0);
    assert_eq!(edit.target, EditTarget::NewEntry);
    assert!(matches!(app.handle_key(Key::Enter, 100 * MS), Action::Persist));
    assert_eq!(app.store().len(), 1);
    assert_eq!(app.store().current().map(|h| h.name.as_str()), Some("new-host"));
}

#[test]
fn a_repeated_key_within_the_window_makes_one_transition() {
    let mut app = session_of("Host a\nHost b\nHost c\n");
    app.handle_key(Key::Down, 1_000 * MS);
    assert_eq!(app.store().selected(), 1);
    assert!(!app.admits(Key::Down, 1_000 * MS + DEBOUNCE_NANOS - 1));
    app.handle_key(Key::Down, 1_000 * MS + DEBOUNCE_NANOS - 1);
    assert_eq!(app.store().selected(), 1);
    assert_eq!(app.last_key_time(), Some(1_000 * MS));
}

#[test]
fn a_repeated_key_after_the_window_makes_two_transitions() {
    let mut app = session_of("Host a\nHost b\nHost c\n");
    app.handle_key(Key::Down, 1_000 * MS);
    assert!(app.admits(Key::Down, 1_000 * MS + DEBOUNCE_NANOS));
    app.handle_key(Key::Down, 1_000 * MS + DEBOUNCE_NANOS);
    assert_eq!(app.store().selected(), 2);
    assert_eq!(app.last_key(), Some(Key::Down));
    assert_eq!(app.last_key_time(), Some(1_000 * MS + DEBOUNCE_NANOS));
}

#[test]
fn the_window_is_fifty_milliseconds() {
    assert_eq!(DEBOUNCE_NANOS, 50 * MS);
}

#[test]
fn a_different_key_within_the_window_is_admitted() {
    let mut app = session_of("Host a\nHost b\nHost c\n");
    app.handle_key(Key::Down, 10);
    app.handle_key(Key::Up, 11);
    assert_eq!(app.store().selected(), 0);
    app.handle_key(Key::Down, 12);
    assert_eq!(app.store().selected(), 1);
}

#[test]
fn a_dropped_key_does_not_become_the_baseline() {
    let mut app = session_of("Host a\nHost b\nHost c\nHost d\n");
    app.handle_key(Key::Down, 0);
    app.handle_key(Key::Down, 40 * MS);
    assert_eq!(app.store().selected(), 1);
    assert_eq!(app.last_key_time(), Some(0));
    app.handle_key(Key::Down, 60 * MS);
    assert_eq!(app.store().selected(), 2);
    assert_eq!(app.last_key_time(), Some(60 * MS));
}

#[test]
fn a_key_from_before_the_last_admission_is_dropped() {
    let mut app = session_of("Host a\nHost b\nHost c\n");
    app.handle_key(Key::Down, 500 * MS);
    app.handle_key(Key::Down, 100 * MS);
    assert_eq!(app.store().selected(), 1);
}

#[test]
fn typing_changes_the_buffer_and_not_the_store() {
    let mut app = session_of("Host a\n    User x\n\nHost b\n\n");
    let before = app.store().serialize();
    let mut keys = vec![Key::Down, Key::Char('e')];
    keys.extend(typed("zz"));
    keys.push(Key::Tab);
    keys.extend(typed("h"));
    keys.push(Key::Backspace);
    keys.push(Key::Up);
    keys.push(Key::Backspace);
    let (_, persists) = press_all(&mut app, &keys, 0);
    assert_eq!(persists, 0);
    assert_eq!(app.store().serialize(), before);
    assert_eq!(buffer(&app).name, "bz");
    assert_eq!(buffer(&app).hostname, Some(String::new()));
    assert_eq!(app.edit_state().map(|e| e.target), Some(EditTarget::Existing(1)));
}

#[test]
fn cancel_leaves_the_store_as_it_was() {
    let text = "Host a\n    User x\n\nHost b\n\n";
    let mut app = session_of(text);
    let mut keys = vec![Key::Char('e')];
    keys.extend(typed("changed"));
    keys.push(Key::Esc);
    let (_, persists) = press_all(&mut app, &keys, 0);
    assert_eq!(persists, 0);
    assert!(matches!(app.mode(), Mode::Browsing));
    assert_eq!(app.store().serialize(), text);
    assert_eq!(app.store().selected(), 0);
}

#[test]
fn committing_an_edit_replaces_the_edited_profile() {
    let mut app = session_of("Host a\nHost b\n    Port 22\nHost c\n");
    let mut keys = vec![Key::Down, Key::Char('e'), Key::Tab, Key::Tab, Key::Tab, Key::Backspace];
    keys.extend(typed("3"));
    keys.push(Key::Enter);
    let (_, persists) = press_all(&mut app, &keys, 0);
    assert_eq!(persists, 1);
    assert_eq!(app.store().len(), 3);
    assert_eq!(app.store().selected(), 1);
    assert_eq!(app.store().serialize(), "Host a\n\nHost b\n    Port 23\n\nHost c\n\n");
}

#[test]
fn a_new_entry_is_appended_even_when_a_profile_is_selected() {
    let mut app = session_of("Host a\nHost b\n");
    let (_, persists) = press_all(&mut app, &[Key::Char('n'), Key::Char('x'), Key::Enter], 0);
    assert_eq!(persists, 1);
    assert_eq!(app.store().serialize(), "Host a\n\nHost b\n\nHost new-hostx\n\n");
    assert_eq!(app.store().selected(), 2);
}

#[test]
fn a_commit_with_an_empty_name_is_refused() {
    let mut app = session_of("Host a\n");
    let mut keys = vec![Key::Char('e'), Key::Backspace];
    keys.push(Key::Enter);
    let (now, persists) = press_all(&mut app, &keys, 0);
    assert_eq!(persists, 0);
    assert!(app.is_editing());
    assert_eq!(app.status_message().map(|s| s.as_str()), Some("Host name must not be empty"));
    assert_eq!(app.store().serialize(), "Host a\n\n");
    let (_, persists) = press_all(&mut app, &[Key::Char('b'), Key::Enter], now);
    assert_eq!(persists, 1);
    assert!(app.status_message().is_none());
    assert_eq!(app.store().serialize(), "Host b\n\n");
}

#[test]
fn the_field_cursor_wraps_in_both_directions() {
    let mut app = session_of("Host a\n");
    let mut now = 0;
    app.handle_key(Key::Char('e'), now);
    assert_eq!(app.edit_state().map(|e| e.field_index), Some(0));
    now += 100 * MS;
    app.handle_key(Key::Up, now);
    assert_eq!(app.edit_state().map(|e| e.field_index), Some(7));
    now += 100 * MS;
    app.handle_key(Key::Down, now);
    assert_eq!(app.edit_state().map(|e| e.field_index), Some(0));
    for expected in 1..=7 {
        now += 100 * MS;
        app.handle_key(Key::Tab, now);
        assert_eq!(app.edit_state().map(|e| e.field_index), Some(expected));
    }
    now += 100 * MS;
    app.handle_key(Key::Tab, now);
    assert_eq!(app.edit_state().map(|e| e.field_index), Some(0));
}

#[test]
fn backspace_on_an_unset_field_makes_it_empty() {
    let mut app = session_of("Host a\n");
    press_all(&mut app, &[Key::Char('e'), Key::Tab, Key::Tab, Key::Backspace], 0);
    assert_eq!(buffer(&app).user, Some(String::new()));
    assert_eq!(buffer(&app).hostname, None);
}

#[test]
fn letters_that_are_commands_while_browsing_are_text_while_editing() {
    let mut app = session_of("Host a\n");
    press_all(&mut app, &[Key::Char('e'), Key::Char('q'), Key::Char('n'), Key::Char('k'), Key::Char('e')], 0);
    assert!(app.is_editing());
    assert_eq!(buffer(&app).name, "aqnke");
}

#[test]
fn edit_needs_a_profile() {
    let mut app = session_of("");
    assert!(matches!(app.handle_key(Key::Char('e'), 0), Action::Continue));
    assert!(matches!(app.mode(), Mode::Browsing));
}

#[test]
fn confirm_launches_the_selected_host_and_ends_the_session() {
    let mut app = session_of("Host a\nHost b\n");
    app.handle_key(Key::Down, 0);
    match app.handle_key(Key::Enter, 100 * MS) {
        Action::Launch(name) => assert_eq!(name, "b"),
        other => panic!("expected a launch, got {:?}", other),
    }
    assert!(app.is_finished());
    assert!(matches!(app.handle_key(Key::Down, 900 * MS), Action::Continue));
    assert_eq!(app.store().selected(), 1);
}

#[test]
fn confirm_in_an_empty_store_does_nothing() {
    let mut app = session_of("");
    assert!(matches!(app.handle_key(Key::Enter, 0), Action::Continue));
    assert!(!app.is_finished());
}

#[test]
fn quit_ends_the_session() {
    let mut app = session_of("Host a\n");
    assert!(matches!(app.handle_key(Key::Char('q'), 0), Action::Quit));
    assert!(app.is_finished());
    assert!(matches!(app.handle_key(Key::Char('n'), 500 * MS), Action::Continue));
    assert!(app.is_finished());
    assert_eq!(app.last_key(), Some(Key::Char('q')));
}

#[test]
fn fix_permissions_needs_an_identity_file() {
    let mut app = session_of("Host a\nHost b\n    IdentityFile C:\\keys\\b\n");
    assert!(matches!(app.handle_key(Key::Char('k'), 0), Action::Continue));
    app.handle_key(Key::Down, 100 * MS);
    match app.handle_key(Key::Char('k'), 200 * MS) {
        Action::FixPermissions(path) => assert_eq!(path, "C:\\keys\\b"),
        other => panic!("expected the permission sequence, got {:?}", other),
    }
    assert!(matches!(app.mode(), Mode::Browsing));
    let mut empty = session_of("");
    assert!(matches!(empty.handle_key(Key::Char('k'), 0), Action::Continue));
}

#[test]
fn the_status_message_is_cleared_by_a_change_of_mode() {
    let mut app = session_of("Host a\n");
    app.set_status("done".to_string());
    assert_eq!(app.status_message().map(|s| s.as_str()), Some("done"));
    app.handle_key(Key::Down, 0);
    assert_eq!(app.status_message().map(|s| s.as_str()), Some("done"));
    app.handle_key(Key::Char('e'), 100 * MS);
    assert!(app.status_message().is_none());
    app.set_status("again".to_string());
    app.handle_key(Key::Esc, 200 * MS);
    assert!(app.status_message().is_none());
}

#[test]
fn other_keys_change_nothing_but_the_last_key() {
    let mut app = session_of("Host a\nHost b\n");
    assert!(matches!(app.handle_key(Key::Other, 7), Action::Continue));
    assert!(matches!(app.handle_key(Key::Tab, 8), Action::Continue));
    assert!(matches!(app.handle_key(Key::Backspace, 9), Action::Continue));
    assert!(matches!(app.handle_key(Key::Char('x'), 10), Action::Continue));
    assert_eq!(app.store().selected(), 0);
    assert!(matches!(app.mode(), Mode::Browsing));
    assert_eq!(app.last_key(), Some(Key::Char('x')));
    assert_eq!(app.last_key_time(), Some(10));
}

#[test]
fn the_result_of_the_permission_sequence_becomes_the_status() {
    let mut app = session_of("Host a\n    IdentityFile /k\n");
    let path = match app.handle_key(Key::Char('k'), 0) {
        Action::FixPermissions(path) => path,
        other => panic!("expected the permission sequence, got {:?}", other),
    };
    let mut fixer = PermissionFixer::mode_bits(path);
    fixer.record(OpOutcome::Exited { code: Some(0), stdout: String::new(), stderr: String::new() });
    app.permissions_fixed(fixer.result().expect("the sequence is over"));
    assert_eq!(
        app.status_message().map(|s| s.as_str()),
        Some("✔ Permissions fixed for /k\n> chmod [\"400\"]\n")
    );
    assert!(matches!(app.mode(), Mode::Browsing));
    let mut failing = PermissionFixer::mode_bits("/k".to_string());
    failing.record(OpOutcome::NotStarted { error: "no chmod".to_string() });
    app.permissions_fixed(failing.result().expect("the sequence is over"));
    assert_eq!(
        app.status_message().map(|s| s.as_str()),
        Some("❌ Failed to run chmod [\"400\"]: no chmod\n")
    );
}

#[test]
fn a_failed_save_is_shown_and_the_edit_stays_applied() {
    let mut app = session_of("Host a\n");
    let (_, persists) = press_all(&mut app, &[Key::Char('e'), Key::Char('b'), Key::Enter], 0);
    assert_eq!(persists, 1);
    app.save_failed("disk full");
    assert_eq!(app.status_message().map(|s| s.as_str()), Some("Could not save: disk full"));
    assert!(matches!(app.mode(), Mode::Browsing));
    assert_eq!(app.store().serialize(), "Host ab\n\n");
}
