use sshmenu::profile::HostEntry;
use sshmenu::session::{AppState, Key};
use sshmenu::store::ProfileStore;
use sshmenu::view::{form_line, label_of, rows_of, view_model, ViewMode};
use sshmenu::profile::Field;

#[test]
fn a_row_shows_the_name_and_the_host_name_in_brackets() {
    let mut h = HostEntry::named("box".to_string());
    assert_eq!(label_of(&h), "box");
    h.hostname = Some("1.2.3.4".to_string());
    assert_eq!(label_of(&h), "box (1.2.3.4)");
}

#[test]
fn the_rows_follow_the_store_and_mark_the_selection() {
    let mut store = ProfileStore::from_config("Host a\n  HostName h\nHost b\nHost c\n");
    store.select(2);
    let rows = rows_of(&store);
    let labels: Vec<&str> = rows.iter().map(|r| r.label.as_str()).collect();
    let marks: Vec<bool> = rows.iter().map(|r| r.selected).collect();
    assert_eq!(labels, vec!["a (h)", "b", "c"]);
    assert_eq!(marks, vec![false, false, true]);
}

#[test]
fn an_empty_store_has_no_rows() {
    let app = AppState::from_config("");
    let vm = view_model(&app);
    assert!(vm.rows.is_empty());
    assert!(matches!(vm.mode, ViewMode::Browsing));
    assert!(vm.status.is_none());
}

#[test]
fn a_form_line_marks_the_line_under_the_cursor() {
    let mut h = HostEntry::named("box".to_string());
    h.user = Some("bob".to_string());
    assert_eq!(form_line(&h, Field::Name, true), "Host: box <");
    assert_eq!(form_line(&h, Field::User, false), "User: bob");
    assert_eq!(form_line(&h, Field::Port, false), "Port: ");
    assert_eq!(form_line(&h, Field::Password, true), "Password:  <");
}

#[test]
fn the_edit_form_has_a_line_for_each_field() {
    let mut app = AppState::from_config("Host a\n  HostName h\n  IdentityFile k\n");
    app.handle_key(Key::Char('e'), 0);
    app.handle_key(Key::Tab, 1);
    let vm = view_model(&app);
    assert_eq!(vm.rows.len(), 1);
    match vm.mode {
        ViewMode::Editing { fields, focused } => {
            assert_eq!(focused, 1);
            let texts: Vec<&str> = fields.iter().map(|f| f.text.as_str()).collect();
            assert_eq!(
                texts,
                vec![
                    "Host: a",
                    "HostName: h <",
                    "User: ",
                    "Port: ",
                    "IdentityFile: k",
                    "ProxyJump: ",
                    "ForwardAgent: ",
                    "Password: ",
                ]
            );
            let marks: Vec<bool> = fields.iter().map(|f| f.focused).collect();
            assert_eq!(marks, vec![false, true, false, false, false, false, false, false]);
        }
        other => panic!("expected the edit form, got {:?}", other),
    }
}

#[test]
fn the_view_carries_the_status_message() {
    let mut app = AppState::from_config("Host a\n");
    app.set_status("✔ Permissions fixed for k\n".to_string());
    let vm = view_model(&app);
    assert_eq!(vm.status.as_deref(), Some("✔ Permissions fixed for k\n"));
    assert_eq!(vm.rows.len(), 1);
    assert!(vm.rows[0].selected);
}

#[test]
fn a_finished_session_still_shows_the_list() {
    let mut app = AppState::from_config("Host a\nHost b\n");
    app.handle_key(Key::Char('q'), 0);
    let vm = view_model(&app);
    assert!(matches!(vm.mode, ViewMode::Browsing));
    assert_eq!(vm.rows.len(), 2);
}
