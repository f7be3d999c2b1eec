use ssh_list::app::{App, AppMode, FieldInputs, Focus};
use ssh_list::connection::SSHConnection;
use ssh_list::handler::{
    client_missing, command_for, field_edited, handle_key_event, import_finished, import_refused,
    set_input, Command, ImportFailure, KeyCode, KeyEvent, Request,
};

fn conn(name: &str, host: &str) -> SSHConnection {
    SSHConnection {
        server_name: name.to_string(),
        group_name: String::new(),
        username: "u".to_string(),
        hostname: host.to_string(),
        port: "22".to_string(),
        options: String::new(),
    }
}

fn three() -> App {
    App::new(vec![conn("one", "a.example"), conn("two", "b.example"), conn("three", "c.example")])
}

fn key(code: KeyCode) -> KeyEvent {
    KeyEvent { code, control: false }
}

fn ctrl(c: char) -> KeyEvent {
    KeyEvent { code: KeyCode::Char(c), control: true }
}

fn press(app: &mut App, code: KeyCode) -> Request {
    handle_key_event(app, key(code))
}

fn names(app: &App) -> Vec<String> {
    app.ssh_connections.iter().map(|c| c.server_name.clone()).collect()
}

#[test]
fn letters_stand_for_commands_in_two_alphabets() {
    for c in ['c', 'C', 'с', 'С'] {
        assert_eq!(command_for(c), Some(Command::Copy));
    }
    for c in ['i', 'I', 'ш', 'Ш'] {
        assert_eq!(command_for(c), Some(Command::Import));
    }
    for c in ['m', 'M', 'ь', 'Ь'] {
        assert_eq!(command_for(c), Some(Command::Move));
    }
    for c in ['e', 'E', 'у', 'У'] {
        assert_eq!(command_for(c), Some(Command::Edit));
    }
    for c in ['a', 'A', 'ф', 'Ф'] {
        assert_eq!(command_for(c), Some(Command::Add));
    }
    for c in ['r', 'R', 'к', 'К'] {
        assert_eq!(command_for(c), Some(Command::Run));
    }
    assert_eq!(command_for('/'), Some(Command::Search));
    for c in ['x', '1', ' ', 'я'] {
        assert_eq!(command_for(c), None);
    }
}

#[test]
fn escape_in_normal_mode_quits() {
    let mut app = three();
    let before = app.clone();
    assert_eq!(press(&mut app, KeyCode::Esc), Request::Quit);
    assert_eq!(app, before);
}

#[test]
fn arrows_and_tabs_walk_the_rows() {
    let mut app = three();
    assert_eq!(press(&mut app, KeyCode::Down), Request::Nothing);
    assert_eq!(app.selected, Some(1));
    assert_eq!(press(&mut app, KeyCode::Tab), Request::Nothing);
    assert_eq!(app.selected, Some(2));
    assert_eq!(press(&mut app, KeyCode::Up), Request::Nothing);
    assert_eq!(app.selected, Some(1));
    assert_eq!(press(&mut app, KeyCode::BackTab), Request::Nothing);
    assert_eq!(app.selected, Some(0));
}

#[test]
fn enter_asks_to_start_the_client_for_a_selected_row() {
    let mut app = three();
    assert_eq!(press(&mut app, KeyCode::Enter), Request::Launch);
    app.selected = None;
    assert_eq!(press(&mut app, KeyCode::Enter), Request::Nothing);
}

#[test]
fn delete_removes_the_row_and_asks_to_save() {
    let mut app = three();
    app.selected = Some(1);
    assert_eq!(press(&mut app, KeyCode::Delete), Request::Save);
    assert_eq!(names(&app), vec!["one", "three"]);
    assert_eq!(app.scroll_length, 2);
    app.selected = None;
    assert_eq!(press(&mut app, KeyCode::Delete), Request::Nothing);
    assert_eq!(names(&app), vec!["one", "three"]);
}

#[test]
fn copy_duplicates_the_row_and_steps_onto_the_copy() {
    let mut app = three();
    assert_eq!(press(&mut app, KeyCode::Char('c')), Request::Save);
    assert_eq!(names(&app), vec!["one", "one", "two", "three"]);
    assert_eq!(app.scroll_length, 4);
    assert_eq!(app.selected, Some(1));
    app.selected = None;
    assert_eq!(press(&mut app, KeyCode::Char('C')), Request::Nothing);
    assert_eq!(app.ssh_connections.len(), 4);
    assert_eq!(app.selected, Some(0));
}

#[test]
fn import_key_opens_the_offer() {
    let mut app = three();
    assert_eq!(press(&mut app, KeyCode::Char('i')), Request::Nothing);
    assert_eq!(app.app_mode, AppMode::Import);
    assert!(app.show_import_popup);
    assert_eq!(press(&mut app, KeyCode::Char('x')), Request::Nothing);
    assert_eq!(press(&mut app, KeyCode::Char('I')), Request::Import);
    assert_eq!(app.app_mode, AppMode::Import);
    assert_eq!(press(&mut app, KeyCode::Esc), Request::Nothing);
    assert_eq!(app.app_mode, AppMode::Normal);
    assert!(!app.show_import_popup);
}

#[test]
fn move_mode_shifts_the_selected_row() {
    let mut app = three();
    assert_eq!(press(&mut app, KeyCode::Char('m')), Request::Nothing);
    assert_eq!(app.app_mode, AppMode::Move);
    assert_eq!(press(&mut app, KeyCode::Down), Request::Save);
    assert_eq!(names(&app), vec!["two", "one", "three"]);
    assert_eq!(press(&mut app, KeyCode::Up), Request::Save);
    assert_eq!(names(&app), vec!["one", "two", "three"]);
    assert_eq!(press(&mut app, KeyCode::Up), Request::Save);
    assert_eq!(names(&app), vec!["one", "two", "three"]);
    assert_eq!(press(&mut app, KeyCode::Enter), Request::Nothing);
    assert_eq!(press(&mut app, KeyCode::Esc), Request::Nothing);
    assert_eq!(app.app_mode, AppMode::Normal);
}

#[test]
fn move_mode_needs_a_selected_row() {
    let mut app = three();
    app.selected = None;
    assert_eq!(press(&mut app, KeyCode::Char('m')), Request::Nothing);
    assert_eq!(app.app_mode, AppMode::Normal);
}

#[test]
fn add_key_opens_an_empty_form() {
    let mut app = three();
    app.field_inputs.server_name_input = "stale".to_string();
    assert_eq!(press(&mut app, KeyCode::Char('a')), Request::Nothing);
    assert_eq!(app.app_mode, AppMode::New);
    assert!(app.show_edit_popup);
    assert_eq!(app.focus, Focus::ServerNameField);
    assert_eq!(app.field_inputs, FieldInputs::blank());
}

#[test]
fn new_form_takes_keys_and_saves_on_enter() {
    let mut app = three();
    press(&mut app, KeyCode::Char('a'));
    assert_eq!(press(&mut app, KeyCode::Char('x')), Request::Edit(Focus::ServerNameField));
    set_input(&mut app, Focus::ServerNameField, "four".to_string());
    field_edited(&mut app, Focus::ServerNameField);
    assert_eq!(press(&mut app, KeyCode::Down), Request::Nothing);
    assert_eq!(app.focus, Focus::GroupNameField);
    assert_eq!(press(&mut app, KeyCode::Tab), Request::Nothing);
    assert_eq!(app.focus, Focus::UsernameField);
    assert_eq!(press(&mut app, KeyCode::Up), Request::Nothing);
    assert_eq!(press(&mut app, KeyCode::BackTab), Request::Nothing);
    assert_eq!(app.focus, Focus::ServerNameField);
    assert_eq!(press(&mut app, KeyCode::Delete), Request::Edit(Focus::ServerNameField));
    assert_eq!(press(&mut app, KeyCode::Enter), Request::Save);
    assert_eq!(names(&app), vec!["one", "two", "three", "four"]);
    assert_eq!(app.app_mode, AppMode::Normal);
    assert!(!app.show_edit_popup);
    assert_eq!(app.scroll_length, 4);
    assert_eq!(app.selected, Some(4));
}

#[test]
fn new_form_is_left_with_escape() {
    let mut app = three();
    press(&mut app, KeyCode::Char('a'));
    assert_eq!(press(&mut app, KeyCode::Esc), Request::Nothing);
    assert_eq!(app.app_mode, AppMode::Normal);
    assert!(!app.show_edit_popup);
    assert_eq!(app.ssh_connections.len(), 3);
}

#[test]
fn edit_key_opens_the_form_on_the_selected_record() {
    let mut app = three();
    app.selected = Some(2);
    assert_eq!(press(&mut app, KeyCode::Char('e')), Request::Nothing);
    assert_eq!(app.app_mode, AppMode::Edit);
    assert_eq!(app.last_app_mode, AppMode::Normal);
    assert!(app.show_edit_popup);
    assert_eq!(app.field_inputs.server_name_input, "three");
    set_input(&mut app, Focus::HostnameField, "new.example".to_string());
    assert_eq!(press(&mut app, KeyCode::Enter), Request::Save);
    assert_eq!(app.ssh_connections[2].hostname, "new.example");
    assert_eq!(app.app_mode, AppMode::Normal);
    assert!(!app.show_edit_popup);
}

#[test]
fn edit_form_is_left_with_escape() {
    let mut app = three();
    press(&mut app, KeyCode::Char('e'));
    set_input(&mut app, Focus::ServerNameField, "changed".to_string());
    assert_eq!(press(&mut app, KeyCode::Esc), Request::Nothing);
    assert_eq!(app.app_mode, AppMode::Normal);
    assert_eq!(names(&app), vec!["one", "two", "three"]);
}

#[test]
fn edit_needs_a_selected_row() {
    let mut app = three();
    app.selected = None;
    assert_eq!(press(&mut app, KeyCode::Char('e')), Request::Nothing);
    assert_eq!(app.app_mode, AppMode::Normal);
}

#[test]
fn run_key_asks_for_a_command() {
    let mut app = three();
    assert_eq!(press(&mut app, KeyCode::Char('r')), Request::Nothing);
    assert_eq!(app.app_mode, AppMode::RunCommand);
    assert_eq!(app.last_app_mode, AppMode::Normal);
    assert!(app.show_run_popup);
    app.focus = Focus::RunField;
    assert_eq!(press(&mut app, KeyCode::Char('u')), Request::Edit(Focus::RunField));
    set_input(&mut app, Focus::RunField, "uptime".to_string());
    assert_eq!(press(&mut app, KeyCode::Enter), Request::Launch);
    assert_eq!(press(&mut app, KeyCode::Esc), Request::Nothing);
    assert_eq!(app.app_mode, AppMode::Normal);
    assert_eq!(app.focus, Focus::ServerNameField);
    assert_eq!(app.run_input, "");
    assert!(!app.show_run_popup);
}

#[test]
fn command_input_takes_keys_only_in_focus() {
    let mut app = three();
    press(&mut app, KeyCode::Char('r'));
    assert_eq!(app.focus, Focus::ServerNameField);
    assert_eq!(press(&mut app, KeyCode::Char('u')), Request::Nothing);
}

#[test]
fn slash_starts_the_search() {
    let mut app = three();
    assert_eq!(press(&mut app, KeyCode::Char('/')), Request::Nothing);
    assert_eq!(app.app_mode, AppMode::Search);
    assert_eq!(app.focus, Focus::SearchField);
    assert_eq!(app.search_index, vec![0, 1, 2]);
    assert_eq!(press(&mut app, KeyCode::Char('t')), Request::Edit(Focus::SearchField));
    set_input(&mut app, Focus::SearchField, "t".to_string());
    field_edited(&mut app, Focus::SearchField);
    assert_eq!(app.search_index, vec![1, 2]);
    assert_eq!(app.scroll_length, 2);
    assert_eq!(press(&mut app, KeyCode::Char('e')), Request::Edit(Focus::SearchField));
    assert_eq!(press(&mut app, KeyCode::Enter), Request::Launch);
    assert_eq!(press(&mut app, KeyCode::Esc), Request::Nothing);
    assert_eq!(app.app_mode, AppMode::Normal);
    assert_eq!(app.search_input, "");
    assert_eq!(app.search_index, vec![0, 1, 2]);
}

#[test]
fn search_mode_edits_the_found_record() {
    let mut app = three();
    press(&mut app, KeyCode::Char('/'));
    set_input(&mut app, Focus::SearchField, "three".to_string());
    field_edited(&mut app, Focus::SearchField);
    assert_eq!(app.search_index, vec![2]);
    assert_eq!(handle_key_event(&mut app, ctrl('e')), Request::Nothing);
    assert_eq!(app.app_mode, AppMode::Edit);
    assert_eq!(app.last_app_mode, AppMode::Search);
    assert_eq!(app.field_inputs.server_name_input, "three");
    set_input(&mut app, Focus::ServerNameField, "third".to_string());
    assert_eq!(press(&mut app, KeyCode::Enter), Request::Save);
    assert_eq!(names(&app), vec!["one", "two", "third"]);
    assert_eq!(app.app_mode, AppMode::Search);
    assert_eq!(app.focus, Focus::SearchField);
    assert_eq!(app.search_index, Vec::<usize>::new());
}

#[test]
fn search_mode_asks_for_a_command_and_comes_back() {
    let mut app = three();
    press(&mut app, KeyCode::Char('/'));
    assert_eq!(handle_key_event(&mut app, ctrl('r')), Request::Nothing);
    assert_eq!(app.app_mode, AppMode::RunCommand);
    assert_eq!(app.last_app_mode, AppMode::Search);
    assert_eq!(press(&mut app, KeyCode::Esc), Request::Nothing);
    assert_eq!(app.app_mode, AppMode::Search);
    assert_eq!(app.focus, Focus::SearchField);
}

#[test]
fn search_mode_deletes_the_found_record() {
    let mut app = three();
    press(&mut app, KeyCode::Char('/'));
    set_input(&mut app, Focus::SearchField, "two".to_string());
    field_edited(&mut app, Focus::SearchField);
    assert_eq!(press(&mut app, KeyCode::Delete), Request::Save);
    assert_eq!(names(&app), vec!["one", "three"]);
    assert_eq!(app.search_index, Vec::<usize>::new());
    assert_eq!(app.scroll_length, 2);
    assert_eq!(press(&mut app, KeyCode::Delete), Request::Nothing);
}

#[test]
fn search_mode_walks_the_rows() {
    let mut app = three();
    press(&mut app, KeyCode::Char('/'));
    assert_eq!(press(&mut app, KeyCode::Down), Request::Nothing);
    assert_eq!(app.selected, Some(1));
    assert_eq!(press(&mut app, KeyCode::Up), Request::Nothing);
    assert_eq!(app.selected, Some(0));
}

#[test]
fn missing_client_is_shown_as_an_error() {
    let mut app = three();
    app.show_import_popup = true;
    client_missing(&mut app);
    assert_eq!(app.app_mode, AppMode::Error);
    assert!(app.show_error_popup);
    assert!(!app.show_import_popup);
    assert_eq!(app.error_text, "Failed to execute ssh command.\nIs the OpenSSH-client installed?");
    assert_eq!(app.search_index, vec![0, 1, 2]);
    assert_eq!(press(&mut app, KeyCode::Enter), Request::Nothing);
    assert_eq!(press(&mut app, KeyCode::Esc), Request::Nothing);
    assert_eq!(app.app_mode, AppMode::Normal);
    assert!(!app.show_error_popup);
}

#[test]
fn missing_client_when_a_command_was_to_run() {
    let mut app = three();
    press(&mut app, KeyCode::Char('/'));
    handle_key_event(&mut app, ctrl('R'));
    client_missing(&mut app);
    assert_eq!(app.app_mode, AppMode::Error);
    assert!(!app.show_run_popup);
    assert!(app.show_error_popup);
    assert_eq!(press(&mut app, KeyCode::Esc), Request::Nothing);
    assert_eq!(app.app_mode, AppMode::Search);
    assert_eq!(app.focus, Focus::SearchField);
}

#[test]
fn missing_client_in_search_mode() {
    let mut app = three();
    press(&mut app, KeyCode::Char('/'));
    client_missing(&mut app);
    assert_eq!(app.app_mode, AppMode::Error);
    assert!(app.show_error_popup);
}

#[test]
fn refused_import_tells_why() {
    let mut app = three();
    press(&mut app, KeyCode::Char('i'));
    import_refused(&mut app, ImportFailure::ConfigBlank);
    assert_eq!(app.app_mode, AppMode::Error);
    assert_eq!(app.error_text, "The config is empty or does not exist.");
    assert!(!app.show_import_popup);
    assert!(app.show_error_popup);
    let mut app = three();
    press(&mut app, KeyCode::Char('i'));
    import_refused(&mut app, ImportFailure::ClientMissing);
    assert_eq!(app.error_text, "Failed to import ssh config.\nIs the OpenSSH-client installed?");
    assert_eq!(press(&mut app, KeyCode::Esc), Request::Nothing);
    assert_eq!(app.app_mode, AppMode::Normal);
}

#[test]
fn finished_import_goes_back_to_the_table() {
    let mut app = three();
    press(&mut app, KeyCode::Char('i'));
    app.ssh_connections.push(conn("imported", "i.example"));
    import_finished(&mut app, 4);
    assert_eq!(app.app_mode, AppMode::Normal);
    assert!(!app.show_import_popup);
    assert_eq!(app.selected, Some(4));
    assert_eq!(app.scroll_position, 4);
    assert_eq!(app.scroll_length, 4);
}

#[test]
fn modes_without_keys_ignore_every_key() {
    for mode in [AppMode::Settings, AppMode::Sort] {
        let mut app = three();
        app.app_mode = mode;
        let before = app.clone();
        for code in [KeyCode::Esc, KeyCode::Enter, KeyCode::Char('a'), KeyCode::Other] {
            assert_eq!(press(&mut app, code), Request::Nothing);
        }
        assert_eq!(app, before);
    }
}

#[test]
fn inputs_are_set_by_focus() {
    let mut app = three();
    set_input(&mut app, Focus::ServerNameField, "a".to_string());
    set_input(&mut app, Focus::GroupNameField, "b".to_string());
    set_input(&mut app, Focus::UsernameField, "c".to_string());
    set_input(&mut app, Focus::HostnameField, "d".to_string());
    set_input(&mut app, Focus::PortField, "e".to_string());
    set_input(&mut app, Focus::OptionsField, "f".to_string());
    set_input(&mut app, Focus::RunField, "g".to_string());
    set_input(&mut app, Focus::SearchField, "h".to_string());
    assert_eq!(app.field_inputs.server_name_input, "a");
    assert_eq!(app.field_inputs.group_name_input, "b");
    assert_eq!(app.field_inputs.username_input, "c");
    assert_eq!(app.field_inputs.hostname_input, "d");
    assert_eq!(app.field_inputs.port_input, "e");
    assert_eq!(app.field_inputs.options_input, "f");
    assert_eq!(app.run_input, "g");
    assert_eq!(app.search_input, "h");
}

#[test]
fn edit_outside_search_mode_changes_nothing_else() {
    let mut app = three();
    let before = app.clone();
    field_edited(&mut app, Focus::SearchField);
    field_edited(&mut app, Focus::PortField);
    assert_eq!(app, before);
}
