use ssh_list::app::{App, AppMode};
use ssh_list::connection::SSHConnection;
use ssh_list::layout::{footer_height, footer_text, input_width, is_dark_row, popup_title, width_of};
use ssh_list::order::Column;

fn conn(name: &str, group: &str, user: &str, host: &str) -> SSHConnection {
    SSHConnection {
        server_name: name.to_string(),
        group_name: group.to_string(),
        username: user.to_string(),
        hostname: host.to_string(),
        port: "22".to_string(),
        options: String::new(),
    }
}

#[test]
fn table_shows_the_store_or_what_the_search_found() {
    let mut app = App::new(vec![conn("a", "", "", ""), conn("b", "", "", ""), conn("c", "", "", "")]);
    app.search_index = vec![2, 7, 0];
    for mode in [AppMode::Normal, AppMode::New, AppMode::Move, AppMode::Import] {
        app.app_mode = mode;
        assert_eq!(app.visible_rows(), vec![0, 1, 2]);
    }
    for mode in [AppMode::Search, AppMode::Edit, AppMode::Error, AppMode::RunCommand, AppMode::Settings, AppMode::Sort] {
        app.app_mode = mode;
        assert_eq!(app.visible_rows(), vec![2, 0]);
    }
    let empty = App::new(vec![]);
    assert_eq!(empty.visible_rows(), Vec::<usize>::new());
}

#[test]
fn columns_are_between_15_cells_and_their_limit() {
    let app = App::new(vec![
        conn("short", "a-group-name-of-twenty", "", "h"),
        conn("a-name-that-is-far-longer-than-thirty-cells", "", "", &"h".repeat(45)),
    ]);
    assert_eq!(app.get_constraint(), [30, 22, 15, 45]);
    let wide = App::new(vec![conn("", "", "", &"h".repeat(80))]);
    assert_eq!(wide.get_constraint(), [15, 15, 15, 50]);
    let empty = App::new(vec![]);
    assert_eq!(empty.get_constraint(), [15, 15, 15, 15]);
}

#[test]
fn column_width_counts_bytes() {
    let store = vec![conn("ééééééééé", "", "", "")];
    assert_eq!(width_of(Column::Name, &store), 18);
    assert_eq!(width_of(Column::Port, &store), 15);
}

#[test]
fn rows_alternate_their_background() {
    assert!(is_dark_row(0));
    assert!(!is_dark_row(1));
    assert!(is_dark_row(2));
}

#[test]
fn form_has_a_title_for_new_and_edit() {
    assert_eq!(popup_title(AppMode::New), " Add new connection ");
    assert_eq!(popup_title(AppMode::Edit), " Edit connection ");
    assert_eq!(popup_title(AppMode::Normal), "");
}

#[test]
fn footer_tells_the_keys_of_the_mode() {
    assert_eq!(footer_text(AppMode::Normal, true), "[A] add | [I] import | [Esc] quit");
    assert_eq!(
        footer_text(AppMode::Normal, false),
        "[Enter] connect | [R] run  | [/] search | [I] import | [Esc] quit  \n    [A] add     | [E] edit | [C] copy   | [M] move   | [Del] delete"
    );
    assert_eq!(footer_text(AppMode::New, false), "[Enter] save | [Esc] cancel");
    assert_eq!(footer_text(AppMode::Edit, false), "[Enter] save | [Esc] cancel");
    assert_eq!(footer_text(AppMode::Move, false), "[↓] move down | [↑] move up | [Esc] back");
    assert_eq!(footer_text(AppMode::Import, false), "[I] import | [Esc] back");
    assert_eq!(footer_text(AppMode::Error, false), "[Esc] back");
    assert_eq!(footer_text(AppMode::RunCommand, false), "[Enter] run command | [Esc] back");
    assert_eq!(
        footer_text(AppMode::Search, false),
        "[Enter] connect | [Ctrl+R] run | [Ctrl+E] edit | [Del] delete | [Esc] back"
    );
    assert_eq!(footer_text(AppMode::Settings, false), "");
}

#[test]
fn footer_is_taller_with_two_lines_of_help() {
    assert_eq!(footer_height(AppMode::Normal, false), 4);
    assert_eq!(footer_height(AppMode::Normal, true), 3);
    assert_eq!(footer_height(AppMode::Search, false), 3);
}

#[test]
fn input_keeps_three_cells_for_itself() {
    assert_eq!(input_width(40), 37);
    assert_eq!(input_width(3), 0);
    assert_eq!(input_width(0), 0);
    assert_eq!(input_width(4), 1);
}
