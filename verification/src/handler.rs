//! What a key press does to the state, and what it asks of the caller.

use vstd::prelude::*;
use crate::app::{
    after_add, after_copy, after_delete, after_move_down, after_move_up, after_search,
    after_update, at_row, focus_after, focus_before, row_above, row_below,
    selected_stored, stored_row, with_blank_fields, with_selected_fields, App, AppMode, AppView,
    Focus,
};

verus! {

/// The keys that the manager tells apart.
#[derive(Clone, Copy, Debug, PartialEq, Eq, Structural)]
pub enum KeyCode {
    Esc,
    Down,
    Up,
    Tab,
    BackTab,
    Enter,
    Delete,
    Char(char),
    Other,
}

/// A key press: the key, and whether Control was held.
#[derive(Clone, Copy, Debug, PartialEq, Eq, Structural)]
pub struct KeyEvent {
    pub code: KeyCode,
    pub control: bool,
}

/// What a letter key stands for. Each command has a Latin key and the
/// Cyrillic key in the same place of the keyboard, in both cases.
#[derive(Clone, Copy, Debug, PartialEq, Eq, Structural)]
pub enum Command {
    Copy,
    Import,
    Move,
    Edit,
    Add,
    Run,
    Search,
}

/// What the caller has to do after a key press.
#[derive(Clone, Copy, Debug, PartialEq, Eq, Structural)]
pub enum Request {
    /// Nothing but to draw again.
    Nothing,
    /// Leave the terminal and stop.
    Quit,
    /// Write the store to disk.
    Save,
    /// Hand the key to the input in this focus, put the new text into the
    /// state and report the edit.
    Edit(Focus),
    /// Start the client for the selected record if the client is installed,
    /// and report a missing client.
    Launch,
    /// Run the import and report how it ended.
    Import,
}

/// Why an import did not run.
#[derive(Clone, Copy, Debug, PartialEq, Eq, Structural)]
pub enum ImportFailure {
    /// The client's own configuration file is missing or blank.
    ConfigBlank,
    /// The client is not installed, or printed no defaults.
    ClientMissing,
}

/// The command that the letter `c` stands for.
pub open spec fn command_of(c: char) -> Option<Command> {
    if c == 'c' || c == 'C' || c == '\u{441}' || c == '\u{421}' {
        Some(Command::Copy)
    } else if c == 'i' || c == 'I' || c == '\u{448}' || c == '\u{428}' {
        Some(Command::Import)
    } else if c == 'm' || c == 'M' || c == '\u{44c}' || c == '\u{42c}' {
        Some(Command::Move)
    } else if c == 'e' || c == 'E' || c == '\u{443}' || c == '\u{423}' {
        Some(Command::Edit)
    } else if c == 'a' || c == 'A' || c == '\u{444}' || c == '\u{424}' {
        Some(Command::Add)
    } else if c == 'r' || c == 'R' || c == '\u{43a}' || c == '\u{41a}' {
        Some(Command::Run)
    } else if c == '/' {
        Some(Command::Search)
    } else {
        None
    }
}

/// The command that a key stands for, if it is a letter with one.
pub open spec fn command_key(code: KeyCode) -> Option<Command> {
    match code {
        KeyCode::Char(c) => command_of(c),
        _ => None,
    }
}

/// The message shown where the client could not be started.
pub open spec fn launch_failure_text() -> Seq<char> {
    "Failed to execute ssh command.\nIs the OpenSSH-client installed?"@
}

/// The message shown where an import did not run.
pub open spec fn import_failure_text(reason: ImportFailure) -> Seq<char> {
    match reason {
        ImportFailure::ConfigBlank => "The config is empty or does not exist."@,
        ImportFailure::ClientMissing =>
            "Failed to import ssh config.\nIs the OpenSSH-client installed?"@,
    }
}

/// The state with the scrollbar spanning the whole store.
pub open spec fn spanning_store(a: AppView) -> AppView {
    AppView { scroll_length: a.connections.len() as usize, ..a }
}

/// The state showing `text` as an error.
pub open spec fn showing_error(a: AppView, text: Seq<char>) -> AppView {
    AppView { error_text: text, show_error_popup: true, app_mode: AppMode::Error, ..a }
}

/// The state back in the mode that a form or a message was opened from.
pub open spec fn back_to_last_mode(a: AppView) -> AppView {
    match a.last_app_mode {
        AppMode::Normal => AppView { app_mode: AppMode::Normal, ..a },
        AppMode::Search => AppView { app_mode: AppMode::Search, focus: Focus::SearchField, ..a },
        _ => a,
    }
}

/// The state with the edit form opened on the record that the selection
/// stands for; `from` is the mode to come back to.
pub open spec fn editing(a: AppView, from: AppMode) -> AppView {
    let b = after_search(a);
    let c = with_selected_fields(
        AppView {
            last_app_mode: from,
            app_mode: AppMode::Edit,
            focus: Focus::ServerNameField,
            ..b
        },
    );
    AppView { show_edit_popup: true, ..c }
}

/// The state with the input for a command opened; `from` is the mode to come
/// back to.
pub open spec fn asking_command(a: AppView, from: AppMode) -> AppView {
    AppView {
        app_mode: AppMode::RunCommand,
        last_app_mode: from,
        show_run_popup: true,
        ..with_blank_fields(a)
    }
}

/// Whether `focus` is one of the six inputs of the edit form.
pub open spec fn in_form(focus: Focus) -> bool {
    focus != Focus::RunField && focus != Focus::SearchField
}

/// What a key does in normal mode.
pub open spec fn step_normal(a: AppView, key: KeyEvent) -> (AppView, Request) {
    match key.code {
        KeyCode::Esc => (a, Request::Quit),
        KeyCode::Down | KeyCode::Tab => (at_row(a, row_below(a)), Request::Nothing),
        KeyCode::Up | KeyCode::BackTab => (at_row(a, row_above(a)), Request::Nothing),
        KeyCode::Enter => if a.selected is Some {
            (a, Request::Launch)
        } else {
            (a, Request::Nothing)
        },
        KeyCode::Delete => (
            spanning_store(after_delete(a)),
            if stored_row(a) is Some {
                Request::Save
            } else {
                Request::Nothing
            },
        ),
        _ => match command_key(key.code) {
            Some(Command::Copy) => {
                let b = spanning_store(after_copy(a));
                (
                    at_row(b, row_below(b)),
                    if selected_stored(a) is Some {
                        Request::Save
                    } else {
                        Request::Nothing
                    },
                )
            },
            Some(Command::Import) => (
                AppView { show_import_popup: true, app_mode: AppMode::Import, ..a },
                Request::Nothing,
            ),
            Some(Command::Move) => if a.selected is Some {
                (AppView { app_mode: AppMode::Move, ..a }, Request::Nothing)
            } else {
                (a, Request::Nothing)
            },
            Some(Command::Edit) => if a.selected is Some {
                (editing(a, AppMode::Normal), Request::Nothing)
            } else {
                (a, Request::Nothing)
            },
            Some(Command::Add) => (
                AppView {
                    app_mode: AppMode::New,
                    show_edit_popup: true,
                    ..with_blank_fields(a)
                },
                Request::Nothing,
            ),
            Some(Command::Run) => if a.selected is Some {
                (asking_command(after_search(a), AppMode::Normal), Request::Nothing)
            } else {
                (a, Request::Nothing)
            },
            Some(Command::Search) => (
                after_search(
                    AppView { app_mode: AppMode::Search, focus: Focus::SearchField, ..a },
                ),
                Request::Nothing,
            ),
            None => (a, Request::Nothing),
        },
    }
}

/// What a key does in a form, apart from Enter and Esc: the arrows and the
/// tabulator move the focus, any other key goes to the input in focus.
pub open spec fn step_form(a: AppView, key: KeyEvent) -> (AppView, Request) {
    match key.code {
        KeyCode::Down | KeyCode::Tab => (
            AppView { focus: focus_after(a.focus), ..a },
            Request::Nothing,
        ),
        KeyCode::Up | KeyCode::BackTab => (
            AppView { focus: focus_before(a.focus), ..a },
            Request::Nothing,
        ),
        _ => if in_form(a.focus) {
            (a, Request::Edit(a.focus))
        } else {
            (a, Request::Nothing)
        },
    }
}

/// What a key does in the form for a new connection.
pub open spec fn step_new(a: AppView, key: KeyEvent) -> (AppView, Request) {
    match key.code {
        KeyCode::Enter => (
            spanning_store(
                AppView { app_mode: AppMode::Normal, show_edit_popup: false, ..after_add(a) },
            ),
            Request::Save,
        ),
        KeyCode::Esc => (
            AppView { show_edit_popup: false, app_mode: AppMode::Normal, ..a },
            Request::Nothing,
        ),
        _ => step_form(a, key),
    }
}

/// What a key does in the form that edits a connection.
pub open spec fn step_edit(a: AppView, key: KeyEvent) -> (AppView, Request) {
    match key.code {
        KeyCode::Enter => {
            let b = back_to_last_mode(after_update(a));
            let c = if a.last_app_mode == AppMode::Search {
                after_search(b)
            } else {
                b
            };
            (AppView { show_edit_popup: false, ..c }, Request::Save)
        },
        KeyCode::Esc => (
            back_to_last_mode(AppView { show_edit_popup: false, ..a }),
            Request::Nothing,
        ),
        _ => step_form(a, key),
    }
}

/// What a key does while a row is being moved.
pub open spec fn step_move(a: AppView, key: KeyEvent) -> (AppView, Request) {
    match key.code {
        KeyCode::Esc => (
            AppView { show_edit_popup: false, app_mode: AppMode::Normal, ..a },
            Request::Nothing,
        ),
        KeyCode::Down => (after_move_down(a), Request::Save),
        KeyCode::Up => (after_move_up(a), Request::Save),
        _ => (a, Request::Nothing),
    }
}

/// What a key does while the import is offered.
pub open spec fn step_import(a: AppView, key: KeyEvent) -> (AppView, Request) {
    match key.code {
        KeyCode::Esc => (
            AppView { show_import_popup: false, app_mode: AppMode::Normal, ..a },
            Request::Nothing,
        ),
        _ => if command_key(key.code) == Some(Command::Import) {
            (a, Request::Import)
        } else {
            (a, Request::Nothing)
        },
    }
}

/// What a key does while an error is shown.
pub open spec fn step_error(a: AppView, key: KeyEvent) -> (AppView, Request) {
    match key.code {
        KeyCode::Esc => (
            back_to_last_mode(AppView { show_error_popup: false, ..a }),
            Request::Nothing,
        ),
        _ => (a, Request::Nothing),
    }
}

/// What a key does while a command is asked for.
pub open spec fn step_run(a: AppView, key: KeyEvent) -> (AppView, Request) {
    match key.code {
        KeyCode::Esc => {
            let b = AppView { show_run_popup: false, ..a };
            let c = match a.last_app_mode {
                AppMode::Normal => AppView {
                    app_mode: AppMode::Normal,
                    focus: Focus::ServerNameField,
                    ..b
                },
                AppMode::Search => AppView {
                    app_mode: AppMode::Search,
                    focus: Focus::SearchField,
                    ..b
                },
                _ => b,
            };
            (AppView { run_input: Seq::empty(), ..c }, Request::Nothing)
        },
        KeyCode::Enter => (a, Request::Launch),
        _ => if a.focus == Focus::RunField {
            (a, Request::Edit(Focus::RunField))
        } else {
            (a, Request::Nothing)
        },
    }
}

/// What a key does in search mode.
pub open spec fn step_search(a: AppView, key: KeyEvent) -> (AppView, Request) {
    match key.code {
        KeyCode::Esc => (
            after_search(
                AppView { app_mode: AppMode::Normal, search_input: Seq::empty(), ..a },
            ),
            Request::Nothing,
        ),
        KeyCode::Down | KeyCode::Tab => (at_row(a, row_below(a)), Request::Nothing),
        KeyCode::Up | KeyCode::BackTab => (at_row(a, row_above(a)), Request::Nothing),
        KeyCode::Enter => if a.selected is Some {
            (a, Request::Launch)
        } else {
            (a, Request::Nothing)
        },
        KeyCode::Delete => (
            spanning_store(after_search(after_delete(a))),
            if stored_row(a) is Some {
                Request::Save
            } else {
                Request::Nothing
            },
        ),
        _ => if key.control && command_key(key.code) == Some(Command::Edit) {
            if a.selected is Some {
                (editing(a, AppMode::Search), Request::Nothing)
            } else {
                (a, Request::Nothing)
            }
        } else if key.control && command_key(key.code) == Some(Command::Run) {
            if a.selected is Some {
                (asking_command(a, AppMode::Search), Request::Nothing)
            } else {
                (a, Request::Nothing)
            }
        } else if a.focus == Focus::SearchField {
            (a, Request::Edit(Focus::SearchField))
        } else {
            (a, Request::Nothing)
        },
    }
}

/// What a key does: the state after it and the request to the caller. In
/// the modes that bind no keys nothing happens.
pub open spec fn step(a: AppView, key: KeyEvent) -> (AppView, Request) {
    match a.app_mode {
        AppMode::Normal => step_normal(a, key),
        AppMode::New => step_new(a, key),
        AppMode::Edit => step_edit(a, key),
        AppMode::Move => step_move(a, key),
        AppMode::Import => step_import(a, key),
        AppMode::Error => step_error(a, key),
        AppMode::RunCommand => step_run(a, key),
        AppMode::Search => step_search(a, key),
        AppMode::Settings | AppMode::Sort => (a, Request::Nothing),
    }
}

/// The state after the client turned out to be missing when it was to be
/// started.
pub open spec fn after_client_missing(a: AppView) -> AppView {
    match a.app_mode {
        AppMode::Normal => showing_error(
            AppView { show_import_popup: false, ..after_search(a) },
            launch_failure_text(),
        ),
        AppMode::Search => showing_error(
            AppView { show_import_popup: false, ..a },
            launch_failure_text(),
        ),
        AppMode::RunCommand => showing_error(
            AppView { show_run_popup: false, ..a },
            launch_failure_text(),
        ),
        _ => a,
    }
}

/// The state after an import did not run.
pub open spec fn after_import_refused(a: AppView, reason: ImportFailure) -> AppView {
    showing_error(
        AppView { show_import_popup: false, ..after_search(a) },
        import_failure_text(reason),
    )
}

/// The state after an import ran: the selection stands at `selected`, the
/// offer is closed, and the scrollbar spans the store.
pub open spec fn after_import(a: AppView, selected: usize) -> AppView {
    spanning_store(
        AppView {
            show_import_popup: false,
            app_mode: AppMode::Normal,
            ..at_row(a, selected)
        },
    )
}

/// The state after the input in `focus` was edited: a change of the search
/// text in search mode runs the search and lets the scrollbar span what it
/// found.
pub open spec fn after_edit(a: AppView, focus: Focus) -> AppView {
    if a.app_mode == AppMode::Search && focus == Focus::SearchField {
        let b = after_search(a);
        AppView { scroll_length: b.search_index.len() as usize, ..b }
    } else {
        a
    }
}

/// The state with `text` in the input of `focus`.
pub open spec fn with_input(a: AppView, focus: Focus, text: Seq<char>) -> AppView {
    match focus {
        Focus::ServerNameField => AppView {
            fields: crate::connection::ConnectionView { server_name: text, ..a.fields },
            ..a
        },
        Focus::GroupNameField => AppView {
            fields: crate::connection::ConnectionView { group_name: text, ..a.fields },
            ..a
        },
        Focus::UsernameField => AppView {
            fields: crate::connection::ConnectionView { username: text, ..a.fields },
            ..a
        },
        Focus::HostnameField => AppView {
            fields: crate::connection::ConnectionView { hostname: text, ..a.fields },
            ..a
        },
        Focus::PortField => AppView {
            fields: crate::connection::ConnectionView { port: text, ..a.fields },
            ..a
        },
        Focus::OptionsField => AppView {
            fields: crate::connection::ConnectionView { options: text, ..a.fields },
            ..a
        },
        Focus::RunField => AppView { run_input: text, ..a },
        Focus::SearchField => AppView { search_input: text, ..a },
    }
}

/// The command that the letter `c` stands for.
pub fn command_for(c: char) -> (command: Option<Command>)
    ensures
        command == command_of(c),
{
    if c == 'c' || c == 'C' || c == '\u{441}' || c == '\u{421}' {
        Some(Command::Copy)
    } else if c == 'i' || c == 'I' || c == '\u{448}' || c == '\u{428}' {
        Some(Command::Import)
    } else if c == 'm' || c == 'M' || c == '\u{44c}' || c == '\u{42c}' {
        Some(Command::Move)
    } else if c == 'e' || c == 'E' || c == '\u{443}' || c == '\u{423}' {
        Some(Command::Edit)
    } else if c == 'a' || c == 'A' || c == '\u{444}' || c == '\u{424}' {
        Some(Command::Add)
    } else if c == 'r' || c == 'R' || c == '\u{43a}' || c == '\u{41a}' {
        Some(Command::Run)
    } else if c == '/' {
        Some(Command::Search)
    } else {
        None
    }
}

/// The command that `code` stands for.
fn command_on(code: KeyCode) -> (command: Option<Command>)
    ensures
        command == command_key(code),
{
    match code {
        KeyCode::Char(c) => command_for(c),
        _ => None,
    }
}

/// Lets the scrollbar span the whole store.
fn span_store(app: &mut App)
    ensures
        final(app)@ == spanning_store(old(app)@),
{
    app.scroll_length = app.ssh_connections.len();
}

/// Shows `text` as an error.
fn show_error(app: &mut App, text: &str)
    ensures
        final(app)@ == showing_error(old(app)@, text@),
{
    app.error_text = String::from_str(text);
    app.show_error_popup = true;
    app.app_mode = AppMode::Error;
}

/// Goes back to the mode that a form or a message was opened from.
fn back_to_last(app: &mut App)
    ensures
        final(app)@ == back_to_last_mode(old(app)@),
{
    match app.last_app_mode {
        AppMode::Normal => {
            app.app_mode = AppMode::Normal;
        },
        AppMode::Search => {
            app.app_mode = AppMode::Search;
            app.focus = Focus::SearchField;
        },
        _ => {},
    }
}

/// Opens the edit form on the record that the selection stands for.
fn open_editor(app: &mut App, from: AppMode)
    ensures
        final(app)@ == editing(old(app)@, from),
{
    app.search();
    app.last_app_mode = from;
    app.app_mode = AppMode::Edit;
    app.focus = Focus::ServerNameField;
    app.selected_config_to_fields();
    app.show_edit_popup = true;
}

/// Opens the input for a command.
fn ask_command(app: &mut App, from: AppMode)
    ensures
        final(app)@ == asking_command(old(app)@, from),
{
    app.app_mode = AppMode::RunCommand;
    app.last_app_mode = from;
    app.reset_fields();
    app.show_run_popup = true;
}

/// Handles a key in normal mode.
fn handle_normal(app: &mut App, key: KeyEvent) -> (request: Request)
    ensures
        (final(app)@, request) == step_normal(old(app)@, key),
{
    match key.code {
        KeyCode::Esc => Request::Quit,
        KeyCode::Down | KeyCode::Tab => {
            app.next_row();
            Request::Nothing
        },
        KeyCode::Up | KeyCode::BackTab => {
            app.previous_row();
            Request::Nothing
        },
        KeyCode::Enter => {
            if app.selected.is_some() {
                Request::Launch
            } else {
                Request::Nothing
            }
        },
        KeyCode::Delete => {
            let stored = app.get_row_index();
            let deletes = match stored {
                Some(i) => i < app.ssh_connections.len(),
                None => false,
            };
            app.delete_connection();
            span_store(app);
            if deletes {
                Request::Save
            } else {
                Request::Nothing
            }
        },
        _ => match command_on(key.code) {
            Some(Command::Copy) => {
                let copies = match app.selected {
                    Some(i) => i < app.ssh_connections.len(),
                    None => false,
                };
                app.copy_connection();
                span_store(app);
                app.next_row();
                if copies {
                    Request::Save
                } else {
                    Request::Nothing
                }
            },
            Some(Command::Import) => {
                app.show_import_popup = true;
                app.app_mode = AppMode::Import;
                Request::Nothing
            },
            Some(Command::Move) => {
                if app.selected.is_some() {
                    app.app_mode = AppMode::Move;
                }
                Request::Nothing
            },
            Some(Command::Edit) => {
                if app.selected.is_some() {
                    open_editor(app, AppMode::Normal);
                }
                Request::Nothing
            },
            Some(Command::Add) => {
                app.app_mode = AppMode::New;
                app.reset_fields();
                app.show_edit_popup = true;
                app.focus = Focus::ServerNameField;
                Request::Nothing
            },
            Some(Command::Run) => {
                if app.selected.is_some() {
                    app.search();
                    ask_command(app, AppMode::Normal);
                }
                Request::Nothing
            },
            Some(Command::Search) => {
                app.app_mode = AppMode::Search;
                app.focus = Focus::SearchField;
                app.search();
                Request::Nothing
            },
            None => Request::Nothing,
        },
    }
}

/// Handles a key of a form that is neither Enter nor Esc.
fn handle_form(app: &mut App, key: KeyEvent) -> (request: Request)
    ensures
        (final(app)@, request) == step_form(old(app)@, key),
{
    match key.code {
        KeyCode::Down | KeyCode::Tab => {
            app.focus_next_field();
            Request::Nothing
        },
        KeyCode::Up | KeyCode::BackTab => {
            app.focus_previous_field();
            Request::Nothing
        },
        _ => match app.focus {
            Focus::RunField | Focus::SearchField => Request::Nothing,
            focus => Request::Edit(focus),
        },
    }
}

/// Handles a key in the form for a new connection.
fn handle_new(app: &mut App, key: KeyEvent) -> (request: Request)
    ensures
        (final(app)@, request) == step_new(old(app)@, key),
{
    match key.code {
        KeyCode::Enter => {
            app.add_connection();
            app.app_mode = AppMode::Normal;
            app.show_edit_popup = false;
            span_store(app);
            Request::Save
        },
        KeyCode::Esc => {
            app.show_edit_popup = false;
            app.app_mode = AppMode::Normal;
            Request::Nothing
        },
        _ => handle_form(app, key),
    }
}

/// Handles a key in the form that edits a connection.
fn handle_edit(app: &mut App, key: KeyEvent) -> (request: Request)
    ensures
        (final(app)@, request) == step_edit(old(app)@, key),
{
    match key.code {
        KeyCode::Enter => {
            app.update_connection();
            back_to_last(app);
            if app.last_app_mode == AppMode::Search {
                app.search();
            }
            app.show_edit_popup = false;
            Request::Save
        },
        KeyCode::Esc => {
            app.show_edit_popup = false;
            back_to_last(app);
            Request::Nothing
        },
        _ => handle_form(app, key),
    }
}

/// Handles a key while a row is being moved.
fn handle_move(app: &mut App, key: KeyEvent) -> (request: Request)
    ensures
        (final(app)@, request) == step_move(old(app)@, key),
{
    match key.code {
        KeyCode::Esc => {
            app.show_edit_popup = false;
            app.app_mode = AppMode::Normal;
            Request::Nothing
        },
        KeyCode::Down => {
            app.move_row_down();
            Request::Save
        },
        KeyCode::Up => {
            app.move_row_up();
            Request::Save
        },
        _ => Request::Nothing,
    }
}

/// Handles a key while the import is offered.
fn handle_import(app: &mut App, key: KeyEvent) -> (request: Request)
    ensures
        (final(app)@, request) == step_import(old(app)@, key),
{
    match key.code {
        KeyCode::Esc => {
            app.show_import_popup = false;
            app.app_mode = AppMode::Normal;
            Request::Nothing
        },
        _ => match command_on(key.code) {
            Some(Command::Import) => Request::Import,
            _ => Request::Nothing,
        },
    }
}

/// Handles a key while an error is shown.
fn handle_error(app: &mut App, key: KeyEvent) -> (request: Request)
    ensures
        (final(app)@, request) == step_error(old(app)@, key),
{
    match key.code {
        KeyCode::Esc => {
            app.show_error_popup = false;
            back_to_last(app);
            Request::Nothing
        },
        _ => Request::Nothing,
    }
}

/// Handles a key while a command is asked for.
fn handle_run(app: &mut App, key: KeyEvent) -> (request: Request)
    ensures
        (final(app)@, request) == step_run(old(app)@, key),
{
    match key.code {
        KeyCode::Esc => {
            app.show_run_popup = false;
            match app.last_app_mode {
                AppMode::Normal => {
                    app.app_mode = AppMode::Normal;
                    app.focus = Focus::ServerNameField;
                },
                AppMode::Search => {
                    app.app_mode = AppMode::Search;
                    app.focus = Focus::SearchField;
                },
                _ => {},
            }
            app.run_input = String::new();
            Request::Nothing
        },
        KeyCode::Enter => Request::Launch,
        _ => {
            if app.focus == Focus::RunField {
                Request::Edit(Focus::RunField)
            } else {
                Request::Nothing
            }
        },
    }
}

/// Handles a key in search mode.
fn handle_search(app: &mut App, key: KeyEvent) -> (request: Request)
    ensures
        (final(app)@, request) == step_search(old(app)@, key),
{
    match key.code {
        KeyCode::Esc => {
            app.app_mode = AppMode::Normal;
            app.search_input = String::new();
            app.search();
            Request::Nothing
        },
        KeyCode::Down | KeyCode::Tab => {
            app.next_row();
            Request::Nothing
        },
        KeyCode::Up | KeyCode::BackTab => {
            app.previous_row();
            Request::Nothing
        },
        KeyCode::Enter => {
            if app.selected.is_some() {
                Request::Launch
            } else {
                Request::Nothing
            }
        },
        KeyCode::Delete => {
            let stored = app.get_row_index();
            let deletes = match stored {
                Some(i) => i < app.ssh_connections.len(),
                None => false,
            };
            app.delete_connection();
            app.search();
            span_store(app);
            if deletes {
                Request::Save
            } else {
                Request::Nothing
            }
        },
        _ => {
            let command = command_on(key.code);
            if key.control && command == Some(Command::Edit) {
                if app.selected.is_some() {
                    open_editor(app, AppMode::Search);
                }
                Request::Nothing
            } else if key.control && command == Some(Command::Run) {
                if app.selected.is_some() {
                    ask_command(app, AppMode::Search);
                }
                Request::Nothing
            } else if app.focus == Focus::SearchField {
                Request::Edit(Focus::SearchField)
            } else {
                Request::Nothing
            }
        },
    }
}

/// Applies a key press to the state and tells the caller what is left to
/// do. The manager goes on until the request is to quit, or until the
/// client has been started.
pub fn handle_key_event(app: &mut App, key: KeyEvent) -> (request: Request)
    ensures
        (final(app)@, request) == step(old(app)@, key),
{
    match app.app_mode {
        AppMode::Normal => handle_normal(app, key),
        AppMode::New => handle_new(app, key),
        AppMode::Edit => handle_edit(app, key),
        AppMode::Move => handle_move(app, key),
        AppMode::Import => handle_import(app, key),
        AppMode::Error => handle_error(app, key),
        AppMode::RunCommand => handle_run(app, key),
        AppMode::Search => handle_search(app, key),
        AppMode::Settings | AppMode::Sort => Request::Nothing,
    }
}

/// Reports that the client was to be started and is not installed.
pub fn client_missing(app: &mut App)
    ensures
        final(app)@ == after_client_missing(old(app)@),
{
    match app.app_mode {
        AppMode::Normal => {
            app.search();
            app.show_import_popup = false;
            show_error(app, "Failed to execute ssh command.\nIs the OpenSSH-client installed?");
        },
        AppMode::Search => {
            app.show_import_popup = false;
            show_error(app, "Failed to execute ssh command.\nIs the OpenSSH-client installed?");
        },
        AppMode::RunCommand => {
            app.show_run_popup = false;
            show_error(app, "Failed to execute ssh command.\nIs the OpenSSH-client installed?");
        },
        _ => {},
    }
}

/// Reports that the import did not run, and why.
pub fn import_refused(app: &mut App, reason: ImportFailure)
    ensures
        final(app)@ == after_import_refused(old(app)@, reason),
{
    app.search();
    app.show_import_popup = false;
    match reason {
        ImportFailure::ConfigBlank => {
            show_error(app, "The config is empty or does not exist.");
        },
        ImportFailure::ClientMissing => {
            show_error(app, "Failed to import ssh config.\nIs the OpenSSH-client installed?");
        },
    }
}

/// Reports that the import ran and left the selection at `selected`.
pub fn import_finished(app: &mut App, selected: usize)
    ensures
        final(app)@ == after_import(old(app)@, selected),
{
    app.selected = Some(selected);
    app.scroll_position = selected;
    app.show_import_popup = false;
    app.app_mode = AppMode::Normal;
    span_store(app);
}

/// Reports that the input in `focus` was edited.
pub fn field_edited(app: &mut App, focus: Focus)
    ensures
        final(app)@ == after_edit(old(app)@, focus),
{
    if app.app_mode == AppMode::Search && focus == Focus::SearchField {
        app.search();
        app.scroll_length = app.search_index.len();
    }
}

/// Puts `text` into the input of `focus`.
pub fn set_input(app: &mut App, focus: Focus, text: String)
    ensures
        final(app)@ == with_input(old(app)@, focus, text@),
{
    match focus {
        Focus::ServerNameField => {
            app.field_inputs.server_name_input = text;
        },
        Focus::GroupNameField => {
            app.field_inputs.group_name_input = text;
        },
        Focus::UsernameField => {
            app.field_inputs.username_input = text;
        },
        Focus::HostnameField => {
            app.field_inputs.hostname_input = text;
        },
        Focus::PortField => {
            app.field_inputs.port_input = text;
        },
        Focus::OptionsField => {
            app.field_inputs.options_input = text;
        },
        Focus::RunField => {
            app.run_input = text;
        },
        Focus::SearchField => {
            app.search_input = text;
        },
    }
}

/// A key press that changes the store asks to save it.
pub proof fn law_changes_are_saved(a: AppView, key: KeyEvent)
    ensures
        step(a, key).1 != Request::Save ==> step(a, key).0.connections == a.connections,
{
}

/// Only the key that quits, in normal mode, asks to stop.
pub proof fn law_quit_is_escape_in_normal_mode(a: AppView, key: KeyEvent)
    ensures
        step(a, key).1 == Request::Quit <==> a.app_mode == AppMode::Normal && key.code
            == KeyCode::Esc,
{
}

} // verus!
