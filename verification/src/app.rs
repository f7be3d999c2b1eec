//! The state of the connection manager between two key presses, and the
//! operations on it. Drawing and persistence are the caller's; the state
//! holds only plain values.

use vstd::prelude::*;
use crate::connection::{connection_views, ConnectionView, SSHConnection};
use crate::order::{column_named, column_of, sort_connections, sorted_by};
use crate::text::{chars_of, contains_text, has_infix, is_text, lowercase, lowercase_of};

verus! {

/// The input that keys go to.
#[derive(Clone, Copy, Debug, PartialEq, Eq, Structural)]
pub enum Focus {
    ServerNameField,
    GroupNameField,
    UsernameField,
    HostnameField,
    PortField,
    OptionsField,
    RunField,
    SearchField,
}

/// What the manager is doing.
#[derive(Clone, Copy, Debug, PartialEq, Eq, Structural)]
pub enum AppMode {
    Normal,
    Edit,
    New,
    Move,
    Import,
    Error,
    RunCommand,
    Search,
    Settings,
    Sort,
}

/// The preferences that are kept between runs.
#[derive(Clone, Debug, PartialEq, Eq)]
pub struct AppConfig {
    pub color: Option<String>,
    pub row_height: Option<u16>,
}

impl Default for AppConfig {
    fn default() -> (config: AppConfig)
        ensures
            config.color is None,
            config.row_height is None,
    {
        AppConfig { color: None, row_height: None }
    }
}

/// The texts of the six inputs of the edit form.
#[derive(Clone, Debug, PartialEq, Eq)]
pub struct FieldInputs {
    pub server_name_input: String,
    pub group_name_input: String,
    pub username_input: String,
    pub hostname_input: String,
    pub port_input: String,
    pub options_input: String,
}

/// The state of the manager.
#[derive(Clone, Debug, PartialEq, Eq)]
pub struct App {
    /// The selected row of the table, if any.
    pub selected: Option<usize>,
    /// Where the scrollbar stands.
    pub scroll_position: usize,
    /// How many rows the scrollbar spans.
    pub scroll_length: usize,
    pub ssh_connections: Vec<SSHConnection>,
    pub show_edit_popup: bool,
    pub show_import_popup: bool,
    pub show_error_popup: bool,
    pub show_run_popup: bool,
    pub show_settings_popup: bool,
    pub focus: Focus,
    pub field_inputs: FieldInputs,
    pub run_input: String,
    pub search_input: String,
    /// The rows that the search shows: indices into the store.
    pub search_index: Vec<usize>,
    pub app_mode: AppMode,
    pub last_app_mode: AppMode,
    pub error_text: String,
    pub row_height: u16,
    pub color: String,
}

/// The form as plain text. It has the shape of a connection record.
impl View for FieldInputs {
    type V = ConnectionView;

    open spec fn view(&self) -> ConnectionView {
        ConnectionView {
            server_name: self.server_name_input@,
            group_name: self.group_name_input@,
            username: self.username_input@,
            hostname: self.hostname_input@,
            port: self.port_input@,
            options: self.options_input@,
        }
    }
}

/// The state as plain values.
pub struct AppView {
    pub selected: Option<usize>,
    pub scroll_position: usize,
    pub scroll_length: usize,
    pub connections: Seq<ConnectionView>,
    pub show_edit_popup: bool,
    pub show_import_popup: bool,
    pub show_error_popup: bool,
    pub show_run_popup: bool,
    pub show_settings_popup: bool,
    pub focus: Focus,
    pub fields: ConnectionView,
    pub run_input: Seq<char>,
    pub search_input: Seq<char>,
    pub search_index: Seq<usize>,
    pub app_mode: AppMode,
    pub last_app_mode: AppMode,
    pub error_text: Seq<char>,
    pub row_height: u16,
    pub color: Seq<char>,
}

impl View for App {
    type V = AppView;

    open spec fn view(&self) -> AppView {
        AppView {
            selected: self.selected,
            scroll_position: self.scroll_position,
            scroll_length: self.scroll_length,
            connections: connection_views(self.ssh_connections@),
            show_edit_popup: self.show_edit_popup,
            show_import_popup: self.show_import_popup,
            show_error_popup: self.show_error_popup,
            show_run_popup: self.show_run_popup,
            show_settings_popup: self.show_settings_popup,
            focus: self.focus,
            fields: self.field_inputs@,
            run_input: self.run_input@,
            search_input: self.search_input@,
            search_index: self.search_index@,
            app_mode: self.app_mode,
            last_app_mode: self.last_app_mode,
            error_text: self.error_text@,
            row_height: self.row_height,
            color: self.color@,
        }
    }
}

/// The form as it is offered for a new connection: empty but for port 22.
pub open spec fn blank_fields() -> ConnectionView {
    ConnectionView {
        server_name: Seq::empty(),
        group_name: Seq::empty(),
        username: Seq::empty(),
        hostname: Seq::empty(),
        port: "22"@,
        options: Seq::empty(),
    }
}

/// The state in which the manager starts with the store `connections`.
pub open spec fn initial(connections: Seq<ConnectionView>) -> AppView {
    AppView {
        selected: Some(0usize),
        scroll_position: 0,
        scroll_length: connections.len() as usize,
        connections,
        show_edit_popup: false,
        show_import_popup: false,
        show_error_popup: false,
        show_run_popup: false,
        show_settings_popup: false,
        focus: Focus::ServerNameField,
        fields: blank_fields(),
        run_input: Seq::empty(),
        search_input: Seq::empty(),
        search_index: Seq::empty(),
        app_mode: AppMode::Normal,
        last_app_mode: AppMode::Normal,
        error_text: Seq::empty(),
        row_height: 3,
        color: "yellow"@,
    }
}

/// The state with the row `i` selected and the scrollbar brought along.
pub open spec fn at_row(a: AppView, i: usize) -> AppView {
    AppView { selected: Some(i), scroll_position: i, ..a }
}

/// The state once it is known whether the client's own configuration file is
/// blank: an empty store leads to the form for a new connection where there
/// is nothing to import, and to the offer to import where there is.
pub open spec fn after_blank_check(a: AppView, config_blank: bool) -> AppView {
    if a.connections.len() == 0 && config_blank {
        AppView { show_edit_popup: true, app_mode: AppMode::New, ..a }
    } else if a.connections.len() == 0 {
        AppView { show_import_popup: true, app_mode: AppMode::Import, ..a }
    } else {
        AppView { app_mode: AppMode::Normal, ..a }
    }
}

/// The row below the selected one; the last row stays. Without a selection
/// the first row is taken.
pub open spec fn row_below(a: AppView) -> usize {
    match a.selected {
        Some(i) => if i + 1 >= a.connections.len() {
            i
        } else {
            (i + 1) as usize
        },
        None => 0,
    }
}

/// The row above the selected one; the first row stays. Without a selection
/// the first row is taken.
pub open spec fn row_above(a: AppView) -> usize {
    match a.selected {
        Some(i) => if i == 0 {
            i
        } else {
            (i - 1) as usize
        },
        None => 0,
    }
}

/// The record that the selection stands for: the selected row itself in
/// normal mode, and otherwise the record that the search shows in that row.
pub open spec fn row_index(a: AppView) -> Option<usize> {
    match a.selected {
        None => None,
        Some(row) => if a.app_mode == AppMode::Normal {
            Some(row)
        } else if row < a.search_index.len() {
            Some(a.search_index[row as int])
        } else {
            None
        },
    }
}

/// The record that the selection stands for, where the store holds it.
pub open spec fn stored_row(a: AppView) -> Option<usize> {
    match row_index(a) {
        Some(i) => if i < a.connections.len() {
            Some(i)
        } else {
            None
        },
        None => None,
    }
}

/// The state with the form emptied and the first input in focus.
pub open spec fn with_blank_fields(a: AppView) -> AppView {
    AppView { fields: blank_fields(), focus: Focus::ServerNameField, ..a }
}

/// The state after the form was added to the store as a new record. The
/// selection goes behind the last row.
pub open spec fn after_add(a: AppView) -> AppView {
    let connections = a.connections.push(a.fields);
    AppView {
        connections,
        selected: Some(connections.len() as usize),
        fields: blank_fields(),
        focus: Focus::ServerNameField,
        ..a
    }
}

/// The state with the form filled from the record that the selection stands
/// for.
pub open spec fn with_selected_fields(a: AppView) -> AppView {
    match stored_row(a) {
        Some(i) => AppView { fields: a.connections[i as int], ..a },
        None => a,
    }
}

/// The state after the form replaced the record that the selection stands
/// for.
pub open spec fn after_update(a: AppView) -> AppView {
    let connections = match stored_row(a) {
        Some(i) => a.connections.update(i as int, a.fields),
        None => a.connections,
    };
    AppView { connections, fields: blank_fields(), focus: Focus::ServerNameField, ..a }
}

/// The state after the record that the selection stands for was removed.
pub open spec fn after_delete(a: AppView) -> AppView {
    match stored_row(a) {
        Some(i) => AppView { connections: a.connections.remove(i as int), ..a },
        None => a,
    }
}

/// The selected row where the store holds it.
pub open spec fn selected_stored(a: AppView) -> Option<usize> {
    match a.selected {
        Some(i) => if i < a.connections.len() {
            Some(i)
        } else {
            None
        },
        None => None,
    }
}

/// The state after the selected row was copied; the copy stands below it.
pub open spec fn after_copy(a: AppView) -> AppView {
    match selected_stored(a) {
        Some(i) => AppView { connections: a.connections.insert(i + 1, a.connections[i as int]), ..a },
        None => a,
    }
}

/// The input after `focus` in the form; the last one stays.
pub open spec fn focus_after(focus: Focus) -> Focus {
    match focus {
        Focus::ServerNameField => Focus::GroupNameField,
        Focus::GroupNameField => Focus::UsernameField,
        Focus::UsernameField => Focus::HostnameField,
        Focus::HostnameField => Focus::PortField,
        Focus::PortField => Focus::OptionsField,
        Focus::OptionsField => Focus::OptionsField,
        _ => Focus::ServerNameField,
    }
}

/// The input before `focus` in the form; the first one stays.
pub open spec fn focus_before(focus: Focus) -> Focus {
    match focus {
        Focus::ServerNameField => Focus::ServerNameField,
        Focus::GroupNameField => Focus::ServerNameField,
        Focus::UsernameField => Focus::GroupNameField,
        Focus::HostnameField => Focus::UsernameField,
        Focus::PortField => Focus::HostnameField,
        Focus::OptionsField => Focus::PortField,
        _ => Focus::ServerNameField,
    }
}

/// `s` with the items at `i` and `j` exchanged.
pub open spec fn swapped<A>(s: Seq<A>, i: int, j: int) -> Seq<A> {
    s.update(i, s[j]).update(j, s[i])
}

/// The state after the selected row moved one row down. The last row stays.
pub open spec fn after_move_down(a: AppView) -> AppView {
    match a.selected {
        Some(i) => if i + 1 < a.connections.len() {
            AppView {
                connections: swapped(a.connections, i as int, i + 1),
                selected: Some((i + 1) as usize),
                scroll_position: (i + 1) as usize,
                ..a
            }
        } else {
            a
        },
        None => a,
    }
}

/// The state after the selected row moved one row up. The first row stays.
pub open spec fn after_move_up(a: AppView) -> AppView {
    match a.selected {
        Some(i) => if 0 < i < a.connections.len() {
            AppView {
                connections: swapped(a.connections, i as int, i - 1),
                selected: Some((i - 1) as usize),
                scroll_position: (i - 1) as usize,
                ..a
            }
        } else {
            a
        },
        None => a,
    }
}

/// Whether one of the six texts of `c`, in lowercase, holds `needle`.
pub open spec fn is_hit(c: ConnectionView, needle: Seq<char>) -> bool {
    ||| has_infix(lowercase_of(c.server_name), needle)
    ||| has_infix(lowercase_of(c.hostname), needle)
    ||| has_infix(lowercase_of(c.username), needle)
    ||| has_infix(lowercase_of(c.port), needle)
    ||| has_infix(lowercase_of(c.group_name), needle)
    ||| has_infix(lowercase_of(c.options), needle)
}

/// The indices of the records that hold `needle`, in rising order.
pub open spec fn hits(connections: Seq<ConnectionView>, needle: Seq<char>) -> Seq<usize>
    decreases connections.len(),
{
    if connections.len() == 0 {
        Seq::empty()
    } else {
        let before = hits(connections.drop_last(), needle);
        if is_hit(connections.last(), needle) {
            before.push((connections.len() - 1) as usize)
        } else {
            before
        }
    }
}

/// The selected row, or the first row where none is selected.
pub open spec fn selected_or_first(a: AppView) -> usize {
    match a.selected {
        Some(i) => i,
        None => 0,
    }
}

/// The state after the search ran: the rows shown are the records that hold
/// the search text in any case, and a row is selected.
pub open spec fn after_search(a: AppView) -> AppView {
    AppView {
        search_index: hits(a.connections, lowercase_of(a.search_input)),
        selected: Some(selected_or_first(a)),
        scroll_position: selected_or_first(a),
        ..a
    }
}

/// The colours of the highlight, in the order in which they are cycled.
pub open spec fn palette() -> Seq<Seq<char>> {
    seq![
        "yellow"@,
        "lightyellow"@,
        "white"@,
        "darkgray"@,
        "gray"@,
        "red"@,
        "lightred"@,
        "green"@,
        "lightgreen"@,
        "blue"@,
        "lightblue"@,
        "magenta"@,
        "lightmagenta"@,
        "cyan"@,
        "lightcyan"@,
    ]
}

/// The first place at or after `i` at which `color` stands in `colors`.
pub open spec fn place_from(colors: Seq<Seq<char>>, color: Seq<char>, i: int) -> Option<int>
    decreases colors.len() - i,
{
    if i < 0 || i >= colors.len() {
        None
    } else if colors[i] == color {
        Some(i)
    } else {
        place_from(colors, color, i + 1)
    }
}

/// The colour that follows `color` in the cycle. A colour that is not in the
/// cycle stays.
pub open spec fn color_after(color: Seq<char>) -> Seq<char> {
    match place_from(palette(), color, 0) {
        Some(i) => palette()[(i + 1) % 15],
        None => color,
    }
}

/// The colour that precedes `color` in the cycle. A colour that is not in
/// the cycle stays.
pub open spec fn color_before(color: Seq<char>) -> Seq<char> {
    match place_from(palette(), color, 0) {
        Some(i) => palette()[(i + 14) % 15],
        None => color,
    }
}

/// The state with the kept preferences applied: a colour of the cycle is
/// taken, any other gives yellow; a row height of 1 or 3 is taken, any
/// other leaves the height as it is.
pub open spec fn with_preferences(
    a: AppView,
    color: Option<Seq<char>>,
    row_height: Option<u16>,
) -> AppView {
    AppView {
        color: match color {
            Some(c) => if place_from(palette(), c, 0) is Some {
                c
            } else {
                "yellow"@
            },
            None => "yellow"@,
        },
        row_height: match row_height {
            Some(h) => if h == 1 || h == 3 {
                h
            } else {
                a.row_height
            },
            None => a.row_height,
        },
        ..a
    }
}

/// The state with the store ordered by the column that `column` names. An
/// unknown name changes nothing.
pub open spec fn after_sort(a: AppView, column: Seq<char>) -> AppView {
    match column_named(column) {
        Some(c) => AppView { connections: sorted_by(c, a.connections), ..a },
        None => a,
    }
}

/// The rows of the colour cycle.
fn palette_rows() -> (rows: Vec<&'static str>)
    ensures
        rows@.len() == 15,
        forall|i: int| 0 <= i < 15 ==> (#[trigger] rows@[i])@ == palette()[i],
{
    vec![
        "yellow",
        "lightyellow",
        "white",
        "darkgray",
        "gray",
        "red",
        "lightred",
        "green",
        "lightgreen",
        "blue",
        "lightblue",
        "magenta",
        "lightmagenta",
        "cyan",
        "lightcyan",
    ]
}

/// The place of `color` in the cycle.
pub fn place_of(color: &str) -> (place: Option<usize>)
    ensures
        match place {
            Some(i) => place_from(palette(), color@, 0) == Some(i as int) && i < 15,
            None => place_from(palette(), color@, 0) is None,
        },
{
    let rows = palette_rows();
    let cs = chars_of(color);
    let mut i: usize = 0;
    while i < rows.len()
        invariant
            i <= rows.len(),
            rows@.len() == 15,
            cs@ == color@,
            forall|k: int| 0 <= k < 15 ==> (#[trigger] rows@[k])@ == palette()[k],
            place_from(palette(), color@, i as int) == place_from(palette(), color@, 0),
        decreases rows.len() - i,
    {
        if is_text(cs.as_slice(), rows[i]) {
            return Some(i);
        }
        i += 1;
    }
    None
}

/// The colour at `place` of the cycle.
fn color_at(place: usize) -> (color: String)
    requires
        place < 15,
    ensures
        color@ == palette()[place as int],
{
    let rows = palette_rows();
    String::from_str(rows[place])
}

impl FieldInputs {
    /// The form as it is offered for a new connection.
    pub fn blank() -> (fields: FieldInputs)
        ensures
            fields@ == blank_fields(),
    {
        FieldInputs {
            server_name_input: String::new(),
            group_name_input: String::new(),
            username_input: String::new(),
            hostname_input: String::new(),
            port_input: String::from_str("22"),
            options_input: String::new(),
        }
    }

    /// The record that the form spells.
    pub fn to_connection(&self) -> (record: SSHConnection)
        ensures
            record@ == self@,
    {
        SSHConnection {
            server_name: self.server_name_input.clone(),
            group_name: self.group_name_input.clone(),
            username: self.username_input.clone(),
            hostname: self.hostname_input.clone(),
            port: self.port_input.clone(),
            options: self.options_input.clone(),
        }
    }

    /// The form filled from `record`.
    pub fn from_connection(record: &SSHConnection) -> (fields: FieldInputs)
        ensures
            fields@ == record@,
    {
        FieldInputs {
            server_name_input: record.server_name.clone(),
            group_name_input: record.group_name.clone(),
            username_input: record.username.clone(),
            hostname_input: record.hostname.clone(),
            port_input: record.port.clone(),
            options_input: record.options.clone(),
        }
    }
}

/// Whether one of the six texts of `c`, in lowercase, holds `needle`.
pub fn holds_text(c: &SSHConnection, needle: &[char]) -> (r: bool)
    ensures
        r == is_hit(c@, needle@),
{
    let name = lowercase(chars_of(c.server_name.as_str()).as_slice());
    if contains_text(name.as_slice(), needle) {
        return true;
    }
    let host = lowercase(chars_of(c.hostname.as_str()).as_slice());
    if contains_text(host.as_slice(), needle) {
        return true;
    }
    let user = lowercase(chars_of(c.username.as_str()).as_slice());
    if contains_text(user.as_slice(), needle) {
        return true;
    }
    let port = lowercase(chars_of(c.port.as_str()).as_slice());
    if contains_text(port.as_slice(), needle) {
        return true;
    }
    let group = lowercase(chars_of(c.group_name.as_str()).as_slice());
    if contains_text(group.as_slice(), needle) {
        return true;
    }
    let options = lowercase(chars_of(c.options.as_str()).as_slice());
    contains_text(options.as_slice(), needle)
}

impl App {
    /// The state in which the manager starts with the store `data_vec`.
    pub fn new(data_vec: Vec<SSHConnection>) -> (app: App)
        ensures
            app@ == initial(connection_views(data_vec@)),
    {
        App {
            selected: Some(0),
            scroll_position: 0,
            scroll_length: data_vec.len(),
            ssh_connections: data_vec,
            show_edit_popup: false,
            show_import_popup: false,
            show_error_popup: false,
            show_run_popup: false,
            show_settings_popup: false,
            focus: Focus::ServerNameField,
            field_inputs: FieldInputs::blank(),
            run_input: String::new(),
            search_input: String::new(),
            search_index: Vec::new(),
            app_mode: AppMode::Normal,
            last_app_mode: AppMode::Normal,
            error_text: String::new(),
            row_height: 3,
            color: String::from_str("yellow"),
        }
    }

    /// Chooses the mode to start in. `config_blank` tells whether the
    /// client's own configuration file has nothing to offer.
    pub fn check_blank_config(&mut self, config_blank: bool)
        ensures
            final(self)@ == after_blank_check(old(self)@, config_blank),
    {
        if self.ssh_connections.len() == 0 && config_blank {
            self.show_edit_popup = true;
            self.app_mode = AppMode::New;
        } else if self.ssh_connections.len() == 0 {
            self.show_import_popup = true;
            self.app_mode = AppMode::Import;
        } else {
            self.app_mode = AppMode::Normal;
        }
    }

    /// Selects the row below.
    pub fn next_row(&mut self)
        ensures
            final(self)@ == at_row(old(self)@, row_below(old(self)@)),
    {
        let i: usize = match self.selected {
            Some(i) => {
                if self.ssh_connections.len() == 0 || i >= self.ssh_connections.len() - 1 {
                    i
                } else {
                    i + 1
                }
            },
            None => 0,
        };
        self.selected = Some(i);
        self.scroll_position = i;
    }

    /// Selects the row above.
    pub fn previous_row(&mut self)
        ensures
            final(self)@ == at_row(old(self)@, row_above(old(self)@)),
    {
        let i: usize = match self.selected {
            Some(i) => {
                if i == 0 {
                    i
                } else {
                    i - 1
                }
            },
            None => 0,
        };
        self.selected = Some(i);
        self.scroll_position = i;
    }

    /// The record that the selection stands for.
    pub fn get_row_index(&self) -> (index: Option<usize>)
        ensures
            index == row_index(self@),
    {
        let selected_row: usize = match self.selected {
            Some(row) => row,
            None => return None,
        };
        if self.app_mode == AppMode::Normal {
            Some(selected_row)
        } else if selected_row < self.search_index.len() {
            Some(self.search_index[selected_row])
        } else {
            None
        }
    }

    /// The record that the selection stands for, where the store holds it.
    fn get_stored_row(&self) -> (index: Option<usize>)
        ensures
            index == stored_row(self@),
            index is Some ==> index->0 < self.ssh_connections@.len(),
    {
        match self.get_row_index() {
            Some(i) => if i < self.ssh_connections.len() {
                Some(i)
            } else {
                None
            },
            None => None,
        }
    }

    /// Empties the form and puts the first input in focus.
    pub fn reset_fields(&mut self)
        ensures
            final(self)@ == with_blank_fields(old(self)@),
    {
        self.field_inputs = FieldInputs::blank();
        self.focus = Focus::ServerNameField;
    }

    /// Adds the form to the store as a new record.
    pub fn add_connection(&mut self)
        ensures
            final(self)@ == after_add(old(self)@),
    {
        let new_connection = self.field_inputs.to_connection();
        assert(connection_views(self.ssh_connections@.push(new_connection)) == connection_views(
            self.ssh_connections@,
        ).push(new_connection@));
        self.ssh_connections.push(new_connection);
        self.reset_fields();
        self.selected = Some(self.ssh_connections.len());
    }

    /// Fills the form from the record that the selection stands for.
    pub fn selected_config_to_fields(&mut self)
        ensures
            final(self)@ == with_selected_fields(old(self)@),
    {
        if let Some(i) = self.get_stored_row() {
            self.field_inputs = FieldInputs::from_connection(&self.ssh_connections[i]);
        }
    }

    /// Replaces the record that the selection stands for by the form.
    pub fn update_connection(&mut self)
        ensures
            final(self)@ == after_update(old(self)@),
    {
        let edited_connection = self.field_inputs.to_connection();
        if let Some(i) = self.get_stored_row() {
            assert(connection_views(self.ssh_connections@.update(i as int, edited_connection))
                == connection_views(self.ssh_connections@).update(i as int, edited_connection@));
            self.ssh_connections.set(i, edited_connection);
        }
        self.reset_fields();
    }

    /// Removes the record that the selection stands for.
    pub fn delete_connection(&mut self)
        ensures
            final(self)@ == after_delete(old(self)@),
    {
        if let Some(i) = self.get_stored_row() {
            assert(connection_views(self.ssh_connections@.remove(i as int)) == connection_views(
                self.ssh_connections@,
            ).remove(i as int));
            self.ssh_connections.remove(i);
        }
    }

    /// Copies the selected row; the copy stands below it.
    pub fn copy_connection(&mut self)
        ensures
            final(self)@ == after_copy(old(self)@),
    {
        if let Some(i) = self.selected {
            if i < self.ssh_connections.len() {
                let copy = self.ssh_connections[i].duplicate();
                assert(connection_views(self.ssh_connections@.insert(i + 1, copy))
                    == connection_views(self.ssh_connections@).insert(i + 1, copy@));
                self.ssh_connections.insert(i + 1, copy);
            }
        }
    }

    /// Puts the next input of the form in focus.
    pub fn focus_next_field(&mut self)
        ensures
            final(self)@ == (AppView { focus: focus_after(old(self)@.focus), ..old(self)@ }),
    {
        self.focus = match self.focus {
            Focus::ServerNameField => Focus::GroupNameField,
            Focus::GroupNameField => Focus::UsernameField,
            Focus::UsernameField => Focus::HostnameField,
            Focus::HostnameField => Focus::PortField,
            Focus::PortField => Focus::OptionsField,
            Focus::OptionsField => Focus::OptionsField,
            _ => Focus::ServerNameField,
        };
    }

    /// Puts the previous input of the form in focus.
    pub fn focus_previous_field(&mut self)
        ensures
            final(self)@ == (AppView { focus: focus_before(old(self)@.focus), ..old(self)@ }),
    {
        self.focus = match self.focus {
            Focus::ServerNameField => Focus::ServerNameField,
            Focus::GroupNameField => Focus::ServerNameField,
            Focus::UsernameField => Focus::GroupNameField,
            Focus::HostnameField => Focus::UsernameField,
            Focus::PortField => Focus::HostnameField,
            Focus::OptionsField => Focus::PortField,
            _ => Focus::ServerNameField,
        };
    }

    /// Moves the selected row one row down.
    pub fn move_row_down(&mut self)
        ensures
            final(self)@ == after_move_down(old(self)@),
    {
        if let Some(i) = self.selected {
            if self.ssh_connections.len() > 0 && i < self.ssh_connections.len() - 1 {
                let record = self.ssh_connections.remove(i);
                self.ssh_connections.insert(i + 1, record);
                assert(connection_views(self.ssh_connections@) =~= swapped(
                    connection_views(old(self).ssh_connections@),
                    i as int,
                    i + 1,
                ));
                self.selected = Some(i + 1);
                self.scroll_position = i + 1;
            }
        }
    }

    /// Moves the selected row one row up.
    pub fn move_row_up(&mut self)
        ensures
            final(self)@ == after_move_up(old(self)@),
    {
        if let Some(i) = self.selected {
            if 0 < i && i < self.ssh_connections.len() {
                let record = self.ssh_connections.remove(i);
                self.ssh_connections.insert(i - 1, record);
                assert(connection_views(self.ssh_connections@) =~= swapped(
                    connection_views(old(self).ssh_connections@),
                    i as int,
                    i - 1,
                ));
                self.selected = Some(i - 1);
                self.scroll_position = i - 1;
            }
        }
    }

    /// Finds the records that hold the search text and selects a row.
    pub fn search(&mut self)
        ensures
            final(self)@ == after_search(old(self)@),
    {
        let needle = lowercase(chars_of(self.search_input.as_str()).as_slice());
        let mut found: Vec<usize> = Vec::new();
        let mut index: usize = 0;
        assert(connection_views(self.ssh_connections@).take(0) =~= Seq::empty());
        while index < self.ssh_connections.len()
            invariant
                index <= self.ssh_connections.len(),
                *self == *old(self),
                found@ == hits(connection_views(self.ssh_connections@).take(index as int), needle@),
            decreases self.ssh_connections.len() - index,
        {
            proof {
                let next = connection_views(self.ssh_connections@).take(index + 1);
                assert(next.drop_last() == connection_views(self.ssh_connections@).take(
                    index as int,
                ));
                assert(next.last() == self.ssh_connections@[index as int]@);
            }
            if holds_text(&self.ssh_connections[index], needle.as_slice()) {
                found.push(index);
            }
            index += 1;
        }
        assert(connection_views(self.ssh_connections@).take(index as int) == connection_views(
            self.ssh_connections@,
        ));
        self.search_index = found;
        let i: usize = match self.selected {
            Some(i) => i,
            None => 0,
        };
        self.selected = Some(i);
        self.scroll_position = i;
    }

    /// Applies the kept preferences.
    pub fn apply_appconfig(&mut self, appconfig: AppConfig)
        ensures
            final(self)@ == with_preferences(
                old(self)@,
                match appconfig.color {
                    Some(c) => Some(c@),
                    None => None,
                },
                appconfig.row_height,
            ),
    {
        self.color = match appconfig.color {
            Some(color) => {
                if place_of(color.as_str()).is_some() {
                    color
                } else {
                    String::from_str("yellow")
                }
            },
            None => String::from_str("yellow"),
        };
        if let Some(c) = appconfig.row_height {
            if c == 1 || c == 3 {
                self.row_height = c;
            }
        }
    }

    /// The preferences to keep: the colour and the row height in use.
    pub fn update_appconfig(&self) -> (appconfig: AppConfig)
        ensures
            appconfig.color is Some,
            appconfig.color->0@ == self@.color,
            appconfig.row_height == Some(self@.row_height),
    {
        AppConfig { color: Some(self.color.clone()), row_height: Some(self.row_height) }
    }

    /// Takes the next colour of the cycle.
    pub fn next_color(&mut self)
        ensures
            final(self)@ == (AppView { color: color_after(old(self)@.color), ..old(self)@ }),
    {
        if let Some(i) = place_of(self.color.as_str()) {
            self.color = color_at((i + 1) % 15);
        }
    }

    /// Takes the previous colour of the cycle.
    pub fn previous_color(&mut self)
        ensures
            final(self)@ == (AppView { color: color_before(old(self)@.color), ..old(self)@ }),
    {
        if let Some(i) = place_of(self.color.as_str()) {
            self.color = color_at((i + 14) % 15);
        }
    }

    /// Orders the store by the column that `column` names: `name`, `group`,
    /// `username`, `hostname` or `port`. Any other name changes nothing.
    pub fn sort(&mut self, column: String)
        ensures
            final(self)@ == after_sort(old(self)@, column@),
    {
        if let Some(c) = column_of(column.as_str()) {
            sort_connections(&mut self.ssh_connections, c);
        }
    }
}

/// Every colour of the cycle stands in it once, at its own place.
pub proof fn lemma_palette_places(i: int)
    requires
        0 <= i < 15,
    ensures
        place_from(palette(), palette()[i], 0) == Some(i),
{
    reveal_strlit("yellow");
    reveal_strlit("lightyellow");
    reveal_strlit("white");
    reveal_strlit("darkgray");
    reveal_strlit("gray");
    reveal_strlit("red");
    reveal_strlit("lightred");
    reveal_strlit("green");
    reveal_strlit("lightgreen");
    reveal_strlit("blue");
    reveal_strlit("lightblue");
    reveal_strlit("magenta");
    reveal_strlit("lightmagenta");
    reveal_strlit("cyan");
    reveal_strlit("lightcyan");
    reveal_with_fuel(place_from, 16);
    let p = palette();
    assert({
        &&& p[0].len() == 6
        &&& p[1].len() == 11
        &&& p[2].len() == 5
        &&& p[3].len() == 8
        &&& p[4].len() == 4
        &&& p[5].len() == 3
        &&& p[6].len() == 8
        &&& p[7].len() == 5
        &&& p[8].len() == 10
        &&& p[9].len() == 4
        &&& p[10].len() == 9
        &&& p[11].len() == 7
        &&& p[12].len() == 12
        &&& p[13].len() == 4
        &&& p[14].len() == 9
    });
    assert(p[2][0] != p[7][0]);
    assert(p[3][0] != p[6][0]);
    assert(p[4][0] != p[9][0]);
    assert(p[4][0] != p[13][0]);
    assert(p[9][0] != p[13][0]);
    assert(p[10][5] != p[14][5]);
    if i == 0 {
        assert(place_from(p, p[0], 0) == Some(0int));
    }
    if i == 1 {
        assert(place_from(p, p[1], 0) == Some(1int));
    }
    if i == 2 {
        assert(place_from(p, p[2], 0) == Some(2int));
    }
    if i == 3 {
        assert(place_from(p, p[3], 0) == Some(3int));
    }
    if i == 4 {
        assert(place_from(p, p[4], 0) == Some(4int));
    }
    if i == 5 {
        assert(place_from(p, p[5], 0) == Some(5int));
    }
    if i == 6 {
        assert(place_from(p, p[6], 0) == Some(6int));
    }
    if i == 7 {
        assert(place_from(p, p[7], 0) == Some(7int));
    }
    if i == 8 {
        assert(place_from(p, p[8], 0) == Some(8int));
    }
    if i == 9 {
        assert(place_from(p, p[9], 0) == Some(9int));
    }
    if i == 10 {
        assert(place_from(p, p[10], 0) == Some(10int));
    }
    if i == 11 {
        assert(place_from(p, p[11], 0) == Some(11int));
    }
    if i == 12 {
        assert(place_from(p, p[12], 0) == Some(12int));
    }
    if i == 13 {
        assert(place_from(p, p[13], 0) == Some(13int));
    }
    if i == 14 {
        assert(place_from(p, p[14], 0) == Some(14int));
    }
}

/// A place found in the cycle holds the colour looked for.
pub proof fn lemma_place_found(colors: Seq<Seq<char>>, color: Seq<char>, i: int)
    requires
        0 <= i,
    ensures
        match place_from(colors, color, i) {
            Some(at) => i <= at < colors.len() && colors[at] == color,
            None => true,
        },
    decreases colors.len() - i,
{
    if i < colors.len() && colors[i] != color {
        lemma_place_found(colors, color, i + 1);
    }
}

/// Stepping forward in the cycle and back again, or back and forward, ends
/// at the colour one started from.
pub proof fn law_color_cycle(color: Seq<char>)
    ensures
        color_before(color_after(color)) == color,
        color_after(color_before(color)) == color,
{
    lemma_place_found(palette(), color, 0);
    match place_from(palette(), color, 0) {
        Some(i) => {
            lemma_palette_places((i + 1) % 15);
            lemma_palette_places((i + 14) % 15);
            assert(((i + 1) % 15 + 14) % 15 == i);
            assert(((i + 14) % 15 + 1) % 15 == i);
        },
        None => {},
    }
}

/// What the search shows are records of the store that hold the search
/// text, in rising order.
pub proof fn law_hits(connections: Seq<ConnectionView>, needle: Seq<char>)
    requires
        connections.len() <= usize::MAX,
    ensures
        forall|k: int|
            0 <= k < hits(connections, needle).len() ==> (#[trigger] hits(connections, needle)[k])
                < connections.len() && is_hit(
                connections[hits(connections, needle)[k] as int],
                needle,
            ),
        forall|j: int, k: int|
            0 <= j < k < hits(connections, needle).len() ==> hits(connections, needle)[j] < hits(
                connections,
                needle,
            )[k],
        hits(connections, needle).len() <= connections.len(),
    decreases connections.len(),
{
    if connections.len() > 0 {
        let rest = connections.drop_last();
        law_hits(rest, needle);
        let before = hits(rest, needle);
        let all = hits(connections, needle);
        assert forall|k: int| 0 <= k < all.len() implies (#[trigger] all[k]) < connections.len()
            && is_hit(connections[all[k] as int], needle) by {
            if k < before.len() {
                assert(all[k] == before[k]);
                assert(rest[before[k] as int] == connections[before[k] as int]);
            }
        }
        assert forall|j: int, k: int| 0 <= j < k < all.len() implies all[j] < all[k] by {
            assert(all[j] == before[j]);
            if k < before.len() {
                assert(all[k] == before[k]);
            }
        }
    }
}

} // verus!
