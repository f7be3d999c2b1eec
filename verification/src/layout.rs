//! What the screen shows for a state: which rows, how wide the columns, and
//! the texts around the table. Drawing itself is the caller's.

use vstd::prelude::*;
use crate::app::{App, AppMode, AppView};
use crate::connection::{connection_views, ConnectionView, SSHConnection};
use crate::order::Column;

verus! {

/// The indices `from`, `from + 1`, ... below `to`.
pub open spec fn indices(from: int, to: int) -> Seq<usize> {
    Seq::new(
        if from <= to {
            (to - from) as nat
        } else {
            0nat
        },
        |k: int| (from + k) as usize,
    )
}

/// Whether the table shows the whole store in `mode`, and not what the
/// search found.
pub open spec fn shows_store(mode: AppMode) -> bool {
    mode == AppMode::Normal || mode == AppMode::New || mode == AppMode::Move || mode
        == AppMode::Import
}

/// The rows of the table, as indices into the store: the whole store, or the
/// records that the search found as far as the store holds them.
pub open spec fn visible_rows(a: AppView) -> Seq<usize> {
    if shows_store(a.app_mode) {
        indices(0, a.connections.len() as int)
    } else {
        a.search_index.filter(|i: usize| i < a.connections.len())
    }
}

/// The text of a record in one of the four text columns.
pub open spec fn column_text(column: Column, c: ConnectionView) -> Seq<char> {
    match column {
        Column::Name => c.server_name,
        Column::Group => c.group_name,
        Column::Username => c.username,
        Column::Hostname => c.hostname,
        Column::Port => c.port,
    }
}

/// The number of bytes that a text takes.
pub open spec fn byte_len(s: Seq<char>) -> nat {
    vstd::utf8::encode_utf8(s).len()
}

/// The largest number of bytes that a record of `connections` has in
/// `column`; zero for an empty store.
pub open spec fn widest(column: Column, connections: Seq<ConnectionView>) -> nat
    decreases connections.len(),
{
    if connections.len() == 0 {
        0
    } else {
        let before = widest(column, connections.drop_last());
        let last = byte_len(column_text(column, connections.last()));
        if last > before {
            last
        } else {
            before
        }
    }
}

/// The most that a column may take: 50 cells for the host, 30 for the
/// others.
pub open spec fn width_limit(column: Column) -> nat {
    if column == Column::Hostname {
        50
    } else {
        30
    }
}

/// The width of a column: as wide as its widest text, but at least 15 cells
/// and at most the column's limit.
pub open spec fn column_width(column: Column, connections: Seq<ConnectionView>) -> nat {
    let w = widest(column, connections);
    if w < 15 {
        15
    } else if w > width_limit(column) {
        width_limit(column)
    } else {
        w
    }
}

/// The title of the form in `mode`.
pub open spec fn form_title(mode: AppMode) -> Seq<char> {
    match mode {
        AppMode::New => " Add new connection "@,
        AppMode::Edit => " Edit connection "@,
        _ => ""@,
    }
}

/// The key help below the table.
pub open spec fn footer_for(mode: AppMode, store_empty: bool) -> Seq<char> {
    match mode {
        AppMode::Normal => if store_empty {
            "[A] add | [I] import | [Esc] quit"@
        } else {
            "[Enter] connect | [R] run  | [/] search | [I] import | [Esc] quit  \n    [A] add     | [E] edit | [C] copy   | [M] move   | [Del] delete"@
        },
        AppMode::New => "[Enter] save | [Esc] cancel"@,
        AppMode::Edit => "[Enter] save | [Esc] cancel"@,
        AppMode::Move => "[\u{2193}] move down | [\u{2191}] move up | [Esc] back"@,
        AppMode::Import => "[I] import | [Esc] back"@,
        AppMode::Error => "[Esc] back"@,
        AppMode::RunCommand => "[Enter] run command | [Esc] back"@,
        AppMode::Search =>
            "[Enter] connect | [Ctrl+R] run | [Ctrl+E] edit | [Del] delete | [Esc] back"@,
        _ => ""@,
    }
}

/// The height of the key help: four lines where it has two lines of text,
/// three otherwise.
pub open spec fn footer_lines(mode: AppMode, store_empty: bool) -> u16 {
    if mode == AppMode::Normal && !store_empty {
        4
    } else {
        3
    }
}

/// The cells that an input of the width `area_width` offers to its text:
/// what is left of three cells for border and cursor.
pub open spec fn text_cells(area_width: u16) -> u16 {
    if area_width <= 3 {
        0
    } else {
        (area_width - 3) as u16
    }
}

/// How far right of an input's left border the cursor stands: one cell for
/// the border, and the cells between the scroll offset and the cursor.
pub open spec fn cursor_cells(visual_cursor: usize, scroll: usize) -> int {
    if visual_cursor > scroll {
        visual_cursor - scroll + 1
    } else {
        1
    }
}

/// How far right of an input's left border the cursor stands, as far as the
/// number can be held.
pub fn cursor_offset(visual_cursor: usize, scroll: usize) -> (cells: usize)
    ensures
        cells == if cursor_cells(visual_cursor, scroll) <= usize::MAX {
            cursor_cells(visual_cursor, scroll)
        } else {
            usize::MAX as int
        },
{
    if visual_cursor > scroll {
        let gap: usize = visual_cursor - scroll;
        if gap < usize::MAX {
            gap + 1
        } else {
            gap
        }
    } else {
        1
    }
}

/// Whether row `i` of the table has the darker of the two backgrounds.
pub fn is_dark_row(i: usize) -> (dark: bool)
    ensures
        dark == (i % 2 == 0),
{
    i % 2 == 0
}

/// The title of the form in `mode`.
pub fn popup_title(mode: AppMode) -> (title: &'static str)
    ensures
        title@ == form_title(mode),
{
    match mode {
        AppMode::New => " Add new connection ",
        AppMode::Edit => " Edit connection ",
        _ => "",
    }
}

/// The key help below the table.
pub fn footer_text(mode: AppMode, store_empty: bool) -> (text: &'static str)
    ensures
        text@ == footer_for(mode, store_empty),
{
    match mode {
        AppMode::Normal => if store_empty {
            "[A] add | [I] import | [Esc] quit"
        } else {
            "[Enter] connect | [R] run  | [/] search | [I] import | [Esc] quit  \n    [A] add     | [E] edit | [C] copy   | [M] move   | [Del] delete"
        },
        AppMode::New => "[Enter] save | [Esc] cancel",
        AppMode::Edit => "[Enter] save | [Esc] cancel",
        AppMode::Move => "[\u{2193}] move down | [\u{2191}] move up | [Esc] back",
        AppMode::Import => "[I] import | [Esc] back",
        AppMode::Error => "[Esc] back",
        AppMode::RunCommand => "[Enter] run command | [Esc] back",
        AppMode::Search =>
            "[Enter] connect | [Ctrl+R] run | [Ctrl+E] edit | [Del] delete | [Esc] back",
        _ => "",
    }
}

/// The height of the key help.
pub fn footer_height(mode: AppMode, store_empty: bool) -> (lines: u16)
    ensures
        lines == footer_lines(mode, store_empty),
{
    if mode == AppMode::Normal && !store_empty {
        4
    } else {
        3
    }
}

/// The cells that an input of the width `area_width` offers to its text.
pub fn input_width(area_width: u16) -> (cells: u16)
    ensures
        cells == text_cells(area_width),
{
    if area_width <= 3 {
        0
    } else {
        area_width - 3
    }
}

/// The text of `c` in `column`.
fn text_in(column: Column, c: &SSHConnection) -> (text: &String)
    ensures
        text@ == column_text(column, c@),
{
    match column {
        Column::Name => &c.server_name,
        Column::Group => &c.group_name,
        Column::Username => &c.username,
        Column::Hostname => &c.hostname,
        Column::Port => &c.port,
    }
}

/// The width of `column` for the store `connections`.
pub fn width_of(column: Column, connections: &Vec<SSHConnection>) -> (width: u16)
    ensures
        width == column_width(column, connection_views(connections@)),
{
    let mut longest: usize = 0;
    let mut i: usize = 0;
    assert(connection_views(connections@).take(0) =~= Seq::empty());
    while i < connections.len()
        invariant
            i <= connections.len(),
            longest == widest(column, connection_views(connections@).take(i as int)),
        decreases connections.len() - i,
    {
        proof {
            let next = connection_views(connections@).take(i + 1);
            assert(next.drop_last() == connection_views(connections@).take(i as int));
            assert(next.last() == connections@[i as int]@);
        }
        let len = text_in(column, &connections[i]).as_str().as_bytes().len();
        if len > longest {
            longest = len;
        }
        i += 1;
    }
    assert(connection_views(connections@).take(i as int) == connection_views(connections@));
    let limit: usize = match column {
        Column::Hostname => 50,
        _ => 30,
    };
    if longest < 15 {
        15
    } else if longest > limit {
        limit as u16
    } else {
        longest as u16
    }
}

impl App {
    /// The rows of the table, as indices into the store.
    pub fn visible_rows(&self) -> (rows: Vec<usize>)
        ensures
            rows@ == visible_rows(self@),
    {
        let mut rows: Vec<usize> = Vec::new();
        let all = match self.app_mode {
            AppMode::Normal | AppMode::New | AppMode::Move | AppMode::Import => true,
            _ => false,
        };
        if all {
            let mut i: usize = 0;
            while i < self.ssh_connections.len()
                invariant
                    i <= self.ssh_connections.len(),
                    rows@ == indices(0, i as int),
                decreases self.ssh_connections.len() - i,
            {
                rows.push(i);
                assert(rows@ == indices(0, i + 1));
                i += 1;
            }
        } else {
            let ghost stored = |i: usize| i < self@.connections.len();
            let mut k: usize = 0;
            assert(self.search_index@.take(0).filter(stored) =~= rows@);
            while k < self.search_index.len()
                invariant
                    k <= self.search_index.len(),
                    stored == |i: usize| i < self@.connections.len(),
                    rows@ == self.search_index@.take(k as int).filter(stored),
                decreases self.search_index.len() - k,
            {
                let index = self.search_index[k];
                proof {
                    assert(self.search_index@.take(k + 1) == self.search_index@.take(
                        k as int,
                    ).push(index));
                    self.search_index@.take(k as int).lemma_filter_push(index, stored);
                }
                if index < self.ssh_connections.len() {
                    rows.push(index);
                }
                k += 1;
            }
            assert(self.search_index@.take(k as int) == self.search_index@);
        }
        rows
    }

    /// The widths of the four text columns: name, group, user and host.
    pub fn get_constraint(&self) -> (widths: [u16; 4])
        ensures
            widths@ == seq![
                column_width(Column::Name, self@.connections) as u16,
                column_width(Column::Group, self@.connections) as u16,
                column_width(Column::Username, self@.connections) as u16,
                column_width(Column::Hostname, self@.connections) as u16,
            ],
    {
        [
            width_of(Column::Name, &self.ssh_connections),
            width_of(Column::Group, &self.ssh_connections),
            width_of(Column::Username, &self.ssh_connections),
            width_of(Column::Hostname, &self.ssh_connections),
        ]
    }
}

} // verus!
