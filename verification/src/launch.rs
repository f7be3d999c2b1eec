//! The command line with which the SSH client is started for a record.

use vstd::prelude::*;
use crate::app::{stored_row, App, AppMode, AppView};
use crate::connection::{ConnectionView, SSHConnection};
use crate::text::string_views;

verus! {

/// The words into which a POSIX shell would split `s`, or nothing where `s`
/// ends inside a quotation or behind a lone backslash.
pub uninterp spec fn shell_words(s: Seq<char>) -> Option<Seq<Seq<char>>>;

/// `shlex::split` splits a string into words as a POSIX shell does and gives
/// `None` for an erroneous string. The result is determined by the string
/// alone.
pub assume_specification[ shlex::split ](in_str: &str) -> (words: Option<Vec<String>>)
    ensures
        match words {
            Some(w) => shell_words(in_str@) == Some(string_views(w@)),
            None => shell_words(in_str@) is None,
        },
;

/// The words of a split, and none where the text could not be split.
pub open spec fn words_or_none(split: Option<Seq<Seq<char>>>) -> Seq<Seq<char>> {
    match split {
        Some(words) => words,
        None => Seq::empty(),
    }
}

/// The arguments of the client for the record `c`: the port, the words of
/// the record's options, the user at the host, and the words of the command
/// to run there.
pub open spec fn launch_args(
    c: ConnectionView,
    option_words: Seq<Seq<char>>,
    command_words: Seq<Seq<char>>,
) -> Seq<Seq<char>> {
    seq!["-p"@, c.port] + option_words + seq![c.username + "@"@ + c.hostname] + command_words
}

/// The arguments of the client for the record `c` and the command `command`.
pub open spec fn connect_line(c: ConnectionView, command: Seq<char>) -> Seq<Seq<char>> {
    launch_args(c, words_or_none(shell_words(c.options)), words_or_none(shell_words(command)))
}

/// The view of a split.
pub open spec fn split_view(split: Option<Vec<String>>) -> Option<Seq<Seq<char>>> {
    match split {
        Some(words) => Some(string_views(words@)),
        None => None,
    }
}

/// Appends copies of `words` to `args`.
fn push_words(args: &mut Vec<String>, words: &Vec<String>)
    ensures
        string_views(final(args)@) == string_views(old(args)@) + string_views(words@),
{
    let mut i: usize = 0;
    assert(string_views(args@) + string_views(words@).take(0) == string_views(args@));
    while i < words.len()
        invariant
            i <= words.len(),
            string_views(args@) == string_views(old(args)@) + string_views(words@).take(i as int),
        decreases words.len() - i,
    {
        let word = words[i].clone();
        proof {
            assert(string_views(args@.push(word)) == string_views(args@).push(word@));
            assert(string_views(words@).take(i + 1) == string_views(words@).take(i as int).push(
                word@,
            ));
            assert((string_views(old(args)@) + string_views(words@).take(i as int)).push(word@)
                == string_views(old(args)@) + string_views(words@).take(i as int).push(word@));
        }
        args.push(word);
        i += 1;
    }
    assert(string_views(words@).take(i as int) == string_views(words@));
}

/// The arguments of the client for the record `c`, given the split of its
/// options and the split of the command.
pub fn assemble_args(
    c: &SSHConnection,
    option_words: Option<Vec<String>>,
    command_words: Option<Vec<String>>,
) -> (args: Vec<String>)
    ensures
        string_views(args@) == launch_args(
            c@,
            words_or_none(split_view(option_words)),
            words_or_none(split_view(command_words)),
        ),
{
    let mut args: Vec<String> = Vec::new();
    args.push(String::from_str("-p"));
    args.push(c.port.clone());
    assert(string_views(args@) =~= seq!["-p"@, c@.port]);
    match &option_words {
        Some(words) => {
            push_words(&mut args, words);
        },
        None => {
            assert(string_views(args@) + Seq::<Seq<char>>::empty() == string_views(args@));
        },
    }
    let mut target = c.username.clone();
    target.append("@");
    target.append(c.hostname.as_str());
    assert(string_views(args@.push(target)) == string_views(args@) + seq![target@]);
    args.push(target);
    match &command_words {
        Some(words) => {
            push_words(&mut args, words);
        },
        None => {
            assert(string_views(args@) + Seq::<Seq<char>>::empty() == string_views(args@));
        },
    }
    args
}

/// The arguments of the client for the record `c`, with `command` to run on
/// the host; an empty command runs nothing there.
pub fn connect_args(c: &SSHConnection, command: &str) -> (args: Vec<String>)
    ensures
        string_views(args@) == connect_line(c@, command@),
{
    let option_words = shlex::split(c.options.as_str());
    let command_words = shlex::split(command);
    assemble_args(c, option_words, command_words)
}

/// The command that a start of the client runs on the host: what was typed
/// where a command was asked for, and none otherwise.
pub open spec fn command_to_run(a: AppView) -> Option<Seq<char>> {
    if a.app_mode == AppMode::RunCommand {
        Some(a.run_input)
    } else {
        None
    }
}

impl App {
    /// The command that a start of the client runs on the host.
    pub fn launch_command(&self) -> (command: Option<String>)
        ensures
            match command {
                Some(text) => command_to_run(self@) == Some(text@),
                None => command_to_run(self@) is None,
            },
    {
        match self.app_mode {
            AppMode::RunCommand => Some(self.run_input.clone()),
            _ => None,
        }
    }

    /// The arguments with which the client connects to the record that the
    /// selection stands for, or nothing where the selection stands for no
    /// record. Without a command, none is run on the host.
    pub fn connect(&self, command: Option<String>) -> (args: Option<Vec<String>>)
        ensures
            match stored_row(self@) {
                Some(i) => args is Some && string_views(args->0@) == connect_line(
                    self@.connections[i as int],
                    match command {
                        Some(text) => text@,
                        None => Seq::empty(),
                    },
                ),
                None => args is None,
            },
    {
        let row = match self.get_row_index() {
            Some(i) => if i < self.ssh_connections.len() {
                i
            } else {
                return None;
            },
            None => return None,
        };
        let text = match command {
            Some(text) => text,
            None => String::new(),
        };
        Some(connect_args(&self.ssh_connections[row], text.as_str()))
    }
}

} // verus!
