//! Reading the effective configuration that the SSH client prints for one
//! host, and deciding when the client has to be asked again.

use vstd::prelude::*;
use crate::text::{
    chars_of, contains_text, first_ink, has_infix, is_blank_char, is_text, lines, lines_of,
    lowercase, lowercase_of, slice_of, string_of, trim, trim_of, views, word_end,
};

verus! {

/// The effective configuration of one host: the four settings that a
/// connection record names, and every other keyword with its value, in the
/// order in which the client printed them.
#[derive(Clone, Debug, PartialEq, Eq)]
pub struct SSHConfigConnection {
    pub server_name: String,
    pub username: String,
    pub hostname: String,
    pub port: String,
    pub options: Vec<(String, String)>,
}

/// What an effective configuration says, as plain text.
pub struct ResolvedView {
    pub server_name: Seq<char>,
    pub username: Seq<char>,
    pub hostname: Seq<char>,
    pub port: Seq<char>,
    pub options: Seq<(Seq<char>, Seq<char>)>,
}

/// The keyword/value pairs of `v` as plain text.
pub open spec fn pair_views(v: Seq<(String, String)>) -> Seq<(Seq<char>, Seq<char>)> {
    v.map_values(|p: (String, String)| (p.0@, p.1@))
}

impl View for SSHConfigConnection {
    type V = ResolvedView;

    open spec fn view(&self) -> ResolvedView {
        ResolvedView {
            server_name: self.server_name@,
            username: self.username@,
            hostname: self.hostname@,
            port: self.port@,
            options: pair_views(self.options@),
        }
    }
}

/// The views of a run of effective configurations.
pub open spec fn resolved_views(v: Seq<SSHConfigConnection>) -> Seq<ResolvedView> {
    v.map_values(|c: SSHConfigConnection| c@)
}

/// The configuration of a host of which nothing is known but its name.
pub open spec fn blank_record(name: Seq<char>) -> ResolvedView {
    ResolvedView {
        server_name: name,
        username: Seq::empty(),
        hostname: Seq::empty(),
        port: Seq::empty(),
        options: Seq::empty(),
    }
}

/// One printed line split into keyword and value: the keyword is the first
/// word, the value what follows the blanks after it. A line of fewer than
/// two words holds no pair.
pub open spec fn split_pair(line: Seq<char>) -> Option<(Seq<char>, Seq<char>)> {
    let t = trim(line);
    let e = word_end(t, 0);
    if e < t.len() {
        Some((t.subrange(0, e), t.subrange(first_ink(t, e), t.len() as int)))
    } else {
        None
    }
}

/// `c` after the setting `key`, already in lowercase, with the value `value`
/// has been recorded.
pub open spec fn store_pair(c: ResolvedView, key: Seq<char>, value: Seq<char>) -> ResolvedView {
    if key == "host"@ {
        ResolvedView { server_name: value, ..c }
    } else if key == "user"@ {
        ResolvedView { username: value, ..c }
    } else if key == "hostname"@ {
        ResolvedView { hostname: value, ..c }
    } else if key == "port"@ {
        ResolvedView { port: value, ..c }
    } else {
        ResolvedView { options: c.options.push((key, value)), ..c }
    }
}

/// `c` after one printed line has been read.
pub open spec fn read_line(c: ResolvedView, line: Seq<char>) -> ResolvedView {
    match split_pair(line) {
        Some((key, value)) => store_pair(c, lowercase_of(key), value),
        None => c,
    }
}

/// `c` after a run of printed lines has been read, first to last.
pub open spec fn read_lines(c: ResolvedView, ls: Seq<Seq<char>>) -> ResolvedView
    decreases ls.len(),
{
    if ls.len() == 0 {
        c
    } else {
        read_line(read_lines(c, ls.drop_last()), ls.last())
    }
}

/// The effective configuration that the printed text `output` gives for the
/// host asked for as `name`.
pub open spec fn resolved(name: Seq<char>, output: Seq<char>) -> ResolvedView {
    read_lines(blank_record(name), lines(output))
}

/// The keyword and the value of one printed line.
pub fn split_line(line: &[char]) -> (pair: Option<(Vec<char>, Vec<char>)>)
    ensures
        match pair {
            Some((key, value)) => split_pair(line@) == Some((key@, value@)),
            None => split_pair(line@).is_none(),
        },
{
    let t = trim_of(line);
    let t = t.as_slice();
    let mut e: usize = 0;
    while e < t.len() && !is_blank_char(t[e])
        invariant
            e <= t.len(),
            word_end(t@, e as int) == word_end(t@, 0),
        decreases t.len() - e,
    {
        e += 1;
    }
    if e >= t.len() {
        return None;
    }
    let mut a: usize = e;
    while a < t.len() && is_blank_char(t[a])
        invariant
            e <= a <= t.len(),
            first_ink(t@, a as int) == first_ink(t@, e as int),
        decreases t.len() - a,
    {
        a += 1;
    }
    let key = slice_of(t, 0, e);
    let value = slice_of(t, a, t.len());
    Some((key, value))
}

/// Records the setting `key`, which is in lowercase, with the value `value`.
pub fn record_pair(conn: &mut SSHConfigConnection, key: &[char], value: &[char])
    ensures
        final(conn)@ == store_pair(old(conn)@, key@, value@),
{
    let text = string_of(value);
    if is_text(key, "host") {
        conn.server_name = text;
    } else if is_text(key, "user") {
        conn.username = text;
    } else if is_text(key, "hostname") {
        conn.hostname = text;
    } else if is_text(key, "port") {
        conn.port = text;
    } else {
        let pair = (string_of(key), text);
        proof {
            assert(pair_views(conn.options@.push(pair)) == pair_views(conn.options@).push(
                (key@, value@),
            ));
        }
        conn.options.push(pair);
    }
}

/// The effective configuration that the printed text `output` gives for the
/// host asked for as `name`.
pub fn parse_output(name: &str, output: &str) -> (conn: SSHConfigConnection)
    ensures
        conn@ == resolved(name@, output@),
{
    let mut conn = SSHConfigConnection {
        server_name: String::from_str(name),
        username: String::new(),
        hostname: String::new(),
        port: String::new(),
        options: Vec::new(),
    };
    assert(pair_views(conn.options@) =~= Seq::empty());
    let content = chars_of(output);
    let ls = lines_of(content.as_slice());
    let mut i: usize = 0;
    assert(views(ls@).take(0) == Seq::<Seq<char>>::empty());
    while i < ls.len()
        invariant
            i <= ls.len(),
            views(ls@) == lines(output@),
            conn@ == read_lines(blank_record(name@), views(ls@).take(i as int)),
        decreases ls.len() - i,
    {
        proof {
            let next = views(ls@).take(i + 1);
            assert(next.drop_last() == views(ls@).take(i as int));
            assert(next.last() == ls@[i as int]@);
        }
        match split_line(ls[i].as_slice()) {
            Some((key, value)) => {
                let lowered = lowercase(key.as_slice());
                record_pair(&mut conn, lowered.as_slice(), value.as_slice());
            },
            None => {},
        }
        i += 1;
    }
    assert(views(ls@).take(i as int) == views(ls@));
    conn
}

/// The name asked for to learn the client's defaults. No `Host` pattern of
/// the files that are read may match it.
pub fn baseline_alias() -> (name: String)
    ensures
        name@ == "default_output"@,
{
    String::from_str("default_output")
}

/// Which run of the client a reply answers.
#[derive(Clone, Copy, Debug, PartialEq, Eq, Structural)]
pub enum Attempt {
    /// The client was asked for the configuration alone.
    Plain,
    /// The client was asked again, with a command to run on the host.
    WithCommand,
}

/// What to do with a reply of the client.
#[derive(Clone, Copy, Debug, PartialEq, Eq, Structural)]
pub enum Verdict {
    /// What the client printed is the host's configuration.
    Accept,
    /// The client has to be asked once more, this time with a command.
    Retry,
    /// The client could not be run for this host.
    GiveUp,
}

/// The arguments with which the client prints the configuration of `alias`.
pub open spec fn query_args(alias: Seq<char>, attempt: Attempt) -> Seq<Seq<char>> {
    match attempt {
        Attempt::Plain => seq!["-G"@, alias],
        Attempt::WithCommand => seq!["-G"@, alias, "uptime"@],
    }
}

/// Whether the diagnostics `stderr` say that the client could not start a
/// process of its own.
pub open spec fn out_of_processes(stderr: Seq<char>) -> bool {
    has_infix(stderr, "Cannot fork"@)
}

/// The verdict on a reply: `diagnostics` holds what the client wrote to its
/// error stream, or nothing where the client could not be run at all.
pub open spec fn verdict_on(attempt: Attempt, diagnostics: Option<Seq<char>>) -> Verdict {
    match diagnostics {
        None => Verdict::GiveUp,
        Some(stderr) => if attempt == Attempt::Plain && out_of_processes(stderr) {
            Verdict::Retry
        } else {
            Verdict::Accept
        },
    }
}

/// The arguments with which the client prints the configuration of `alias`.
pub fn client_args(alias: &str, attempt: Attempt) -> (args: Vec<String>)
    ensures
        crate::text::string_views(args@) == query_args(alias@, attempt),
{
    let mut args: Vec<String> = Vec::new();
    args.push(String::from_str("-G"));
    args.push(String::from_str(alias));
    match attempt {
        Attempt::Plain => {},
        Attempt::WithCommand => {
            args.push(String::from_str("uptime"));
        },
    }
    assert(crate::text::string_views(args@) =~= query_args(alias@, attempt));
    args
}

/// Decides what to do with a reply. `diagnostics` is what the client wrote to
/// its error stream, or `None` where the client could not be run. Only the
/// first reply for a host can ask for another run.
pub fn judge_reply(attempt: Attempt, diagnostics: Option<&str>) -> (verdict: Verdict)
    ensures
        verdict == verdict_on(
            attempt,
            match diagnostics {
                Some(stderr) => Some(stderr@),
                None => None,
            },
        ),
{
    match diagnostics {
        None => Verdict::GiveUp,
        Some(stderr) => {
            let text = chars_of(stderr);
            let mark = chars_of("Cannot fork");
            let retry = match attempt {
                Attempt::Plain => contains_text(text.as_slice(), mark.as_slice()),
                Attempt::WithCommand => false,
            };
            if retry {
                Verdict::Retry
            } else {
                Verdict::Accept
            }
        },
    }
}

/// An alias with what the client printed for it, as plain text.
pub type AnswerView = (Seq<char>, Option<Seq<char>>);

/// The view of one answer.
pub open spec fn answer_view(a: (String, Option<String>)) -> AnswerView {
    (
        a.0@,
        match a.1 {
            Some(output) => Some(output@),
            None => None,
        },
    )
}

/// The views of a run of answers.
pub open spec fn answer_views(v: Seq<(String, Option<String>)>) -> Seq<AnswerView> {
    v.map_values(|a: (String, Option<String>)| answer_view(a))
}

/// The configurations that a run of answers gives: one for every alias for
/// which the client printed something, in the order of the answers.
pub open spec fn resolve_all(answers: Seq<AnswerView>) -> Seq<ResolvedView>
    decreases answers.len(),
{
    if answers.len() == 0 {
        Seq::empty()
    } else {
        let before = resolve_all(answers.drop_last());
        match answers.last().1 {
            Some(output) => before.push(resolved(answers.last().0, output)),
            None => before,
        }
    }
}

/// Appends to `sshconfig` the effective configuration of every alias in
/// `answers` for which the client printed something, in the order of the
/// answers. An alias without output is passed over and does not stop the
/// others.
pub fn parse_from_ssh(
    answers: &Vec<(String, Option<String>)>,
    sshconfig: &mut Vec<SSHConfigConnection>,
)
    ensures
        resolved_views(final(sshconfig)@) == resolved_views(old(sshconfig)@) + resolve_all(
            answer_views(answers@),
        ),
{
    let mut i: usize = 0;
    assert(resolved_views(sshconfig@) + resolve_all(answer_views(answers@).take(0))
        == resolved_views(sshconfig@));
    while i < answers.len()
        invariant
            i <= answers.len(),
            resolved_views(sshconfig@) == resolved_views(old(sshconfig)@) + resolve_all(
                answer_views(answers@).take(i as int),
            ),
        decreases answers.len() - i,
    {
        proof {
            let next = answer_views(answers@).take(i + 1);
            assert(next.drop_last() == answer_views(answers@).take(i as int));
            assert(next.last() == answer_view(answers@[i as int]));
        }
        match &answers[i].1 {
            Some(output) => {
                let conn = parse_output(answers[i].0.as_str(), output.as_str());
                proof {
                    let seen = resolve_all(answer_views(answers@).take(i as int));
                    assert(resolved_views(sshconfig@.push(conn)) == resolved_views(
                        sshconfig@,
                    ).push(conn@));
                    assert((resolved_views(old(sshconfig)@) + seen).push(conn@)
                        == resolved_views(old(sshconfig)@) + seen.push(conn@));
                }
                sshconfig.push(conn);
            },
            None => {},
        }
        i += 1;
    }
    assert(answer_views(answers@).take(i as int) == answer_views(answers@));
}

} // verus!
