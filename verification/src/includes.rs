//! Configuration files that a configuration file pulls in with `Include`.
//!
//! Finding what a file names is done here; asking the file system what a
//! pattern matches is left to the caller, who hands the answers back.

use vstd::prelude::*;
use crate::hosts::{normalize, normalize_line};
use crate::text::{
    chars_of, contains_char, is_text, lines, lines_of, lowercase, lowercase_of, push_chars,
    push_text, slice_of, string_of, string_views, tokens, tokens_of, views,
};

verus! {

/// What an `Include` argument stands for.
#[derive(Clone, Debug, PartialEq, Eq)]
pub enum IncludeTarget {
    /// One file, named in full.
    File(String),
    /// A pattern, to be matched against the file system.
    Pattern(String),
}

/// What a target says, as plain text.
pub enum TargetView {
    File(Seq<char>),
    Pattern(Seq<char>),
}

impl View for IncludeTarget {
    type V = TargetView;

    open spec fn view(&self) -> TargetView {
        match self {
            IncludeTarget::File(path) => TargetView::File(path@),
            IncludeTarget::Pattern(pattern) => TargetView::Pattern(pattern@),
        }
    }
}

/// Whether the normalized line `n` is an `Include` directive: it is not
/// empty, is no comment, and its first word is the keyword in any case.
/// `lowered` is the lowercase form of that first word.
pub open spec fn names_files(n: Seq<char>, lowered: Seq<char>) -> bool {
    n.len() > 0 && n[0] != '#' && lowered == "include"@
}

/// The arguments of `line` where it is an `Include` directive: every word
/// after the keyword.
pub open spec fn line_args(line: Seq<char>) -> Seq<Seq<char>> {
    let n = normalize(line);
    if tokens(n).len() > 0 && names_files(n, lowercase_of(tokens(n)[0])) {
        tokens(n).skip(1)
    } else {
        Seq::empty()
    }
}

/// The `Include` arguments of a run of lines, in order.
pub open spec fn args_in(ls: Seq<Seq<char>>) -> Seq<Seq<char>>
    decreases ls.len(),
{
    if ls.len() == 0 {
        Seq::empty()
    } else {
        args_in(ls.drop_last()) + line_args(ls.last())
    }
}

/// The `Include` arguments of a file with the content `config`, in order.
pub open spec fn config_args(config: Seq<char>) -> Seq<Seq<char>> {
    args_in(lines(config))
}

/// `arg` with a leading `~` replaced by the home directory.
pub open spec fn expand_home(arg: Seq<char>, home: Seq<char>) -> Seq<char> {
    if arg.len() > 0 && arg[0] == '~' {
        home + arg.skip(1)
    } else {
        arg
    }
}

/// `path` as it is where it is absolute, and below the `.ssh` directory of
/// the home directory where it is not.
pub open spec fn anchored(path: Seq<char>, home: Seq<char>, absolute: bool) -> Seq<char> {
    if absolute {
        path
    } else {
        home + "/.ssh/"@ + path
    }
}

/// The target that a path stands for: a pattern where it holds the wildcard
/// `*`, one file otherwise.
pub open spec fn target_of(path: Seq<char>) -> TargetView {
    if path.contains('*') {
        TargetView::Pattern(path)
    } else {
        TargetView::File(path)
    }
}

/// The target of the argument `arg`, where `absolute` tells whether the
/// argument, with the home directory filled in, is an absolute path.
pub open spec fn target_for(arg: Seq<char>, home: Seq<char>, absolute: bool) -> TargetView {
    target_of(anchored(expand_home(arg, home), home, absolute))
}

/// `Path::is_absolute` tells whether a path is absolute by the rules of the
/// platform the program runs on. Nothing is claimed of the answer.
#[verifier::external_body]
fn path_is_absolute(path: &str) -> (absolute: bool) {
    std::path::Path::new(path).is_absolute()
}

/// Whether the normalized line `n` is an `Include` directive, given the
/// lowercase form of its first word.
pub fn is_include_directive(n: &[char], lowered: &[char]) -> (r: bool)
    ensures
        r == names_files(n@, lowered@),
{
    n.len() > 0 && n[0] != '#' && is_text(lowered, "include")
}

/// The arguments of `line` where it is an `Include` directive.
pub fn args_of_line(line: &[char]) -> (out: Vec<Vec<char>>)
    ensures
        views(out@) == line_args(line@),
{
    let n = normalize_line(line);
    let mut words = tokens_of(n.as_slice());
    if words.len() == 0 {
        return words;
    }
    let lowered = lowercase(words[0].as_slice());
    if !is_include_directive(n.as_slice(), lowered.as_slice()) {
        return Vec::new();
    }
    let keyword = words.remove(0);
    assert(views(words@) =~= tokens(n@).skip(1));
    words
}

/// The `Include` arguments of a file with the content `config`, in order.
pub fn include_args(config: &str) -> (out: Vec<Vec<char>>)
    ensures
        views(out@) == config_args(config@),
{
    let content = chars_of(config);
    let ls = lines_of(content.as_slice());
    let mut out: Vec<Vec<char>> = Vec::new();
    let mut i: usize = 0;
    assert(views(ls@).take(0) == Seq::<Seq<char>>::empty());
    while i < ls.len()
        invariant
            i <= ls.len(),
            views(ls@) == lines(config@),
            views(out@) == args_in(views(ls@).take(i as int)),
        decreases ls.len() - i,
    {
        let mut found = args_of_line(ls[i].as_slice());
        proof {
            let next = views(ls@).take(i + 1);
            assert(next.drop_last() == views(ls@).take(i as int));
            assert(next.last() == ls@[i as int]@);
            assert(views(out@ + found@) == views(out@) + views(found@));
        }
        out.append(&mut found);
        i += 1;
    }
    assert(views(ls@).take(i as int) == views(ls@));
    out
}

/// `arg` with a leading `~` replaced by `home`.
pub fn expand_home_of(arg: &[char], home: &[char]) -> (out: Vec<char>)
    ensures
        out@ == expand_home(arg@, home@),
{
    let mut out: Vec<char> = Vec::new();
    if arg.len() > 0 && arg[0] == '~' {
        push_chars(&mut out, home);
        let rest = slice_of(arg, 1, arg.len());
        push_chars(&mut out, rest.as_slice());
        assert(out@ == home@ + arg@.skip(1));
    } else {
        push_chars(&mut out, arg);
        assert(out@ == arg@);
    }
    out
}

/// The target of the path `expanded`, an argument with the home directory
/// filled in, where `absolute` tells whether that path is absolute.
pub fn target_of_path(expanded: &[char], home: &[char], absolute: bool) -> (target: IncludeTarget)
    ensures
        target@ == target_of(anchored(expanded@, home@, absolute)),
{
    let mut path: Vec<char> = Vec::new();
    if !absolute {
        push_chars(&mut path, home);
        push_text(&mut path, "/.ssh/");
    }
    push_chars(&mut path, expanded);
    assert(path@ == anchored(expanded@, home@, absolute));
    if contains_char(path.as_slice(), '*') {
        IncludeTarget::Pattern(string_of(path.as_slice()))
    } else {
        IncludeTarget::File(string_of(path.as_slice()))
    }
}

/// The targets that the `Include` directives of a file with the content
/// `config` name, one for every argument, in the order of the file. `home`
/// is the user's home directory. Whether an argument is absolute is for the
/// platform to say; each target is the one that belongs to its answer.
pub fn include_targets(config: &str, home: &str) -> (targets: Vec<IncludeTarget>)
    ensures
        targets@.len() == config_args(config@).len(),
        forall|i: int|
            0 <= i < targets@.len() ==> {
                ||| (#[trigger] targets@[i])@ == target_for(config_args(config@)[i], home@, true)
                ||| targets@[i]@ == target_for(config_args(config@)[i], home@, false)
            },
{
    let args = include_args(config);
    let home_chars = chars_of(home);
    let mut targets: Vec<IncludeTarget> = Vec::new();
    let mut i: usize = 0;
    while i < args.len()
        invariant
            i <= args.len(),
            views(args@) == config_args(config@),
            home_chars@ == home@,
            targets@.len() == i,
            forall|k: int|
                0 <= k < i ==> {
                    ||| (#[trigger] targets@[k])@ == target_for(
                        config_args(config@)[k],
                        home@,
                        true,
                    )
                    ||| targets@[k]@ == target_for(config_args(config@)[k], home@, false)
                },
        decreases args.len() - i,
    {
        let expanded = expand_home_of(args[i].as_slice(), home_chars.as_slice());
        let shown = string_of(expanded.as_slice());
        let absolute = path_is_absolute(shown.as_str());
        let target = target_of_path(expanded.as_slice(), home_chars.as_slice(), absolute);
        assert(views(args@)[i as int] == args@[i as int]@);
        targets.push(target);
        i += 1;
    }
    targets
}

/// What became of one target once the file system was asked.
#[derive(Clone, Debug, PartialEq, Eq)]
pub enum Included {
    /// A file named in full: nothing was asked.
    File(String),
    /// A pattern with what it matched, in the order in which the matches
    /// came; `None` stands for a match that could not be read.
    Matches { pattern: String, entries: Vec<Option<String>> },
    /// A pattern that is no valid pattern.
    BadPattern(String),
}

/// A problem met while expanding a pattern.
#[derive(Clone, Debug, PartialEq, Eq)]
pub enum IncludeIssue {
    /// The pattern is no valid pattern.
    BadPattern(String),
    /// One match of the pattern could not be read.
    Unreadable(String),
}

/// What an outcome says, as plain text.
pub enum IncludedView {
    File(Seq<char>),
    Matches { pattern: Seq<char>, entries: Seq<Option<Seq<char>>> },
    BadPattern(Seq<char>),
}

/// What an issue says, as plain text.
pub enum IssueView {
    BadPattern(Seq<char>),
    Unreadable(Seq<char>),
}

/// The matches of a pattern as plain text.
pub open spec fn entry_views(entries: Seq<Option<String>>) -> Seq<Option<Seq<char>>> {
    entries.map_values(
        |e: Option<String>|
            match e {
                Some(path) => Some(path@),
                None => None,
            },
    )
}

impl View for Included {
    type V = IncludedView;

    open spec fn view(&self) -> IncludedView {
        match self {
            Included::File(path) => IncludedView::File(path@),
            Included::Matches { pattern, entries } => IncludedView::Matches {
                pattern: pattern@,
                entries: entry_views(entries@),
            },
            Included::BadPattern(pattern) => IncludedView::BadPattern(pattern@),
        }
    }
}

impl View for IncludeIssue {
    type V = IssueView;

    open spec fn view(&self) -> IssueView {
        match self {
            IncludeIssue::BadPattern(pattern) => IssueView::BadPattern(pattern@),
            IncludeIssue::Unreadable(pattern) => IssueView::Unreadable(pattern@),
        }
    }
}

/// The views of a run of outcomes.
pub open spec fn included_views(v: Seq<Included>) -> Seq<IncludedView> {
    v.map_values(|o: Included| o@)
}

/// The views of a run of issues.
pub open spec fn issue_views(v: Seq<IncludeIssue>) -> Seq<IssueView> {
    v.map_values(|o: IncludeIssue| o@)
}

/// The readable matches among `entries`, in order.
pub open spec fn readable(entries: Seq<Option<Seq<char>>>) -> Seq<Seq<char>>
    decreases entries.len(),
{
    if entries.len() == 0 {
        Seq::empty()
    } else {
        match entries.last() {
            Some(path) => readable(entries.drop_last()).push(path),
            None => readable(entries.drop_last()),
        }
    }
}

/// One issue for every unreadable match among `entries`.
pub open spec fn unreadable(pattern: Seq<char>, entries: Seq<Option<Seq<char>>>) -> Seq<IssueView>
    decreases entries.len(),
{
    if entries.len() == 0 {
        Seq::empty()
    } else {
        match entries.last() {
            Some(path) => unreadable(pattern, entries.drop_last()),
            None => unreadable(pattern, entries.drop_last()).push(IssueView::Unreadable(pattern)),
        }
    }
}

/// The paths that one outcome contributes.
pub open spec fn paths_of(outcome: IncludedView) -> Seq<Seq<char>> {
    match outcome {
        IncludedView::File(path) => seq![path],
        IncludedView::Matches { pattern, entries } => readable(entries),
        IncludedView::BadPattern(pattern) => Seq::empty(),
    }
}

/// The issues that one outcome holds.
pub open spec fn issues_of(outcome: IncludedView) -> Seq<IssueView> {
    match outcome {
        IncludedView::File(path) => Seq::empty(),
        IncludedView::Matches { pattern, entries } => unreadable(pattern, entries),
        IncludedView::BadPattern(pattern) => seq![IssueView::BadPattern(pattern)],
    }
}

/// The paths that a run of outcomes contributes, in order.
pub open spec fn all_paths(outcomes: Seq<IncludedView>) -> Seq<Seq<char>>
    decreases outcomes.len(),
{
    if outcomes.len() == 0 {
        Seq::empty()
    } else {
        all_paths(outcomes.drop_last()) + paths_of(outcomes.last())
    }
}

/// The issues that a run of outcomes holds, in order.
pub open spec fn all_issues(outcomes: Seq<IncludedView>) -> Seq<IssueView>
    decreases outcomes.len(),
{
    if outcomes.len() == 0 {
        Seq::empty()
    } else {
        all_issues(outcomes.drop_last()) + issues_of(outcomes.last())
    }
}

/// Appends what one outcome contributes.
fn take_in(paths: &mut Vec<String>, issues: &mut Vec<IncludeIssue>, outcome: &Included)
    ensures
        string_views(final(paths)@) == string_views(old(paths)@) + paths_of(outcome@),
        issue_views(final(issues)@) == issue_views(old(issues)@) + issues_of(outcome@),
{
    match outcome {
        Included::File(path) => {
            assert(string_views(paths@.push(*path)) == string_views(paths@) + seq![path@]);
            assert(issue_views(issues@) + Seq::<IssueView>::empty() == issue_views(issues@));
            paths.push(path.clone());
        },
        Included::BadPattern(pattern) => {
            assert(issue_views(issues@.push(IncludeIssue::BadPattern(*pattern))) == issue_views(
                issues@,
            ) + seq![IssueView::BadPattern(pattern@)]);
            assert(string_views(paths@) + Seq::<Seq<char>>::empty() == string_views(paths@));
            issues.push(IncludeIssue::BadPattern(pattern.clone()));
        },
        Included::Matches { pattern, entries } => {
            let mut i: usize = 0;
            assert(entry_views(entries@).take(0) =~= Seq::empty());
            assert(string_views(paths@) + Seq::<Seq<char>>::empty() == string_views(paths@));
            assert(issue_views(issues@) + Seq::<IssueView>::empty() == issue_views(issues@));
            while i < entries.len()
                invariant
                    i <= entries.len(),
                    string_views(paths@) == string_views(old(paths)@) + readable(
                        entry_views(entries@).take(i as int),
                    ),
                    issue_views(issues@) == issue_views(old(issues)@) + unreadable(
                        pattern@,
                        entry_views(entries@).take(i as int),
                    ),
                decreases entries.len() - i,
            {
                proof {
                    let next = entry_views(entries@).take(i + 1);
                    assert(next.drop_last() == entry_views(entries@).take(i as int));
                    assert(next.last() == entry_views(entries@)[i as int]);
                }
                match &entries[i] {
                    Some(path) => {
                        proof {
                            let seen = readable(entry_views(entries@).take(i as int));
                            assert(string_views(paths@.push(*path)) == string_views(paths@).push(
                                path@,
                            ));
                            assert((string_views(old(paths)@) + seen).push(path@) == string_views(
                                old(paths)@,
                            ) + seen.push(path@));
                        }
                        paths.push(path.clone());
                    },
                    None => {
                        proof {
                            let seen = unreadable(pattern@, entry_views(entries@).take(i as int));
                            let issue = IncludeIssue::Unreadable(*pattern);
                            assert(issue_views(issues@.push(issue)) == issue_views(issues@).push(
                                issue@,
                            ));
                            assert((issue_views(old(issues)@) + seen).push(issue@) == issue_views(
                                old(issues)@,
                            ) + seen.push(issue@));
                        }
                        issues.push(IncludeIssue::Unreadable(pattern.clone()));
                    },
                }
                i += 1;
            }
            assert(entry_views(entries@).take(i as int) == entry_views(entries@));
        },
    }
}

/// Appends to `ssh_config_paths` the files that the outcomes in `found`
/// contribute, in order: a file named in full as it is, and every readable
/// match of a pattern. The result lists what went wrong; a problem with one
/// pattern does not keep the others from being taken in.
pub fn get_includes(ssh_config_paths: &mut Vec<String>, found: &Vec<Included>) -> (issues: Vec<
    IncludeIssue,
>)
    ensures
        string_views(final(ssh_config_paths)@) == string_views(old(ssh_config_paths)@) + all_paths(
            included_views(found@),
        ),
        issue_views(issues@) == all_issues(included_views(found@)),
{
    let mut issues: Vec<IncludeIssue> = Vec::new();
    let mut i: usize = 0;
    assert(included_views(found@).take(0) =~= Seq::empty());
    assert(string_views(ssh_config_paths@) + Seq::<Seq<char>>::empty() == string_views(
        ssh_config_paths@,
    ));
    assert(issue_views(issues@) =~= Seq::empty());
    while i < found.len()
        invariant
            i <= found.len(),
            string_views(ssh_config_paths@) == string_views(old(ssh_config_paths)@) + all_paths(
                included_views(found@).take(i as int),
            ),
            issue_views(issues@) == all_issues(included_views(found@).take(i as int)),
        decreases found.len() - i,
    {
        proof {
            let seen = included_views(found@).take(i as int);
            let next = included_views(found@).take(i + 1);
            assert(next.drop_last() == seen);
            assert(next.last() == found@[i as int]@);
            assert(string_views(old(ssh_config_paths)@) + all_paths(seen) + paths_of(
                found@[i as int]@,
            ) == string_views(old(ssh_config_paths)@) + (all_paths(seen) + paths_of(
                found@[i as int]@,
            )));
        }
        take_in(ssh_config_paths, &mut issues, &found[i]);
        i += 1;
    }
    assert(included_views(found@).take(i as int) == included_views(found@));
    issues
}

/// An argument that is an absolute path, holds no wildcard and does not
/// begin with `~` stands for exactly that file.
pub proof fn law_absolute_path_is_itself(arg: Seq<char>, home: Seq<char>)
    requires
        !arg.contains('*'),
        arg.len() == 0 || arg[0] != '~',
    ensures
        target_for(arg, home, true) == TargetView::File(arg),
        paths_of(IncludedView::File(arg)) == seq![arg],
{
}

/// An argument that is a relative path, holds no wildcard and does not
/// begin with `~` stands for the file of that name below the `.ssh`
/// directory of the home directory, as long as the home directory holds no
/// wildcard either.
pub proof fn law_relative_path_is_below_home(arg: Seq<char>, home: Seq<char>)
    requires
        !arg.contains('*'),
        !home.contains('*'),
        arg.len() == 0 || arg[0] != '~',
    ensures
        target_for(arg, home, false) == TargetView::File(home + "/.ssh/"@ + arg),
{
    reveal_strlit("/.ssh/");
    let full = home + "/.ssh/"@ + arg;
    if full.contains('*') {
        let i = choose|i: int| 0 <= i < full.len() && full[i] == '*';
        if i < home.len() {
            assert(home[i] == '*');
        } else if i < home.len() + 6 {
            assert(full[i] == "/.ssh/"@[i - home.len()]);
        } else {
            assert(arg[i - home.len() - 6] == '*');
        }
    }
}

/// An argument with a wildcard stands for a pattern, and what the pattern
/// contributes is what the file system matched, in the order in which the
/// matches came.
pub proof fn law_wildcard_is_matched(
    arg: Seq<char>,
    home: Seq<char>,
    absolute: bool,
    matches: Seq<Seq<char>>,
)
    requires
        arg.contains('*'),
        arg[0] != '~',
    ensures
        target_for(arg, home, absolute) is Pattern,
        paths_of(
            IncludedView::Matches {
                pattern: target_for(arg, home, absolute)->Pattern_0,
                entries: matches.map_values(|m: Seq<char>| Some(m)),
            },
        ) == matches,
{
    let i = choose|i: int| 0 <= i < arg.len() && arg[i] == '*';
    let full = anchored(arg, home, absolute);
    if absolute {
        assert(full[i] == '*');
    } else {
        assert(full[home.len() + "/.ssh/"@.len() + i] == '*');
    }
    lemma_all_readable(matches);
}

/// Where every match is readable, all of them are contributed.
pub proof fn lemma_all_readable(matches: Seq<Seq<char>>)
    ensures
        readable(matches.map_values(|m: Seq<char>| Some(m))) == matches,
    decreases matches.len(),
{
    let entries = matches.map_values(|m: Seq<char>| Some(m));
    if matches.len() > 0 {
        lemma_all_readable(matches.drop_last());
        assert(entries.drop_last() == matches.drop_last().map_values(|m: Seq<char>| Some(m)));
        assert(matches.drop_last().push(matches.last()) == matches);
    }
}

/// The system-wide configuration files of the client, one per platform
/// convention. Which of them exist is for the file system to say.
pub open spec fn system_configs() -> Seq<Seq<char>> {
    seq!["/etc/ssh/ssh_config"@, "C:\\ProgramData\\ssh\\ssh_config"@]
}

/// The system-wide configuration files of the client.
pub fn system_config_paths() -> (paths: Vec<String>)
    ensures
        string_views(paths@) == system_configs(),
{
    let mut paths: Vec<String> = Vec::new();
    paths.push(String::from_str("/etc/ssh/ssh_config"));
    paths.push(String::from_str("C:\\ProgramData\\ssh\\ssh_config"));
    assert(string_views(paths@) =~= system_configs());
    paths
}

/// Whether a system-wide configuration file is to be read, given what the
/// file system said of its existence: only a plain yes counts, neither a no
/// nor a failure to tell.
pub fn check_systemsshconfig_path(exists: Option<bool>) -> (present: bool)
    ensures
        present == (exists == Some(true)),
{
    match exists {
        Some(true) => true,
        Some(false) => false,
        None => false,
    }
}

/// The configuration files found so far, and how far they have been looked
/// through for further files.
#[derive(Clone, Debug, PartialEq, Eq)]
pub struct ConfigScan {
    /// The files in the order in which they were found. A file named twice
    /// stands twice.
    pub paths: Vec<String>,
    /// The files before this index have been dealt with.
    pub cursor: usize,
}

/// Whether the path at index `i` stands earlier in `paths` too.
pub open spec fn is_repeat(paths: Seq<Seq<char>>, i: int) -> bool {
    exists|j: int| 0 <= j < i && #[trigger] paths[j] == paths[i]
}

/// The first index at or after `i` whose path stands there for the first
/// time, or the length of `paths` where there is none.
pub open spec fn next_fresh(paths: Seq<Seq<char>>, i: int) -> int
    decreases paths.len() - i,
{
    if i < 0 || i >= paths.len() {
        paths.len() as int
    } else if is_repeat(paths, i) {
        next_fresh(paths, i + 1)
    } else {
        i
    }
}

/// Whether `path` stands among the first `upto` entries of `paths`.
fn stands_before(paths: &Vec<String>, upto: usize, path: &String) -> (r: bool)
    requires
        upto <= paths@.len(),
    ensures
        r == exists|j: int| 0 <= j < upto && #[trigger] string_views(paths@)[j] == path@,
{
    let mut j: usize = 0;
    while j < upto
        invariant
            j <= upto <= paths@.len(),
            forall|k: int| 0 <= k < j ==> #[trigger] string_views(paths@)[k] != path@,
        decreases upto - j,
    {
        if paths[j] == *path {
            assert(string_views(paths@)[j as int] == path@);
            return true;
        }
        j += 1;
    }
    false
}

impl ConfigScan {
    /// A scan that starts from the one file `root`.
    pub fn new(root: String) -> (scan: ConfigScan)
        ensures
            string_views(scan.paths@) == seq![root@],
            scan.cursor == 0,
    {
        let mut paths: Vec<String> = Vec::new();
        paths.push(root);
        assert(string_views(paths@) =~= seq![root@]);
        ConfigScan { paths, cursor: 0 }
    }

    /// Adds a file to look through.
    pub fn add_root(&mut self, root: String)
        ensures
            string_views(final(self).paths@) == string_views(old(self).paths@).push(root@),
            final(self).cursor == old(self).cursor,
    {
        assert(string_views(self.paths@.push(root)) == string_views(self.paths@).push(root@));
        self.paths.push(root);
    }

    /// The next file to look through: the first one from the cursor on that
    /// has not stood in the list before, so that no file is looked through
    /// twice. The cursor moves to it. `None` means that every file has been
    /// dealt with.
    pub fn pending(&mut self) -> (path: Option<String>)
        ensures
            final(self).paths@ == old(self).paths@,
            final(self).cursor == next_fresh(
                string_views(old(self).paths@),
                old(self).cursor as int,
            ),
            match path {
                Some(p) => final(self).cursor < final(self).paths@.len() && p@ == string_views(
                    final(self).paths@,
                )[final(self).cursor as int],
                None => final(self).cursor == final(self).paths@.len(),
            },
    {
        if self.cursor > self.paths.len() {
            self.cursor = self.paths.len();
        }
        while self.cursor < self.paths.len()
            invariant
                self.paths@ == old(self).paths@,
                self.cursor <= self.paths@.len(),
                next_fresh(string_views(self.paths@), self.cursor as int) == next_fresh(
                    string_views(old(self).paths@),
                    old(self).cursor as int,
                ),
            decreases self.paths@.len() - self.cursor,
        {
            if !stands_before(&self.paths, self.cursor, &self.paths[self.cursor]) {
                return Some(self.paths[self.cursor].clone());
            }
            self.cursor += 1;
        }
        None
    }

    /// Takes in what the file at the cursor names and moves the cursor past
    /// that file. The paths that the outcomes contribute are appended, in
    /// order; the result lists what went wrong.
    pub fn absorb(&mut self, found: &Vec<Included>) -> (issues: Vec<IncludeIssue>)
        ensures
            string_views(final(self).paths@) == string_views(old(self).paths@) + all_paths(
                included_views(found@),
            ),
            final(self).cursor == if old(self).cursor < usize::MAX {
                old(self).cursor + 1
            } else {
                old(self).cursor as int
            },
            issue_views(issues@) == all_issues(included_views(found@)),
    {
        let issues = get_includes(&mut self.paths, found);
        if self.cursor < usize::MAX {
            self.cursor += 1;
        }
        issues
    }
}

} // verus!
