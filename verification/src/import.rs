//! Turning effective configurations into connection records and appending
//! them to the store.

use vstd::prelude::*;
use crate::connection::{connection_views, ConnectionView, SSHConnection};
use crate::diff::{compare_with_defaults, without_defaults};
use crate::options::{get_options, option_flag};
use crate::resolve::{
    answer_views, baseline_alias, pair_views, parse_from_ssh, parse_output, resolve_all, resolved,
    resolved_views, AnswerView, ResolvedView, SSHConfigConnection,
};

verus! {

/// The flags for a run of keyword/value pairs: the fragment of each pair, one
/// after the other.
pub open spec fn flags_of(options: Seq<(Seq<char>, Seq<char>)>) -> Seq<char>
    decreases options.len(),
{
    if options.len() == 0 {
        Seq::empty()
    } else {
        flags_of(options.drop_last()) + option_flag(options.last().0, options.last().1)
    }
}

/// The connection record that stands for the effective configuration `c`.
/// The group is left empty.
pub open spec fn imported(c: ResolvedView) -> ConnectionView {
    ConnectionView {
        server_name: c.server_name,
        group_name: Seq::empty(),
        username: c.username,
        hostname: c.hostname,
        port: c.port,
        options: flags_of(c.options),
    }
}

/// The records that an import adds: one for every answered alias, holding
/// what the alias sets apart from the baseline.
pub open spec fn import_batch(baseline_output: Seq<char>, answers: Seq<AnswerView>) -> Seq<
    ConnectionView,
> {
    let baseline = resolved("default_output"@, baseline_output);
    resolve_all(answers).map_values(|c: ResolvedView| imported(without_defaults(c, baseline)))
}

/// Why an import added nothing.
#[derive(Clone, Copy, Debug, PartialEq, Eq, Structural)]
pub enum ImportError {
    /// The client printed no defaults to compare with.
    NoBaseline,
}

/// The flags for `options`, joined as they are.
pub fn flags_for(options: &Vec<(String, String)>) -> (flags: String)
    ensures
        flags@ == flags_of(pair_views(options@)),
{
    let mut flags = String::new();
    let mut i: usize = 0;
    assert(pair_views(options@).take(0) =~= Seq::empty());
    while i < options.len()
        invariant
            i <= options.len(),
            flags@ == flags_of(pair_views(options@).take(i as int)),
        decreases options.len() - i,
    {
        let fragment = get_options(options[i].0.as_str(), options[i].1.as_str());
        proof {
            let next = pair_views(options@).take(i + 1);
            assert(next.drop_last() == pair_views(options@).take(i as int));
            assert(next.last() == (options@[i as int].0@, options@[i as int].1@));
        }
        flags.append(fragment.as_str());
        i += 1;
    }
    assert(pair_views(options@).take(i as int) == pair_views(options@));
    flags
}

/// Appends to `connections` one record for every configuration in
/// `sshconfig`, in order.
pub fn add_to_appconfig(sshconfig: Vec<SSHConfigConnection>, connections: &mut Vec<SSHConnection>)
    ensures
        connection_views(final(connections)@) == connection_views(old(connections)@)
            + resolved_views(sshconfig@).map_values(|c: ResolvedView| imported(c)),
{
    let ghost make = |c: ResolvedView| imported(c);
    let mut i: usize = 0;
    assert(connection_views(connections@) + resolved_views(sshconfig@).take(0).map_values(make)
        == connection_views(connections@));
    while i < sshconfig.len()
        invariant
            i <= sshconfig.len(),
            make == |c: ResolvedView| imported(c),
            connection_views(connections@) == connection_views(old(connections)@)
                + resolved_views(sshconfig@).take(i as int).map_values(make),
        decreases sshconfig.len() - i,
    {
        let connection = &sshconfig[i];
        let record = SSHConnection {
            server_name: connection.server_name.clone(),
            group_name: String::new(),
            username: connection.username.clone(),
            hostname: connection.hostname.clone(),
            port: connection.port.clone(),
            options: flags_for(&connection.options),
        };
        proof {
            let seen = resolved_views(sshconfig@).take(i as int);
            assert(record@ == make(connection@));
            assert(connection_views(connections@.push(record)) == connection_views(
                connections@,
            ).push(record@));
            assert(resolved_views(sshconfig@).take(i + 1) == seen.push(connection@));
            assert(seen.push(connection@).map_values(make) == seen.map_values(make).push(
                make(connection@),
            ));
            assert((connection_views(old(connections)@) + seen.map_values(make)).push(record@)
                == connection_views(old(connections)@) + seen.map_values(make).push(record@));
        }
        connections.push(record);
        i += 1;
    }
    assert(resolved_views(sshconfig@).take(i as int) == resolved_views(sshconfig@));
}

/// Imports the hosts in `answers` into `connections`.
///
/// `baseline_output` is what the client printed for the baseline alias, or
/// `None` where it printed nothing; `answers` pairs every alias with what
/// the client printed for it. With a baseline, one record per answered alias
/// is appended, in the order of the answers, and the result is the position
/// at which the selection comes to stand: the new length of the store.
/// Without one the store is left as it is.
pub fn import_config(
    connections: &mut Vec<SSHConnection>,
    baseline_output: Option<&str>,
    answers: &Vec<(String, Option<String>)>,
) -> (selected: Result<usize, ImportError>)
    ensures
        match baseline_output {
            Some(output) => {
                &&& connection_views(final(connections)@) == connection_views(old(connections)@)
                    + import_batch(output@, answer_views(answers@))
                &&& selected == Ok::<usize, ImportError>(final(connections)@.len() as usize)
            },
            None => {
                &&& final(connections)@ == old(connections)@
                &&& selected == Err::<usize, ImportError>(ImportError::NoBaseline)
            },
        },
{
    match baseline_output {
        None => Err(ImportError::NoBaseline),
        Some(output) => {
            let name = baseline_alias();
            let default_output_object = parse_output(name.as_str(), output);
            let mut sshconfig: Vec<SSHConfigConnection> = Vec::new();
            parse_from_ssh(answers, &mut sshconfig);
            assert(resolved_views(sshconfig@) == resolve_all(answer_views(answers@)));
            compare_with_defaults(&mut sshconfig, default_output_object);
            proof {
                let baseline = resolved("default_output"@, output@);
                let cut = |c: ResolvedView| without_defaults(c, baseline);
                let make = |c: ResolvedView| imported(c);
                let both = |c: ResolvedView| imported(without_defaults(c, baseline));
                assert(resolve_all(answer_views(answers@)).map_values(cut).map_values(make)
                    == resolve_all(answer_views(answers@)).map_values(both));
            }
            add_to_appconfig(sshconfig, connections);
            Ok(connections.len())
        },
    }
}

/// A host that sets nothing apart from the baseline is imported without
/// flags, and its name, user, host and port are carried over as the client
/// printed them.
pub proof fn law_unchanged_settings_give_no_flags(c: ResolvedView, baseline: ResolvedView)
    requires
        forall|i: int| 0 <= i < c.options.len() ==> baseline.options.contains(#[trigger] c.options[i]),
    ensures
        imported(without_defaults(c, baseline)).options == Seq::<char>::empty(),
        imported(without_defaults(c, baseline)).server_name == c.server_name,
        imported(without_defaults(c, baseline)).username == c.username,
        imported(without_defaults(c, baseline)).hostname == c.hostname,
        imported(without_defaults(c, baseline)).port == c.port,
        imported(without_defaults(c, baseline)).group_name == Seq::<char>::empty(),
{
    let differs = |p: (Seq<char>, Seq<char>)| !baseline.options.contains(p);
    assert(c.options.all(|p: (Seq<char>, Seq<char>)| !differs(p)));
    c.options.lemma_all_neg_filter_empty(differs);
    assert(c.options.filter(differs) =~= Seq::empty());
}

/// The flags of a host are the fragments of its overrides and of nothing
/// else: a pair that the baseline holds too adds no fragment.
pub proof fn law_flags_skip_shared_pair(
    options: Seq<(Seq<char>, Seq<char>)>,
    pair: (Seq<char>, Seq<char>),
    baseline: Seq<(Seq<char>, Seq<char>)>,
)
    requires
        baseline.contains(pair),
    ensures
        flags_of(crate::diff::override_set(options.push(pair), baseline)) == flags_of(
            crate::diff::override_set(options, baseline),
        ),
{
    let differs = |p: (Seq<char>, Seq<char>)| !baseline.contains(p);
    options.lemma_filter_push(pair, differs);
}

} // verus!
