//! Telling the settings that a host overrides from the client's defaults.

use vstd::prelude::*;
use crate::resolve::{pair_views, resolved_views, ResolvedView, SSHConfigConnection};

verus! {

/// The pairs of `options` that `baseline` does not hold: what a host sets
/// apart from the defaults, in the order of `options`.
pub open spec fn override_set(
    options: Seq<(Seq<char>, Seq<char>)>,
    baseline: Seq<(Seq<char>, Seq<char>)>,
) -> Seq<(Seq<char>, Seq<char>)> {
    options.filter(|p: (Seq<char>, Seq<char>)| !baseline.contains(p))
}

/// `c` with its options cut down to those that differ from `baseline`.
pub open spec fn without_defaults(c: ResolvedView, baseline: ResolvedView) -> ResolvedView {
    ResolvedView { options: override_set(c.options, baseline.options), ..c }
}

/// Whether `options` holds the pair `key`, `value`.
pub fn holds_pair(options: &Vec<(String, String)>, key: &String, value: &String) -> (r: bool)
    ensures
        r == pair_views(options@).contains((key@, value@)),
{
    let mut i: usize = 0;
    while i < options.len()
        invariant
            i <= options.len(),
            forall|k: int| 0 <= k < i ==> pair_views(options@)[k] != (key@, value@),
        decreases options.len() - i,
    {
        if options[i].0 == *key && options[i].1 == *value {
            assert(pair_views(options@)[i as int] == (key@, value@));
            return true;
        }
        i += 1;
    }
    false
}

/// The pairs of `options` that `baseline` does not hold.
pub fn overrides_of(options: &Vec<(String, String)>, baseline: &Vec<(String, String)>) -> (kept:
    Vec<(String, String)>)
    ensures
        pair_views(kept@) == override_set(pair_views(options@), pair_views(baseline@)),
{
    let mut kept: Vec<(String, String)> = Vec::new();
    let ghost differs = |p: (Seq<char>, Seq<char>)| !pair_views(baseline@).contains(p);
    let mut i: usize = 0;
    assert(pair_views(options@).take(0).filter(differs) =~= pair_views(kept@));
    while i < options.len()
        invariant
            i <= options.len(),
            differs == |p: (Seq<char>, Seq<char>)| !pair_views(baseline@).contains(p),
            pair_views(kept@) == pair_views(options@).take(i as int).filter(differs),
        decreases options.len() - i,
    {
        let ghost pair = pair_views(options@)[i as int];
        proof {
            let seen = pair_views(options@).take(i as int);
            assert(pair_views(options@).take(i + 1) == seen.push(pair));
            seen.lemma_filter_push(pair, differs);
        }
        if !holds_pair(baseline, &options[i].0, &options[i].1) {
            let copy = (options[i].0.clone(), options[i].1.clone());
            proof {
                assert(pair_views(kept@.push(copy)) == pair_views(kept@).push(pair));
            }
            kept.push(copy);
        }
        i += 1;
    }
    assert(pair_views(options@).take(i as int) == pair_views(options@));
    kept
}

/// Cuts the options of every configuration in `sshconfig` down to the pairs
/// that the baseline `default_output_object` does not hold. Everything else
/// stays as it is.
pub fn compare_with_defaults(
    sshconfig: &mut Vec<SSHConfigConnection>,
    default_output_object: SSHConfigConnection,
)
    ensures
        resolved_views(final(sshconfig)@) == resolved_views(old(sshconfig)@).map_values(
            |c: ResolvedView| without_defaults(c, default_output_object@),
        ),
{
    let mut cut: Vec<SSHConfigConnection> = Vec::new();
    let ghost trim_down = |c: ResolvedView| without_defaults(c, default_output_object@);
    let mut i: usize = 0;
    assert(resolved_views(cut@) =~= resolved_views(sshconfig@).take(0).map_values(trim_down));
    while i < sshconfig.len()
        invariant
            i <= sshconfig.len(),
            sshconfig@ == old(sshconfig)@,
            trim_down == |c: ResolvedView| without_defaults(c, default_output_object@),
            resolved_views(cut@) == resolved_views(sshconfig@).take(i as int).map_values(
                trim_down,
            ),
        decreases sshconfig.len() - i,
    {
        let config = &sshconfig[i];
        let record = SSHConfigConnection {
            server_name: config.server_name.clone(),
            username: config.username.clone(),
            hostname: config.hostname.clone(),
            port: config.port.clone(),
            options: overrides_of(&config.options, &default_output_object.options),
        };
        proof {
            assert(record@ == trim_down(config@));
            assert(resolved_views(cut@.push(record)) == resolved_views(cut@).push(record@));
            assert(resolved_views(sshconfig@).take(i + 1) == resolved_views(sshconfig@).take(
                i as int,
            ).push(config@));
            assert(resolved_views(sshconfig@).take(i + 1).map_values(trim_down)
                == resolved_views(sshconfig@).take(i as int).map_values(trim_down).push(
                trim_down(config@),
            ));
        }
        cut.push(record);
        i += 1;
    }
    assert(resolved_views(sshconfig@).take(i as int) == resolved_views(sshconfig@));
    *sshconfig = cut;
}

/// A pair that a host shares with the baseline is no override.
pub proof fn law_shared_pair_is_dropped(
    options: Seq<(Seq<char>, Seq<char>)>,
    baseline: Seq<(Seq<char>, Seq<char>)>,
    pair: (Seq<char>, Seq<char>),
)
    requires
        baseline.contains(pair),
    ensures
        !override_set(options, baseline).contains(pair),
{
    let differs = |p: (Seq<char>, Seq<char>)| !baseline.contains(p);
    if options.filter(differs).contains(pair) {
        let i = choose|i: int|
            0 <= i < options.filter(differs).len() && options.filter(differs)[i] == pair;
        options.lemma_filter_pred(differs, i);
    }
}

/// A pair that a host holds and the baseline does not is an override.
pub proof fn law_own_pair_is_kept(
    options: Seq<(Seq<char>, Seq<char>)>,
    baseline: Seq<(Seq<char>, Seq<char>)>,
    pair: (Seq<char>, Seq<char>),
)
    requires
        options.contains(pair),
        !baseline.contains(pair),
    ensures
        override_set(options, baseline).contains(pair),
{
    let differs = |p: (Seq<char>, Seq<char>)| !baseline.contains(p);
    let i = choose|i: int| 0 <= i < options.len() && options[i] == pair;
    options.lemma_filter_contains(differs, i);
}

/// The baseline overrides nothing of itself.
pub proof fn law_baseline_overrides_nothing(baseline: Seq<(Seq<char>, Seq<char>)>)
    ensures
        override_set(baseline, baseline) == Seq::<(Seq<char>, Seq<char>)>::empty(),
{
    let differs = |p: (Seq<char>, Seq<char>)| !baseline.contains(p);
    assert forall|i: int| 0 <= i < baseline.len() implies !differs(#[trigger] baseline[i]) by {}
    baseline.lemma_all_neg_filter_empty(differs);
}

} // verus!
