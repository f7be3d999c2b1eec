//! Host aliases declared by a client configuration file.

use vstd::prelude::*;
use crate::text::{
    all_blank, chars_of, contains_char, is_all_blank, is_text, lines, lines_of, lowercase,
    lowercase_of, replace_char, replace_in, starts_with, string_of, string_views, tokens,
    tokens_of, trim, trim_of, views,
};

verus! {

/// A configuration line as the readers look at it: without surrounding
/// blanks, and with every `=` read as a separator.
pub open spec fn normalize(line: Seq<char>) -> Seq<char> {
    replace_char(trim(line), '=', ' ')
}

/// Whether the normalized line `n`, whose lowercase form is `lowered`, is a
/// directive that opens with `keyword` followed by a space: it is not empty,
/// is no comment, and its lowercase form begins with the keyword and the
/// space.
pub open spec fn opens_with(n: Seq<char>, lowered: Seq<char>, keyword: Seq<char>) -> bool {
    n.len() > 0 && n[0] != '#' && (keyword + " "@).is_prefix_of(lowered)
}

/// Whether `line` is a `Host` directive.
pub open spec fn is_host_line(line: Seq<char>) -> bool {
    opens_with(normalize(line), lowercase_of(normalize(line)), "host"@)
}

/// Whether a word, whose lowercase form is `lowered`, names a single host:
/// it holds no wildcard and is not the keyword itself.
pub open spec fn names_host(word: Seq<char>, lowered: Seq<char>) -> bool {
    !word.contains('*') && lowered != "host"@
}

/// Whether a word of a `Host` line is an alias.
pub open spec fn is_alias(word: Seq<char>) -> bool {
    names_host(word, lowercase_of(word))
}

/// The aliases that one configuration line declares.
pub open spec fn line_aliases(line: Seq<char>) -> Seq<Seq<char>> {
    if is_host_line(line) {
        tokens(normalize(line)).filter(|w: Seq<char>| is_alias(w))
    } else {
        Seq::empty()
    }
}

/// The aliases that a run of configuration lines declares, in order.
pub open spec fn aliases_in(ls: Seq<Seq<char>>) -> Seq<Seq<char>>
    decreases ls.len(),
{
    if ls.len() == 0 {
        Seq::empty()
    } else {
        aliases_in(ls.drop_last()) + line_aliases(ls.last())
    }
}

/// The aliases that a configuration file with the content `config` declares.
pub open spec fn config_aliases(config: Seq<char>) -> Seq<Seq<char>> {
    aliases_in(lines(config))
}

/// The normalized form of `line`.
pub fn normalize_line(line: &[char]) -> (out: Vec<char>)
    ensures
        out@ == normalize(line@),
{
    let trimmed = trim_of(line);
    replace_in(trimmed.as_slice(), '=', ' ')
}

/// Whether the normalized line `n`, with the lowercase form `lowered`, is a
/// directive that opens with `keyword`.
pub fn opens_directive(n: &[char], lowered: &[char], keyword: &str) -> (r: bool)
    ensures
        r == opens_with(n@, lowered@, keyword@),
{
    if n.len() == 0 || n[0] == '#' {
        return false;
    }
    let mut prefix = chars_of(keyword);
    prefix.push(' ');
    proof {
        reveal_strlit(" ");
        assert(prefix@ == keyword@ + " "@);
    }
    starts_with(lowered, prefix.as_slice())
}

/// Whether `word`, with the lowercase form `lowered`, names a single host.
pub fn is_alias_word(word: &[char], lowered: &[char]) -> (r: bool)
    ensures
        r == names_host(word@, lowered@),
{
    !contains_char(word, '*') && !is_text(lowered, "host")
}

/// The aliases that `line` declares.
pub fn aliases_of_line(line: &[char]) -> (out: Vec<Vec<char>>)
    ensures
        views(out@) == line_aliases(line@),
{
    let n = normalize_line(line);
    let lowered = lowercase(n.as_slice());
    let mut out: Vec<Vec<char>> = Vec::new();
    if !opens_directive(n.as_slice(), lowered.as_slice(), "host") {
        return out;
    }
    let words = tokens_of(n.as_slice());
    let ghost keep = |w: Seq<char>| is_alias(w);
    let mut i: usize = 0;
    while i < words.len()
        invariant
            i <= words.len(),
            keep == |w: Seq<char>| is_alias(w),
            views(out@) == views(words@).take(i as int).filter(keep),
        decreases words.len() - i,
    {
        let lowered_word = lowercase(words[i].as_slice());
        proof {
            let seen = views(words@).take(i as int);
            assert(views(words@).take(i + 1) == seen.push(words@[i as int]@));
            seen.lemma_filter_push(words@[i as int]@, keep);
        }
        if is_alias_word(words[i].as_slice(), lowered_word.as_slice()) {
            let mut word: Vec<char> = Vec::new();
            crate::text::push_chars(&mut word, words[i].as_slice());
            proof {
                assert(word@ == words@[i as int]@);
                assert(views(out@.push(word)) == views(out@).push(word@));
            }
            out.push(word);
        }
        i += 1;
    }
    assert(views(words@).take(i as int) == views(words@));
    out
}

/// Appends to `names` every alias that the configuration file with the
/// content `config` declares, in the order of the file.
pub fn get_names(names: &mut Vec<String>, config: &str)
    ensures
        string_views(final(names)@) == string_views(old(names)@) + config_aliases(config@),
{
    let content = chars_of(config);
    let ls = lines_of(content.as_slice());
    let mut i: usize = 0;
    assert(views(ls@).take(0) == Seq::<Seq<char>>::empty());
    assert(string_views(names@) + Seq::<Seq<char>>::empty() == string_views(names@));
    while i < ls.len()
        invariant
            i <= ls.len(),
            views(ls@) == lines(config@),
            string_views(names@) == string_views(old(names)@) + aliases_in(
                views(ls@).take(i as int),
            ),
        decreases ls.len() - i,
    {
        let found = aliases_of_line(ls[i].as_slice());
        let ghost before = string_views(names@);
        let mut k: usize = 0;
        assert(before + views(found@).take(0) == before);
        while k < found.len()
            invariant
                k <= found.len(),
                string_views(names@) == before + views(found@).take(k as int),
            decreases found.len() - k,
        {
            let name = string_of(found[k].as_slice());
            proof {
                assert(string_views(names@.push(name)) == string_views(names@).push(name@));
                assert(views(found@).take(k + 1) == views(found@).take(k as int).push(
                    found@[k as int]@,
                ));
                assert((before + views(found@).take(k as int)).push(name@) == before + views(
                    found@,
                ).take(k as int).push(name@));
            }
            names.push(name);
            k += 1;
        }
        proof {
            assert(views(found@).take(k as int) == views(found@));
            let seen = views(ls@).take(i as int);
            let next = views(ls@).take(i + 1);
            assert(next.drop_last() == seen);
            assert(next.last() == ls@[i as int]@);
            assert(string_views(old(names)@) + aliases_in(seen) + line_aliases(ls@[i as int]@)
                == string_views(old(names)@) + (aliases_in(seen) + line_aliases(ls@[i as int]@)));
        }
        i += 1;
    }
    assert(views(ls@).take(i as int) == views(ls@));
}

/// Whether a configuration file with the content `file_data` has nothing to
/// offer: it is empty or holds only blanks.
pub fn check_blank_sshconfig(file_data: &str) -> (blank: bool)
    ensures
        blank == is_all_blank(file_data@),
{
    let content = chars_of(file_data);
    all_blank(content.as_slice())
}

/// A word with a wildcard is never an alias, whatever the line.
pub proof fn law_wildcard_words_are_dropped(line: Seq<char>, word: Seq<char>)
    requires
        word.contains('*'),
    ensures
        !line_aliases(line).contains(word),
{
    let keep = |w: Seq<char>| is_alias(w);
    let words = tokens(normalize(line));
    if words.filter(keep).contains(word) {
        let i = choose|i: int| 0 <= i < words.filter(keep).len() && words.filter(keep)[i] == word;
        words.lemma_filter_pred(keep, i);
    }
}

/// Every word of a `Host` line that holds no wildcard and is not the keyword
/// itself is an alias of that line.
pub proof fn law_plain_words_are_kept(line: Seq<char>, word: Seq<char>)
    requires
        is_host_line(line),
        tokens(normalize(line)).contains(word),
        !word.contains('*'),
        lowercase_of(word) != "host"@,
    ensures
        line_aliases(line).contains(word),
{
    let keep = |w: Seq<char>| is_alias(w);
    let words = tokens(normalize(line));
    let i = choose|i: int| 0 <= i < words.len() && words[i] == word;
    words.lemma_filter_contains(keep, i);
}

/// The aliases of a line are words of that line, in the order of the line.
pub proof fn law_aliases_are_words(line: Seq<char>, alias: Seq<char>)
    requires
        line_aliases(line).contains(alias),
    ensures
        tokens(normalize(line)).contains(alias),
        !alias.contains('*'),
{
    let keep = |w: Seq<char>| is_alias(w);
    let words = tokens(normalize(line));
    let i = choose|i: int| 0 <= i < words.filter(keep).len() && words.filter(keep)[i] == alias;
    words.lemma_filter_pred(keep, i);
    words.lemma_filter_contains_rev(keep, alias);
}

/// The aliases of a run of lines are the aliases of its lines, and no
/// others.
pub proof fn law_aliases_come_from_lines(ls: Seq<Seq<char>>, alias: Seq<char>)
    ensures
        aliases_in(ls).contains(alias) <==> exists|i: int|
            0 <= i < ls.len() && line_aliases(#[trigger] ls[i]).contains(alias),
    decreases ls.len(),
{
    if ls.len() > 0 {
        let rest = ls.drop_last();
        law_aliases_come_from_lines(rest, alias);
        let before = aliases_in(rest);
        let last = line_aliases(ls.last());
        if aliases_in(ls).contains(alias) {
            let k = choose|k: int| 0 <= k < (before + last).len() && (before + last)[k] == alias;
            if k < before.len() {
                assert(before[k] == alias);
                let i = choose|i: int|
                    0 <= i < rest.len() && line_aliases(#[trigger] rest[i]).contains(alias);
                assert(ls[i] == rest[i]);
            } else {
                assert(last[k - before.len()] == alias);
                assert(ls[ls.len() - 1] == ls.last());
            }
        }
        if exists|i: int| 0 <= i < ls.len() && line_aliases(#[trigger] ls[i]).contains(alias) {
            let i = choose|i: int|
                0 <= i < ls.len() && line_aliases(#[trigger] ls[i]).contains(alias);
            if i < rest.len() {
                assert(rest[i] == ls[i]);
                let k = choose|k: int| 0 <= k < before.len() && before[k] == alias;
                assert((before + last)[k] == alias);
            } else {
                let k = choose|k: int| 0 <= k < last.len() && last[k] == alias;
                assert((before + last)[before.len() + k] == alias);
            }
        }
    }
}

} // verus!
