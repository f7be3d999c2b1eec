//! Character-level scanning shared by the configuration readers.
//!
//! Text is handled as sequences of Unicode scalar values. Every scanner has a
//! specification over `Seq<char>` and an executable twin over `&[char]`.

use vstd::prelude::*;

verus! {

/// `String::push` appends exactly one character to the end of the string.
pub assume_specification[ String::push ](s: &mut String, c: char)
    ensures
        final(s)@ == old(s)@.push(c),
;

/// The lowercase form of `s`, as the Unicode character database defines it
/// for whole strings.
pub uninterp spec fn lowercase_of(s: Seq<char>) -> Seq<char>;

/// `str::to_lowercase` returns the lowercase form of the string, which is
/// determined by the string's characters alone.
pub assume_specification[ str::to_lowercase ](s: &str) -> (r: String)
    ensures
        r@ == lowercase_of(s@),
;

/// The views of a sequence of character vectors.
pub open spec fn views(v: Seq<Vec<char>>) -> Seq<Seq<char>> {
    v.map_values(|x: Vec<char>| x@)
}

/// The views of a sequence of strings.
pub open spec fn string_views(v: Seq<String>) -> Seq<Seq<char>> {
    v.map_values(|x: String| x@)
}

/// Whether `c` carries the Unicode `White_Space` property.
pub open spec fn is_blank(c: char) -> bool {
    let n = c as u32;
    ||| 0x09 <= n <= 0x0D
    ||| n == 0x20
    ||| n == 0x85
    ||| n == 0xA0
    ||| n == 0x1680
    ||| 0x2000 <= n <= 0x200A
    ||| n == 0x2028
    ||| n == 0x2029
    ||| n == 0x202F
    ||| n == 0x205F
    ||| n == 0x3000
}

/// Index of the first non-blank character at or after `i`, or the length of
/// `s` when only blanks remain.
pub open spec fn first_ink(s: Seq<char>, i: int) -> int
    decreases s.len() - i,
{
    if i < 0 || i >= s.len() || !is_blank(s[i]) {
        i
    } else {
        first_ink(s, i + 1)
    }
}

/// Where the text before `j` ends once the blanks just before `j` are dropped.
pub open spec fn ink_end(s: Seq<char>, j: int) -> int
    decreases j,
{
    if j <= 0 || j > s.len() || !is_blank(s[j - 1]) {
        j
    } else {
        ink_end(s, j - 1)
    }
}

/// `s` without its leading and trailing blanks.
pub open spec fn trim(s: Seq<char>) -> Seq<char> {
    let a = first_ink(s, 0);
    let b = ink_end(s, s.len() as int);
    if a < b {
        s.subrange(a, b)
    } else {
        Seq::empty()
    }
}

/// Whether `s` holds nothing but blanks.
pub open spec fn is_all_blank(s: Seq<char>) -> bool {
    forall|i: int| 0 <= i < s.len() ==> is_blank(#[trigger] s[i])
}

/// End of the run of non-blank characters that starts at `i`.
pub open spec fn word_end(s: Seq<char>, i: int) -> int
    decreases s.len() - i,
{
    if i < 0 || i >= s.len() || is_blank(s[i]) {
        i
    } else {
        word_end(s, i + 1)
    }
}

/// Whether a word of `s` begins at index `i`.
pub open spec fn is_word_start(s: Seq<char>, i: int) -> bool {
    0 <= i < s.len() && !is_blank(s[i]) && (i == 0 || is_blank(s[i - 1]))
}

/// The words of `s` that begin at or after index `i`.
pub open spec fn tokens_from(s: Seq<char>, i: int) -> Seq<Seq<char>>
    decreases s.len() - i,
{
    if i < 0 || i >= s.len() {
        Seq::empty()
    } else if is_word_start(s, i) {
        seq![s.subrange(i, word_end(s, i))] + tokens_from(s, i + 1)
    } else {
        tokens_from(s, i + 1)
    }
}

/// The maximal runs of non-blank characters of `s`, in order.
pub open spec fn tokens(s: Seq<char>) -> Seq<Seq<char>> {
    tokens_from(s, 0)
}

/// `s` with every occurrence of `from` turned into `to`.
pub open spec fn replace_char(s: Seq<char>, from: char, to: char) -> Seq<char> {
    s.map_values(
        |c: char|
            if c == from {
                to
            } else {
                c
            },
    )
}

/// Whether `pat` occurs in `s` starting at index `i`.
pub open spec fn occurs_at(s: Seq<char>, pat: Seq<char>, i: int) -> bool {
    0 <= i && i + pat.len() <= s.len() && s.subrange(i, i + pat.len()) == pat
}

/// Whether `pat` occurs somewhere in `s`.
pub open spec fn has_infix(s: Seq<char>, pat: Seq<char>) -> bool {
    exists|i: int| occurs_at(s, pat, i)
}

/// Index of the next line feed at or after `i`, or the length of `s`.
pub open spec fn line_end(s: Seq<char>, i: int) -> int
    decreases s.len() - i,
{
    if i < 0 || i >= s.len() || s[i] == '\n' {
        i
    } else {
        line_end(s, i + 1)
    }
}

/// `line` without one trailing carriage return.
pub open spec fn strip_cr(line: Seq<char>) -> Seq<char> {
    if line.len() > 0 && line.last() == '\r' {
        line.drop_last()
    } else {
        line
    }
}

/// Whether a line of `s` begins at index `i`.
pub open spec fn is_line_start(s: Seq<char>, i: int) -> bool {
    0 <= i < s.len() && (i == 0 || s[i - 1] == '\n')
}

/// The line of `s` that begins at index `i`.
pub open spec fn line_at(s: Seq<char>, i: int) -> Seq<char> {
    let e = line_end(s, i);
    if e < s.len() {
        strip_cr(s.subrange(i, e))
    } else {
        s.subrange(i, e)
    }
}

/// The lines of `s` that begin at or after index `i`.
pub open spec fn lines_from(s: Seq<char>, i: int) -> Seq<Seq<char>>
    decreases s.len() - i,
{
    if i < 0 || i >= s.len() {
        Seq::empty()
    } else if is_line_start(s, i) {
        seq![line_at(s, i)] + lines_from(s, i + 1)
    } else {
        lines_from(s, i + 1)
    }
}

/// The lines of `s`. A line ends at a line feed, or at a carriage return
/// directly followed by one; the terminator is not part of the line, and the
/// last line needs none.
pub open spec fn lines(s: Seq<char>) -> Seq<Seq<char>> {
    lines_from(s, 0)
}

/// The characters of `s`, in order.
pub fn chars_of(s: &str) -> (out: Vec<char>)
    ensures
        out@ == s@,
{
    let mut out: Vec<char> = Vec::new();
    for c in it: s.chars()
        invariant
            it.seq() == s@,
            out@ == it.seq().take(it.index() as int),
    {
        out.push(c);
    }
    out
}

/// The string spelled by `cs`.
pub fn string_of(cs: &[char]) -> (out: String)
    ensures
        out@ == cs@,
{
    let mut out = String::new();
    let mut i: usize = 0;
    while i < cs.len()
        invariant
            i <= cs.len(),
            out@ == cs@.take(i as int),
        decreases cs.len() - i,
    {
        out.push(cs[i]);
        i += 1;
    }
    out
}

/// Appends the characters of `cs` to `out`.
pub fn push_chars(out: &mut Vec<char>, cs: &[char])
    ensures
        final(out)@ == old(out)@ + cs@,
{
    let mut i: usize = 0;
    while i < cs.len()
        invariant
            i <= cs.len(),
            out@ == old(out)@ + cs@.take(i as int),
        decreases cs.len() - i,
    {
        out.push(cs[i]);
        i += 1;
    }
}

/// A copy of `cs[from..to]`.
pub(crate) fn slice_of(cs: &[char], from: usize, to: usize) -> (out: Vec<char>)
    requires
        from <= to <= cs.len(),
    ensures
        out@ == cs@.subrange(from as int, to as int),
{
    let mut out: Vec<char> = Vec::new();
    let mut i: usize = from;
    while i < to
        invariant
            from <= i <= to <= cs.len(),
            out@ == cs@.subrange(from as int, i as int),
        decreases to - i,
    {
        out.push(cs[i]);
        i += 1;
    }
    out
}

/// Whether `c` is white space.
pub fn is_blank_char(c: char) -> (b: bool)
    ensures
        b == is_blank(c),
{
    let n: u32 = c as u32;
    (0x09 <= n && n <= 0x0D) || n == 0x20 || n == 0x85 || n == 0xA0 || n == 0x1680 || (0x2000 <= n
        && n <= 0x200A) || n == 0x2028 || n == 0x2029 || n == 0x202F || n == 0x205F || n == 0x3000
}

/// Whether two character slices spell the same text.
pub fn same_chars(a: &[char], b: &[char]) -> (r: bool)
    ensures
        r == (a@ == b@),
{
    if a.len() != b.len() {
        return false;
    }
    let mut i: usize = 0;
    while i < a.len()
        invariant
            i <= a.len(),
            a.len() == b.len(),
            a@.take(i as int) == b@.take(i as int),
        decreases a.len() - i,
    {
        if a[i] != b[i] {
            return false;
        }
        assert(a@.take(i + 1) == a@.take(i as int).push(a@[i as int]));
        assert(b@.take(i + 1) == b@.take(i as int).push(b@[i as int]));
        i += 1;
    }
    assert(a@.take(i as int) == a@);
    assert(b@.take(i as int) == b@);
    true
}

/// Whether `cs` spells `lit`.
pub fn is_text(cs: &[char], lit: &str) -> (r: bool)
    ensures
        r == (cs@ == lit@),
{
    let other = chars_of(lit);
    same_chars(cs, other.as_slice())
}

/// Appends `lit` to `out`.
pub fn push_text(out: &mut Vec<char>, lit: &str)
    ensures
        final(out)@ == old(out)@ + lit@,
{
    let cs = chars_of(lit);
    push_chars(out, cs.as_slice());
}

/// Whether `cs` begins with `pat`.
pub fn starts_with(cs: &[char], pat: &[char]) -> (r: bool)
    ensures
        r == pat@.is_prefix_of(cs@),
{
    if pat.len() > cs.len() {
        return false;
    }
    let mut i: usize = 0;
    while i < pat.len()
        invariant
            i <= pat.len() <= cs.len(),
            forall|k: int| 0 <= k < i ==> cs@[k] == pat@[k],
        decreases pat.len() - i,
    {
        if cs[i] != pat[i] {
            return false;
        }
        i += 1;
    }
    assert(pat@ == cs@.subrange(0, pat@.len() as int));
    true
}

/// Whether `c` occurs in `cs`.
pub fn contains_char(cs: &[char], c: char) -> (r: bool)
    ensures
        r == cs@.contains(c),
{
    let mut i: usize = 0;
    while i < cs.len()
        invariant
            i <= cs.len(),
            forall|k: int| 0 <= k < i ==> cs@[k] != c,
        decreases cs.len() - i,
    {
        if cs[i] == c {
            return true;
        }
        i += 1;
    }
    false
}

/// Whether `pat` occurs in `cs` at index `at`.
pub fn matches_at(cs: &[char], pat: &[char], at: usize) -> (r: bool)
    ensures
        r == occurs_at(cs@, pat@, at as int),
{
    if pat.len() > cs.len() || at > cs.len() - pat.len() {
        return false;
    }
    let mut k: usize = 0;
    while k < pat.len()
        invariant
            k <= pat.len(),
            at + pat.len() <= cs.len(),
            forall|j: int| 0 <= j < k ==> cs@[at + j] == pat@[j],
        decreases pat.len() - k,
    {
        if cs[at + k] != pat[k] {
            assert(cs@.subrange(at as int, at + pat@.len())[k as int] != pat@[k as int]);
            return false;
        }
        k += 1;
    }
    assert(cs@.subrange(at as int, at + pat@.len()) == pat@);
    true
}

/// Whether `pat` occurs somewhere in `cs`.
pub fn contains_text(cs: &[char], pat: &[char]) -> (r: bool)
    ensures
        r == has_infix(cs@, pat@),
{
    if pat.len() > cs.len() {
        return false;
    }
    let last: usize = cs.len() - pat.len();
    let mut i: usize = 0;
    loop
        invariant
            i <= last,
            last == cs.len() - pat.len(),
            forall|k: int| 0 <= k < i ==> !occurs_at(cs@, pat@, k),
        decreases last - i,
    {
        if matches_at(cs, pat, i) {
            return true;
        }
        if i == last {
            return false;
        }
        i += 1;
    }
}

/// `cs` with every `from` turned into `to`.
pub fn replace_in(cs: &[char], from: char, to: char) -> (out: Vec<char>)
    ensures
        out@ == replace_char(cs@, from, to),
{
    let mut out: Vec<char> = Vec::new();
    let mut i: usize = 0;
    while i < cs.len()
        invariant
            i <= cs.len(),
            out@ == replace_char(cs@.take(i as int), from, to),
        decreases cs.len() - i,
    {
        let c = cs[i];
        out.push(
            if c == from {
                to
            } else {
                c
            },
        );
        assert(replace_char(cs@.take(i + 1), from, to) == replace_char(
            cs@.take(i as int),
            from,
            to,
        ).push(
            if c == from {
                to
            } else {
                c
            },
        ));
        i += 1;
    }
    assert(cs@.take(i as int) == cs@);
    out
}

/// `cs` without its leading and trailing blanks.
pub fn trim_of(cs: &[char]) -> (out: Vec<char>)
    ensures
        out@ == trim(cs@),
{
    let mut a: usize = 0;
    while a < cs.len() && is_blank_char(cs[a])
        invariant
            a <= cs.len(),
            first_ink(cs@, a as int) == first_ink(cs@, 0),
        decreases cs.len() - a,
    {
        a += 1;
    }
    let mut b: usize = cs.len();
    while b > 0 && is_blank_char(cs[b - 1])
        invariant
            b <= cs.len(),
            ink_end(cs@, b as int) == ink_end(cs@, cs@.len() as int),
        decreases b,
    {
        b -= 1;
    }
    if a < b {
        slice_of(cs, a, b)
    } else {
        Vec::new()
    }
}

/// Whether `cs` holds nothing but blanks.
pub fn all_blank(cs: &[char]) -> (r: bool)
    ensures
        r == is_all_blank(cs@),
{
    let mut i: usize = 0;
    while i < cs.len()
        invariant
            i <= cs.len(),
            forall|k: int| 0 <= k < i ==> is_blank(#[trigger] cs@[k]),
        decreases cs.len() - i,
    {
        if !is_blank_char(cs[i]) {
            return false;
        }
        i += 1;
    }
    true
}

/// Indices at which no word begins contribute no token.
pub proof fn lemma_tokens_skip(s: Seq<char>, a: int, b: int)
    requires
        0 <= a <= b <= s.len(),
        forall|k: int| a <= k < b ==> !is_word_start(s, k),
    ensures
        tokens_from(s, a) == tokens_from(s, b),
    decreases b - a,
{
    if a < b {
        lemma_tokens_skip(s, a + 1, b);
    }
}

/// The blank-separated words of `cs`, in order.
pub fn tokens_of(cs: &[char]) -> (out: Vec<Vec<char>>)
    ensures
        views(out@) == tokens(cs@),
{
    let mut out: Vec<Vec<char>> = Vec::new();
    let mut i: usize = 0;
    assert(views(out@) + tokens_from(cs@, 0) == tokens(cs@));
    while i < cs.len()
        invariant
            i <= cs.len(),
            views(out@) + tokens_from(cs@, i as int) == tokens(cs@),
            i < cs.len() && !is_blank(cs@[i as int]) ==> is_word_start(cs@, i as int),
        decreases cs.len() - i,
    {
        if is_blank_char(cs[i]) {
            i += 1;
        } else {
            let start: usize = i;
            while i < cs.len() && !is_blank_char(cs[i])
                invariant
                    start <= i <= cs.len(),
                    word_end(cs@, i as int) == word_end(cs@, start as int),
                    forall|k: int| start <= k < i ==> !is_blank(#[trigger] cs@[k]),
                decreases cs.len() - i,
            {
                i += 1;
            }
            let word = slice_of(cs, start, i);
            proof {
                lemma_tokens_skip(cs@, start + 1, i as int);
                assert(views(out@.push(word)) == views(out@).push(word@));
                assert(views(out@).push(word@) + tokens_from(cs@, i as int) == views(out@) + (
                seq![word@] + tokens_from(cs@, i as int)));
            }
            out.push(word);
        }
    }
    assert(tokens_from(cs@, i as int) == Seq::<Seq<char>>::empty());
    assert(views(out@) + Seq::<Seq<char>>::empty() == views(out@));
    out
}

/// Indices at which no line begins contribute no line.
pub proof fn lemma_lines_skip(s: Seq<char>, a: int, b: int)
    requires
        0 <= a <= b <= s.len(),
        forall|k: int| a <= k < b ==> !is_line_start(s, k),
    ensures
        lines_from(s, a) == lines_from(s, b),
    decreases b - a,
{
    if a < b {
        lemma_lines_skip(s, a + 1, b);
    }
}

/// The lines of `cs`, in order.
pub fn lines_of(cs: &[char]) -> (out: Vec<Vec<char>>)
    ensures
        views(out@) == lines(cs@),
{
    let mut out: Vec<Vec<char>> = Vec::new();
    let mut i: usize = 0;
    assert(views(out@) + lines_from(cs@, 0) == lines(cs@));
    while i < cs.len()
        invariant
            i <= cs.len(),
            views(out@) + lines_from(cs@, i as int) == lines(cs@),
            i < cs.len() ==> is_line_start(cs@, i as int),
        decreases cs.len() - i,
    {
        let start: usize = i;
        while i < cs.len() && cs[i] != '\n'
            invariant
                start <= i <= cs.len(),
                line_end(cs@, i as int) == line_end(cs@, start as int),
                forall|k: int| start <= k < i ==> #[trigger] cs@[k] != '\n',
            decreases cs.len() - i,
        {
            i += 1;
        }
        let ghost end = i as int;
        let line = if i < cs.len() && i > start && cs[i - 1] == '\r' {
            slice_of(cs, start, i - 1)
        } else {
            slice_of(cs, start, i)
        };
        if i < cs.len() {
            i += 1;
        }
        proof {
            assert(line@ == line_at(cs@, start as int)) by {
                let whole = cs@.subrange(start as int, end);
                if end < cs@.len() && end > start && cs@[end - 1] == '\r' {
                    assert(whole.last() == '\r');
                    assert(line@ == whole.drop_last());
                }
            }
            lemma_lines_skip(cs@, start + 1, i as int);
            assert(views(out@.push(line)) == views(out@).push(line@));
            assert(views(out@).push(line@) + lines_from(cs@, i as int) == views(out@) + (
            seq![line@] + lines_from(cs@, i as int)));
        }
        out.push(line);
    }
    assert(lines_from(cs@, i as int) == Seq::<Seq<char>>::empty());
    assert(views(out@) + Seq::<Seq<char>>::empty() == views(out@));
    out
}

/// The lowercase form of `cs`.
pub fn lowercase(cs: &[char]) -> (out: Vec<char>)
    ensures
        out@ == lowercase_of(cs@),
{
    let s = string_of(cs);
    let lowered = s.as_str().to_lowercase();
    chars_of(lowered.as_str())
}

/// The run of non-blank characters from `i` on ends at a blank or at the end
/// of the text, and holds no blank.
pub proof fn lemma_word_end(s: Seq<char>, i: int)
    requires
        0 <= i <= s.len(),
    ensures
        i <= word_end(s, i) <= s.len(),
        word_end(s, i) < s.len() ==> is_blank(s[word_end(s, i)]),
        forall|k: int| i <= k < word_end(s, i) ==> !is_blank(#[trigger] s[k]),
    decreases s.len() - i,
{
    if i < s.len() && !is_blank(s[i]) {
        lemma_word_end(s, i + 1);
    }
}

/// Every word is a piece of the text that is not empty and holds no blank.
pub proof fn law_tokens_are_words(s: Seq<char>, word: Seq<char>)
    requires
        tokens(s).contains(word),
    ensures
        word.len() > 0,
        forall|k: int| 0 <= k < word.len() ==> !is_blank(#[trigger] word[k]),
        has_infix(s, word),
{
    lemma_tokens_from(s, 0, word);
}

/// Every word that begins at or after `i` is a piece of the text that is
/// not empty and holds no blank.
proof fn lemma_tokens_from(s: Seq<char>, i: int, word: Seq<char>)
    requires
        0 <= i,
        tokens_from(s, i).contains(word),
    ensures
        word.len() > 0,
        forall|k: int| 0 <= k < word.len() ==> !is_blank(#[trigger] word[k]),
        has_infix(s, word),
    decreases s.len() - i,
{
    if i < s.len() {
        let rest = tokens_from(s, i + 1);
        if is_word_start(s, i) {
            let first = s.subrange(i, word_end(s, i));
            lemma_word_end(s, i);
            let at = choose|k: int| 0 <= k < tokens_from(s, i).len() && tokens_from(s, i)[k] == word;
            if at == 0 {
                assert(word == first);
                assert(word_end(s, i) > i);
                assert(occurs_at(s, word, i));
            } else {
                assert(rest[at - 1] == word);
                lemma_tokens_from(s, i + 1, word);
            }
        } else {
            lemma_tokens_from(s, i + 1, word);
        }
    }
}

/// Blanks before index `i` do not count: the first non-blank character at
/// or after `i` is found at or after `i`, within the text.
pub proof fn lemma_first_ink(s: Seq<char>, i: int)
    requires
        0 <= i <= s.len(),
    ensures
        i <= first_ink(s, i) <= s.len(),
        first_ink(s, i) < s.len() ==> !is_blank(s[first_ink(s, i)]),
        forall|k: int| i <= k < first_ink(s, i) ==> is_blank(#[trigger] s[k]),
    decreases s.len() - i,
{
    if i < s.len() && is_blank(s[i]) {
        lemma_first_ink(s, i + 1);
    }
}

/// The text before `j` ends, once trailing blanks are dropped, behind a
/// non-blank character or at the start.
pub proof fn lemma_ink_end(s: Seq<char>, j: int)
    requires
        0 <= j <= s.len(),
    ensures
        0 <= ink_end(s, j) <= j,
        ink_end(s, j) > 0 ==> !is_blank(s[ink_end(s, j) - 1]),
        forall|k: int| ink_end(s, j) <= k < j ==> is_blank(#[trigger] s[k]),
    decreases j,
{
    if j > 0 && is_blank(s[j - 1]) {
        lemma_ink_end(s, j - 1);
    }
}

/// A trimmed text neither begins nor ends with a blank, and it is empty
/// exactly where the text holds nothing but blanks.
pub proof fn law_trim(s: Seq<char>)
    ensures
        trim(s).len() > 0 ==> !is_blank(trim(s).first()) && !is_blank(trim(s).last()),
        trim(s).len() == 0 <==> is_all_blank(s),
        has_infix(s, trim(s)),
{
    lemma_first_ink(s, 0);
    lemma_ink_end(s, s.len() as int);
    let a = first_ink(s, 0);
    let b = ink_end(s, s.len() as int);
    if a < b {
        assert(occurs_at(s, trim(s), a));
        assert(!is_blank(s[a]));
    } else {
        assert(s.subrange(0, 0) =~= trim(s));
        assert(occurs_at(s, trim(s), 0));
        assert forall|k: int| 0 <= k < s.len() implies is_blank(#[trigger] s[k]) by {
            if k < a {
            } else {
                assert(b <= k);
            }
        }
    }
}

} // verus!
