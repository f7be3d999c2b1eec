//! Ordering the store by one of its columns.

use vstd::prelude::*;
use crate::connection::{connection_views, ConnectionView, SSHConnection};
use crate::text::{chars_of, is_text, lowercase, lowercase_of};

verus! {

/// The value that the decimal digits `s` spell, or nothing where `s` holds
/// anything but digits. No digits spell zero.
pub open spec fn digits_value(s: Seq<char>) -> Option<nat>
    decreases s.len(),
{
    if s.len() == 0 {
        Some(0nat)
    } else if '0' <= s.last() <= '9' {
        match digits_value(s.drop_last()) {
            Some(n) => Some((n * 10 + (s.last() as u32 - '0' as u32)) as nat),
            None => None,
        }
    } else {
        None
    }
}

/// `s` read as a port number: an optional `+`, then at least one decimal
/// digit, the whole no larger than 65535.
pub open spec fn parse_port(s: Seq<char>) -> Option<u16> {
    let digits = if s.len() > 0 && s[0] == '+' {
        s.skip(1)
    } else {
        s
    };
    if digits.len() == 0 {
        None
    } else {
        match digits_value(digits) {
            Some(n) => if n <= 0xffff {
                Some(n as u16)
            } else {
                None
            },
            None => None,
        }
    }
}

/// The number by which a port sorts: the port itself, and zero for a text
/// that is no port number.
pub open spec fn port_number(s: Seq<char>) -> u16 {
    match parse_port(s) {
        Some(n) => n,
        None => 0,
    }
}

/// Once a prefix of the digits is too large or no number, so is the whole.
proof fn lemma_digits_grow(s: Seq<char>, i: int)
    requires
        0 <= i <= s.len(),
    ensures
        digits_value(s.take(i)) is None ==> digits_value(s) is None,
        digits_value(s.take(i)) is Some && digits_value(s) is Some ==> digits_value(
            s.take(i),
        )->0 <= digits_value(s)->0,
    decreases s.len() - i,
{
    if i < s.len() {
        lemma_digits_grow(s, i + 1);
        assert(s.take(i + 1).drop_last() == s.take(i));
    } else {
        assert(s.take(i) == s);
    }
}

/// `port` read as a port number.
pub fn port_of(port: &str) -> (n: Option<u16>)
    ensures
        n == parse_port(port@),
{
    let cs = chars_of(port);
    let start: usize = if cs.len() > 0 && cs[0] == '+' {
        1
    } else {
        0
    };
    if start == cs.len() {
        return None;
    }
    let ghost digits = cs@.skip(start as int);
    assert(cs@.skip(0) == cs@);
    assert(digits.len() > 0);
    let mut value: u32 = 0;
    let mut i: usize = start;
    assert(digits.take(0) == Seq::<char>::empty());
    while i < cs.len()
        invariant
            start <= i <= cs.len(),
            cs@ == port@,
            start == (if cs@.len() > 0 && cs@[0] == '+' {
                1int
            } else {
                0int
            }),
            digits == cs@.skip(start as int),
            cs@.skip(0) == cs@,
            digits.len() > 0,
            digits_value(digits.take(i - start)) == Some(value as nat),
            value <= 0xffff,
        decreases cs.len() - i,
    {
        let c = cs[i];
        proof {
            assert(digits.take(i - start + 1).drop_last() == digits.take(i - start));
            assert(digits.take(i - start + 1).last() == c);
            lemma_digits_grow(digits, i - start + 1);
        }
        if c < '0' || c > '9' {
            return None;
        }
        let next: u32 = value * 10 + (c as u32 - '0' as u32);
        if next > 0xffff {
            return None;
        }
        value = next;
        i += 1;
    }
    assert(digits.take(i - start) == digits);
    Some(value as u16)
}

/// The number by which `port` sorts.
pub fn port_key(port: &str) -> (n: u16)
    ensures
        n == port_number(port@),
        parse_port(port@) is None ==> n == 0,
{
    match port_of(port) {
        Some(n) => n,
        None => 0,
    }
}

/// The columns by which the store can be ordered.
#[derive(Clone, Copy, Debug, PartialEq, Eq, Structural)]
pub enum Column {
    Name,
    Group,
    Username,
    Hostname,
    Port,
}

/// Whether `a` comes no later than `b` when both are compared item by item
/// from index `i` on, a proper prefix coming first.
pub open spec fn lex_le_from(a: Seq<u32>, b: Seq<u32>, i: int) -> bool
    decreases a.len() - i,
{
    if i < 0 || i >= a.len() {
        true
    } else if i >= b.len() {
        false
    } else if a[i] != b[i] {
        a[i] < b[i]
    } else {
        lex_le_from(a, b, i + 1)
    }
}

/// Whether the key `a` comes no later than the key `b`.
pub open spec fn lex_le(a: Seq<u32>, b: Seq<u32>) -> bool {
    lex_le_from(a, b, 0)
}

/// The code points of a text.
pub open spec fn code_points(s: Seq<char>) -> Seq<u32> {
    s.map_values(|c: char| c as u32)
}

/// The key by which a record sorts in `column`: the lowercase form of the
/// text for the four text columns, the port number for the port.
pub open spec fn sort_key(column: Column, c: ConnectionView) -> Seq<u32> {
    match column {
        Column::Name => code_points(lowercase_of(c.server_name)),
        Column::Group => code_points(lowercase_of(c.group_name)),
        Column::Username => code_points(lowercase_of(c.username)),
        Column::Hostname => code_points(lowercase_of(c.hostname)),
        Column::Port => seq![port_number(c.port) as u32],
    }
}

/// Where a record with the key `k` goes among records with the sorted keys
/// `keys`: behind the last key that comes no later than `k`.
pub open spec fn insert_pos(keys: Seq<Seq<u32>>, k: Seq<u32>) -> int
    decreases keys.len(),
{
    if keys.len() == 0 {
        0
    } else if lex_le(keys.last(), k) {
        keys.len() as int
    } else {
        insert_pos(keys.drop_last(), k)
    }
}

/// The keys of a run of records.
pub open spec fn keys_of(column: Column, items: Seq<ConnectionView>) -> Seq<Seq<u32>> {
    items.map_values(|c: ConnectionView| sort_key(column, c))
}

/// `items` ordered by `column`: every record is put, first to last, behind
/// the records that come no later than it, so records with equal keys keep
/// their order.
pub open spec fn sorted_by(column: Column, items: Seq<ConnectionView>) -> Seq<ConnectionView>
    decreases items.len(),
{
    if items.len() == 0 {
        Seq::empty()
    } else {
        let before = sorted_by(column, items.drop_last());
        before.insert(
            insert_pos(keys_of(column, before), sort_key(column, items.last())),
            items.last(),
        )
    }
}

/// The column that a name stands for.
pub open spec fn column_named(name: Seq<char>) -> Option<Column> {
    if name == "name"@ {
        Some(Column::Name)
    } else if name == "group"@ {
        Some(Column::Group)
    } else if name == "username"@ {
        Some(Column::Username)
    } else if name == "hostname"@ {
        Some(Column::Hostname)
    } else if name == "port"@ {
        Some(Column::Port)
    } else {
        None
    }
}

/// The views of a run of keys.
pub open spec fn key_views(keys: Seq<Vec<u32>>) -> Seq<Seq<u32>> {
    keys.map_values(|k: Vec<u32>| k@)
}

/// Whether the key `a` comes no later than the key `b`.
pub fn key_le(a: &[u32], b: &[u32]) -> (r: bool)
    ensures
        r == lex_le(a@, b@),
{
    let mut i: usize = 0;
    while i < a.len()
        invariant
            i <= a.len(),
            lex_le_from(a@, b@, i as int) == lex_le(a@, b@),
        decreases a.len() - i,
    {
        if i >= b.len() {
            return false;
        }
        if a[i] != b[i] {
            return a[i] < b[i];
        }
        i += 1;
    }
    true
}

/// The code points of the lowercase form of `text`.
pub fn text_key(text: &str) -> (key: Vec<u32>)
    ensures
        key@ == code_points(lowercase_of(text@)),
{
    let cs = chars_of(text);
    let lowered = lowercase(cs.as_slice());
    let mut key: Vec<u32> = Vec::new();
    let mut i: usize = 0;
    while i < lowered.len()
        invariant
            i <= lowered.len(),
            key@ == code_points(lowered@.take(i as int)),
        decreases lowered.len() - i,
    {
        assert(code_points(lowered@.take(i + 1)) == code_points(lowered@.take(i as int)).push(
            lowered@[i as int] as u32,
        ));
        key.push(lowered[i] as u32);
        i += 1;
    }
    assert(lowered@.take(i as int) == lowered@);
    key
}

/// The key by which `c` sorts in `column`.
pub fn key_for(column: Column, c: &SSHConnection) -> (key: Vec<u32>)
    ensures
        key@ == sort_key(column, c@),
{
    match column {
        Column::Name => text_key(c.server_name.as_str()),
        Column::Group => text_key(c.group_name.as_str()),
        Column::Username => text_key(c.username.as_str()),
        Column::Hostname => text_key(c.hostname.as_str()),
        Column::Port => {
            let mut key: Vec<u32> = Vec::new();
            key.push(port_key(c.port.as_str()) as u32);
            assert(key@ == seq![port_number(c.port@) as u32]);
            key
        },
    }
}

/// The column that `name` stands for.
pub fn column_of(name: &str) -> (column: Option<Column>)
    ensures
        column == column_named(name@),
{
    let cs = chars_of(name);
    if is_text(cs.as_slice(), "name") {
        Some(Column::Name)
    } else if is_text(cs.as_slice(), "group") {
        Some(Column::Group)
    } else if is_text(cs.as_slice(), "username") {
        Some(Column::Username)
    } else if is_text(cs.as_slice(), "hostname") {
        Some(Column::Hostname)
    } else if is_text(cs.as_slice(), "port") {
        Some(Column::Port)
    } else {
        None
    }
}

/// Orders `connections` by `column`. Records with equal keys keep their
/// order.
pub fn sort_connections(connections: &mut Vec<SSHConnection>, column: Column)
    ensures
        connection_views(final(connections)@) == sorted_by(
            column,
            connection_views(old(connections)@),
        ),
{
    let mut out: Vec<SSHConnection> = Vec::new();
    let mut keys: Vec<Vec<u32>> = Vec::new();
    let mut i: usize = 0;
    assert(connection_views(connections@).take(0) =~= Seq::empty());
    assert(connection_views(out@) =~= Seq::empty());
    assert(key_views(keys@) =~= keys_of(column, connection_views(out@)));
    while i < connections.len()
        invariant
            i <= connections.len(),
            connections@ == old(connections)@,
            connection_views(out@) == sorted_by(column, connection_views(connections@).take(i as int)),
            key_views(keys@) == keys_of(column, connection_views(out@)),
        decreases connections.len() - i,
    {
        let record = connections[i].duplicate();
        let key = key_for(column, &record);
        let mut p: usize = keys.len();
        assert(key_views(keys@).take(p as int) == key_views(keys@));
        while p > 0 && !key_le(keys[p - 1].as_slice(), key.as_slice())
            invariant
                p <= keys.len(),
                insert_pos(key_views(keys@).take(p as int), key@) == insert_pos(
                    key_views(keys@),
                    key@,
                ),
            decreases p,
        {
            assert(key_views(keys@).take(p as int).drop_last() == key_views(keys@).take(p - 1));
            p -= 1;
        }
        proof {
            let seen = connection_views(connections@).take(i as int);
            let next = connection_views(connections@).take(i + 1);
            assert(next.drop_last() == seen);
            assert(next.last() == record@);
            assert(out@.len() == keys@.len());
            assert(connection_views(out@.insert(p as int, record)) == connection_views(
                out@,
            ).insert(p as int, record@));
            assert(key_views(keys@.insert(p as int, key)) == key_views(keys@).insert(
                p as int,
                key@,
            ));
            assert(keys_of(column, connection_views(out@).insert(p as int, record@)) == keys_of(
                column,
                connection_views(out@),
            ).insert(p as int, sort_key(column, record@)));
        }
        out.insert(p, record);
        keys.insert(p, key);
        i += 1;
    }
    assert(connection_views(connections@).take(i as int) == connection_views(connections@));
    *connections = out;
}

/// Whether every key comes no later than the keys behind it.
pub open spec fn is_sorted(keys: Seq<Seq<u32>>) -> bool {
    forall|i: int, j: int| 0 <= i < j < keys.len() ==> lex_le(keys[i], keys[j])
}

/// Of two keys, one comes no later than the other.
pub proof fn lemma_lex_total(a: Seq<u32>, b: Seq<u32>, i: int)
    requires
        0 <= i,
    ensures
        lex_le_from(a, b, i) || lex_le_from(b, a, i),
    decreases a.len() - i,
{
    if i < a.len() && i < b.len() && a[i] == b[i] {
        lemma_lex_total(a, b, i + 1);
    }
}

/// Coming no later is transitive.
pub proof fn lemma_lex_transitive(a: Seq<u32>, b: Seq<u32>, c: Seq<u32>, i: int)
    requires
        0 <= i,
        lex_le_from(a, b, i),
        lex_le_from(b, c, i),
    ensures
        lex_le_from(a, c, i),
    decreases a.len() - i,
{
    if i < a.len() && a[i] == b[i] && b[i] == c[i] {
        lemma_lex_transitive(a, b, c, i + 1);
    }
}

/// Every key comes no later than itself.
pub proof fn lemma_lex_reflexive(a: Seq<u32>, i: int)
    requires
        0 <= i,
    ensures
        lex_le_from(a, a, i),
    decreases a.len() - i,
{
    if i < a.len() {
        lemma_lex_reflexive(a, i + 1);
    }
}

/// Among sorted keys, the place for `k` parts the keys that come no later
/// than `k` from those that come later.
pub proof fn lemma_insert_pos(keys: Seq<Seq<u32>>, k: Seq<u32>)
    requires
        is_sorted(keys),
    ensures
        0 <= insert_pos(keys, k) <= keys.len(),
        forall|j: int| 0 <= j < insert_pos(keys, k) ==> lex_le(#[trigger] keys[j], k),
        forall|j: int| insert_pos(keys, k) <= j < keys.len() ==> !lex_le(#[trigger] keys[j], k),
    decreases keys.len(),
{
    if keys.len() > 0 {
        if lex_le(keys.last(), k) {
            assert forall|j: int| 0 <= j < keys.len() implies lex_le(#[trigger] keys[j], k) by {
                if j < keys.len() - 1 {
                    assert(lex_le(keys[j], keys[keys.len() - 1]));
                    lemma_lex_transitive(keys[j], keys.last(), k, 0);
                }
            }
        } else {
            let rest = keys.drop_last();
            assert(is_sorted(rest)) by {
                assert forall|i: int, j: int| 0 <= i < j < rest.len() implies lex_le(
                    rest[i],
                    rest[j],
                ) by {
                    assert(rest[i] == keys[i] && rest[j] == keys[j]);
                }
            }
            lemma_insert_pos(rest, k);
            assert forall|j: int| insert_pos(keys, k) <= j < keys.len() implies !lex_le(
                #[trigger] keys[j],
                k,
            ) by {
                if j < keys.len() - 1 {
                    assert(keys[j] == rest[j]);
                }
            }
            assert forall|j: int| 0 <= j < insert_pos(keys, k) implies lex_le(
                #[trigger] keys[j],
                k,
            ) by {
                assert(keys[j] == rest[j]);
            }
        }
    }
}

/// After ordering, every record comes no later than the records behind it.
pub proof fn law_sorted(column: Column, items: Seq<ConnectionView>)
    ensures
        is_sorted(keys_of(column, sorted_by(column, items))),
        sorted_by(column, items).len() == items.len(),
    decreases items.len(),
{
    if items.len() > 0 {
        let before = sorted_by(column, items.drop_last());
        let keys = keys_of(column, before);
        let k = sort_key(column, items.last());
        let p = insert_pos(keys, k);
        law_sorted(column, items.drop_last());
        lemma_insert_pos(keys, k);
        let after = keys_of(column, before.insert(p, items.last()));
        assert(after == keys.insert(p, k));
        assert forall|i: int, j: int| 0 <= i < j < after.len() implies lex_le(
            after[i],
            after[j],
        ) by {
            if j < p {
                assert(after[i] == keys[i] && after[j] == keys[j]);
            } else if j == p {
                assert(after[i] == keys[i]);
            } else if i < p {
                assert(after[i] == keys[i] && after[j] == keys[j - 1]);
            } else if i == p {
                assert(after[j] == keys[j - 1]);
                lemma_lex_total(keys[j - 1], k, 0);
            } else {
                assert(after[i] == keys[i - 1] && after[j] == keys[j - 1]);
            }
        }
    }
}

/// Ordering neither drops a record nor adds one.
pub proof fn law_same_records(column: Column, items: Seq<ConnectionView>)
    ensures
        sorted_by(column, items).to_multiset() == items.to_multiset(),
    decreases items.len(),
{
    broadcast use vstd::seq_lib::group_to_multiset_ensures;

    if items.len() > 0 {
        let rest = items.drop_last();
        let before = sorted_by(column, rest);
        let p = insert_pos(keys_of(column, before), sort_key(column, items.last()));
        law_same_records(column, rest);
        law_sorted(column, rest);
        lemma_insert_pos(keys_of(column, before), sort_key(column, items.last()));
        let after = before.insert(p, items.last());
        assert(after.remove(p) == before);
        assert(after[p] == items.last());
        assert(after.to_multiset().remove(items.last()) == before.to_multiset());
        assert(after.to_multiset().count(items.last()) > 0) by {
            assert(after.contains(items.last()));
        }
        assert(after.to_multiset() =~= before.to_multiset().insert(items.last()));
        assert(rest.push(items.last()) == items);
        assert(items.to_multiset() =~= rest.to_multiset().insert(items.last()));
    } else {
        assert(items =~= Seq::<ConnectionView>::empty());
    }
}

/// Filtering a sequence into which an item was put.
proof fn lemma_filter_insert<A>(s: Seq<A>, p: int, x: A, pred: spec_fn(A) -> bool)
    requires
        0 <= p <= s.len(),
    ensures
        s.insert(p, x).filter(pred) == s.take(p).filter(pred) + seq![x].filter(pred) + s.skip(
            p,
        ).filter(pred),
        s.filter(pred) == s.take(p).filter(pred) + s.skip(p).filter(pred),
{
    assert(s.insert(p, x) == s.take(p) + seq![x] + s.skip(p));
    assert(s == s.take(p) + s.skip(p));
    Seq::filter_distributes_over_add(s.take(p) + seq![x], s.skip(p), pred);
    Seq::filter_distributes_over_add(s.take(p), seq![x], pred);
    Seq::filter_distributes_over_add(s.take(p), s.skip(p), pred);
}

/// Records with the same key keep the order they had.
pub proof fn law_stable(column: Column, items: Seq<ConnectionView>, key: Seq<u32>)
    ensures
        sorted_by(column, items).filter(|c: ConnectionView| sort_key(column, c) == key)
            == items.filter(|c: ConnectionView| sort_key(column, c) == key),
    decreases items.len(),
{
    let same = |c: ConnectionView| sort_key(column, c) == key;
    if items.len() > 0 {
        let rest = items.drop_last();
        let x = items.last();
        let before = sorted_by(column, rest);
        let keys = keys_of(column, before);
        let p = insert_pos(keys, sort_key(column, x));
        law_stable(column, rest, key);
        law_sorted(column, rest);
        lemma_insert_pos(keys, sort_key(column, x));
        lemma_filter_insert(before, p, x, same);
        assert(rest.push(x) == items);
        rest.lemma_filter_push(x, same);
        reveal(Seq::filter);
        assert(seq![x].drop_last() == Seq::<ConnectionView>::empty());
        assert(Seq::<ConnectionView>::empty().filter(same) == Seq::<ConnectionView>::empty());
        if same(x) {
            assert(seq![x].filter(same) == seq![x]);
            let tail = before.skip(p);
            assert forall|j: int| 0 <= j < tail.len() implies !same(#[trigger] tail[j]) by {
                assert(tail[j] == before[p + j]);
                assert(keys[p + j] == sort_key(column, before[p + j]));
                lemma_lex_reflexive(key, 0);
            }
            assert(tail.all(|c: ConnectionView| !same(c)));
            tail.lemma_all_neg_filter_empty(same);
            assert(tail.filter(same) == Seq::<ConnectionView>::empty());
            assert(before.take(p).filter(same) + seq![x] + Seq::<ConnectionView>::empty()
                == (before.take(p).filter(same) + Seq::<ConnectionView>::empty()).push(x));
        } else {
            assert(seq![x].filter(same) == Seq::<ConnectionView>::empty());
            assert(before.take(p).filter(same) + Seq::<ConnectionView>::empty() + before.skip(
                p,
            ).filter(same) == before.take(p).filter(same) + before.skip(p).filter(same));
        }
    } else {
        assert(items =~= Seq::<ConnectionView>::empty());
    }
}

/// A port that is no port number sorts as port zero.
pub proof fn law_unreadable_port_sorts_as_zero(c: ConnectionView)
    requires
        parse_port(c.port) is None,
    ensures
        sort_key(Column::Port, c) == seq![0u32],
{
}

} // verus!
