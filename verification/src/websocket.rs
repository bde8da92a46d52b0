//! The realtime connection registry: live connections, which users hold them, and
//! which connections listen on which channels.

use crate::realtime::{spec_can_subscribe, spec_channel_name, starts_with, ChannelType};
use crate::text::{chars_equal, chars_of, spec_strs, spec_views, split_on, str_eq};
use vstd::prelude::*;

verus! {

/// The identifiers a list holds.
pub open spec fn spec_ids(v: Seq<String>) -> Set<Seq<char>> {
    Set::new(|x: Seq<char>| exists|i: int| 0 <= i < v.len() && (#[trigger] v[i])@ == x)
}

/// Whether a list holds no identifier twice.
pub open spec fn spec_distinct(v: Seq<String>) -> bool {
    forall|i: int, j: int| 0 <= i < v.len() && 0 <= j < v.len() && i != j ==> (#[trigger] v[i])@ != (
    #[trigger] v[j])@
}

/// The position of an identifier in a list.
fn find_id(v: &Vec<String>, x: &str) -> (r: Option<usize>)
    ensures
        match r {
            Some(i) => i < v@.len() && v@[i as int]@ == x@,
            None => !spec_ids(v@).contains(x@),
        },
{
    let mut i: usize = 0;
    while i < v.len()
        invariant
            i <= v@.len(),
            forall|k: int| 0 <= k < i ==> (#[trigger] v@[k])@ != x@,
        decreases v.len() - i,
    {
        if str_eq(v[i].as_str(), x) {
            return Some(i);
        }
        i = i + 1;
    }
    None
}

/// Adds an identifier to a list that holds none twice.
fn insert_id(v: &mut Vec<String>, x: &str)
    requires
        spec_distinct(old(v)@),
    ensures
        spec_distinct(final(v)@),
        spec_ids(final(v)@) == spec_ids(old(v)@).insert(x@),
{
    let ghost before = v@;
    match find_id(v, x) {
        Some(i) => {
            assert(spec_ids(before).insert(x@) =~= spec_ids(before)) by {
                assert(before[i as int]@ == x@);
            }
        },
        None => {
            v.push(String::from_str(x));
            assert(v@ == before.push(v@[before.len() as int]));
            assert forall|y: Seq<char>| spec_ids(v@).contains(y) <==> spec_ids(before).insert(x@).contains(y) by {
                if spec_ids(v@).contains(y) {
                    let i = choose|i: int| 0 <= i < v@.len() && (#[trigger] v@[i])@ == y;
                    if i < before.len() {
                        assert(before[i]@ == y);
                    }
                }
                if spec_ids(before).contains(y) {
                    let i = choose|i: int| 0 <= i < before.len() && (#[trigger] before[i])@ == y;
                    assert(v@[i]@ == y);
                }
                if y == x@ {
                    assert(v@[before.len() as int]@ == y);
                }
            }
            assert(spec_ids(v@) =~= spec_ids(before).insert(x@));
        },
    }
}

/// Removes an identifier from a list that holds none twice.
fn remove_id(v: &mut Vec<String>, x: &str)
    requires
        spec_distinct(old(v)@),
    ensures
        spec_distinct(final(v)@),
        spec_ids(final(v)@) == spec_ids(old(v)@).remove(x@),
        final(v)@.len() == 0 <==> spec_ids(old(v)@).remove(x@).is_empty(),
{
    let ghost before = v@;
    match find_id(v, x) {
        Some(i) => {
            v.remove(i);
            assert(v@ == before.remove(i as int));
            assert forall|y: Seq<char>| spec_ids(v@).contains(y) <==> spec_ids(before).remove(x@).contains(y) by {
                if spec_ids(v@).contains(y) {
                    let k = choose|k: int| 0 <= k < v@.len() && (#[trigger] v@[k])@ == y;
                    if k < i {
                        assert(before[k]@ == y);
                        assert(k != i);
                    } else {
                        assert(before[k + 1]@ == y);
                        assert(k + 1 != i);
                    }
                }
                if spec_ids(before).remove(x@).contains(y) {
                    let k = choose|k: int| 0 <= k < before.len() && (#[trigger] before[k])@ == y;
                    assert(k != i);
                    if k < i {
                        assert(v@[k]@ == y);
                    } else {
                        assert(v@[k - 1]@ == y);
                    }
                }
            }
            assert(spec_ids(v@) =~= spec_ids(before).remove(x@));
            proof {
                if v@.len() > 0 {
                    assert(spec_ids(v@).contains(v@[0]@));
                }
            }
        },
        None => {
            assert(spec_ids(before).remove(x@) =~= spec_ids(before));
            proof {
                if v@.len() > 0 {
                    assert(spec_ids(v@).contains(v@[0]@));
                }
            }
        },
    }
}

/// One key of a string-keyed table and the value filed under it.
pub struct Keyed<V> {
    pub key: String,
    pub value: V,
}

/// Whether no key of a table occurs twice.
pub open spec fn spec_keys_distinct<V>(t: Seq<Keyed<V>>) -> bool {
    forall|i: int, j: int| 0 <= i < t.len() && 0 <= j < t.len() && i != j ==> (#[trigger] t[i]).key@ != (
    #[trigger] t[j]).key@
}

/// What a string-keyed table holds: each key with its value.
pub open spec fn spec_entries<V>(t: Seq<Keyed<V>>) -> Map<Seq<char>, V> {
    Map::new(
        |k: Seq<char>| exists|i: int| 0 <= i < t.len() && (#[trigger] t[i]).key@ == k,
        |k: Seq<char>| t[choose|i: int| 0 <= i < t.len() && (#[trigger] t[i]).key@ == k].value,
    )
}

/// In a table with distinct keys, the entry at a position is what the table holds for
/// its key.
proof fn lemma_entries_at<V>(t: Seq<Keyed<V>>, i: int)
    requires
        spec_keys_distinct(t),
        0 <= i < t.len(),
    ensures
        spec_entries(t).contains_key(t[i].key@),
        spec_entries(t)[t[i].key@] == t[i].value,
{
    let k = t[i].key@;
    assert(t[i].key@ == k);
    let j = choose|j: int| 0 <= j < t.len() && (#[trigger] t[j]).key@ == k;
    assert(j == i);
}

/// Replacing an entry by one with the same key replaces what the table holds for it.
proof fn lemma_entries_update<V>(t: Seq<Keyed<V>>, i: int, e: Keyed<V>)
    requires
        spec_keys_distinct(t),
        0 <= i < t.len(),
        e.key@ == t[i].key@,
    ensures
        spec_keys_distinct(t.update(i, e)),
        spec_entries(t.update(i, e)) == spec_entries(t).insert(e.key@, e.value),
{
    let u = t.update(i, e);
    assert forall|a: int, b: int| 0 <= a < u.len() && 0 <= b < u.len() && a != b implies (#[trigger] u[a]).key@
        != (#[trigger] u[b]).key@ by {
        assert(u[a].key@ == t[a].key@);
        assert(u[b].key@ == t[b].key@);
    }
    assert forall|k: Seq<char>| #[trigger] spec_entries(u).contains_key(k) <==> spec_entries(t).insert(
        e.key@,
        e.value,
    ).contains_key(k) by {
        if spec_entries(u).contains_key(k) {
            let j = choose|j: int| 0 <= j < u.len() && (#[trigger] u[j]).key@ == k;
            assert(t[j].key@ == k);
        }
        if spec_entries(t).contains_key(k) {
            let j = choose|j: int| 0 <= j < t.len() && (#[trigger] t[j]).key@ == k;
            assert(u[j].key@ == k);
        }
        if k == e.key@ {
            assert(u[i].key@ == k);
        }
    }
    assert forall|k: Seq<char>| #[trigger] spec_entries(u).contains_key(k) implies spec_entries(u)[k]
        == spec_entries(t).insert(e.key@, e.value)[k] by {
        let j = choose|j: int| 0 <= j < u.len() && (#[trigger] u[j]).key@ == k;
        lemma_entries_at(u, j);
        if j != i {
            lemma_entries_at(t, j);
        }
    }
    assert(spec_entries(u) =~= spec_entries(t).insert(e.key@, e.value));
}

/// Appending an entry with a new key adds it to the table.
proof fn lemma_entries_push<V>(t: Seq<Keyed<V>>, e: Keyed<V>)
    requires
        spec_keys_distinct(t),
        !spec_entries(t).contains_key(e.key@),
    ensures
        spec_keys_distinct(t.push(e)),
        spec_entries(t.push(e)) == spec_entries(t).insert(e.key@, e.value),
{
    let u = t.push(e);
    assert forall|a: int, b: int| 0 <= a < u.len() && 0 <= b < u.len() && a != b implies (#[trigger] u[a]).key@
        != (#[trigger] u[b]).key@ by {
        if a == t.len() {
            assert(!(t[b].key@ == e.key@));
        } else if b == t.len() {
            assert(!(t[a].key@ == e.key@));
        } else {
            assert(u[a] == t[a] && u[b] == t[b]);
        }
    }
    assert forall|k: Seq<char>| #[trigger] spec_entries(u).contains_key(k) <==> spec_entries(t).insert(
        e.key@,
        e.value,
    ).contains_key(k) by {
        if spec_entries(u).contains_key(k) {
            let j = choose|j: int| 0 <= j < u.len() && (#[trigger] u[j]).key@ == k;
            if j < t.len() {
                assert(t[j].key@ == k);
            }
        }
        if spec_entries(t).contains_key(k) {
            let j = choose|j: int| 0 <= j < t.len() && (#[trigger] t[j]).key@ == k;
            assert(u[j].key@ == k);
        }
        if k == e.key@ {
            assert(u[t.len() as int].key@ == k);
        }
    }
    assert forall|k: Seq<char>| #[trigger] spec_entries(u).contains_key(k) implies spec_entries(u)[k]
        == spec_entries(t).insert(e.key@, e.value)[k] by {
        let j = choose|j: int| 0 <= j < u.len() && (#[trigger] u[j]).key@ == k;
        lemma_entries_at(u, j);
        if j < t.len() {
            lemma_entries_at(t, j);
        }
    }
    assert(spec_entries(u) =~= spec_entries(t).insert(e.key@, e.value));
}

/// Removing the entry at a position removes its key from the table.
proof fn lemma_entries_remove<V>(t: Seq<Keyed<V>>, i: int)
    requires
        spec_keys_distinct(t),
        0 <= i < t.len(),
    ensures
        spec_keys_distinct(t.remove(i)),
        spec_entries(t.remove(i)) == spec_entries(t).remove(t[i].key@),
{
    let u = t.remove(i);
    let gone = t[i].key@;
    assert forall|a: int, b: int| 0 <= a < u.len() && 0 <= b < u.len() && a != b implies (#[trigger] u[a]).key@
        != (#[trigger] u[b]).key@ by {
        let a2 = if a < i { a } else { a + 1 };
        let b2 = if b < i { b } else { b + 1 };
        assert(u[a] == t[a2] && u[b] == t[b2]);
    }
    assert forall|k: Seq<char>| #[trigger] spec_entries(u).contains_key(k) <==> spec_entries(t).remove(
        gone,
    ).contains_key(k) by {
        if spec_entries(u).contains_key(k) {
            let j = choose|j: int| 0 <= j < u.len() && (#[trigger] u[j]).key@ == k;
            let j2 = if j < i { j } else { j + 1 };
            assert(t[j2].key@ == k);
            assert(j2 != i);
        }
        if spec_entries(t).remove(gone).contains_key(k) {
            let j = choose|j: int| 0 <= j < t.len() && (#[trigger] t[j]).key@ == k;
            assert(j != i);
            if j < i {
                assert(u[j].key@ == k);
            } else {
                assert(u[j - 1].key@ == k);
            }
        }
    }
    assert forall|k: Seq<char>| #[trigger] spec_entries(u).contains_key(k) implies spec_entries(u)[k]
        == spec_entries(t).remove(gone)[k] by {
        let j = choose|j: int| 0 <= j < u.len() && (#[trigger] u[j]).key@ == k;
        let j2 = if j < i { j } else { j + 1 };
        lemma_entries_at(u, j);
        lemma_entries_at(t, j2);
    }
    assert(spec_entries(u) =~= spec_entries(t).remove(gone));
}

/// The position of a key in a table.
fn find_key<V>(t: &Vec<Keyed<V>>, k: &str) -> (r: Option<usize>)
    ensures
        match r {
            Some(i) => i < t@.len() && t@[i as int].key@ == k@,
            None => !spec_entries(t@).contains_key(k@),
        },
{
    let mut i: usize = 0;
    while i < t.len()
        invariant
            i <= t@.len(),
            forall|j: int| 0 <= j < i ==> (#[trigger] t@[j]).key@ != k@,
        decreases t.len() - i,
    {
        if str_eq(t[i].key.as_str(), k) {
            return Some(i);
        }
        i = i + 1;
    }
    None
}

/// A well-formed member table: distinct keys, each with a non-empty list of distinct
/// identifiers.
pub open spec fn spec_table_wf(t: Seq<Keyed<Vec<String>>>) -> bool {
    &&& spec_keys_distinct(t)
    &&& forall|i: int| 0 <= i < t.len() ==> spec_distinct((#[trigger] t[i]).value@) && t[i].value@.len() > 0
}

/// What a member table holds: each key with the set of identifiers filed under it.
pub open spec fn spec_table(t: Seq<Keyed<Vec<String>>>) -> Map<Seq<char>, Set<Seq<char>>> {
    Map::new(|k: Seq<char>| spec_entries(t).contains_key(k), |k: Seq<char>| spec_ids(spec_entries(t)[k]@))
}

/// The identifiers filed under a key (none when the key is absent).
pub open spec fn spec_members(m: Map<Seq<char>, Set<Seq<char>>>, k: Seq<char>) -> Set<Seq<char>> {
    if m.contains_key(k) {
        m[k]
    } else {
        Set::empty()
    }
}

/// The table after filing `x` under `k`.
pub open spec fn spec_table_add(m: Map<Seq<char>, Set<Seq<char>>>, k: Seq<char>, x: Seq<char>) -> Map<
    Seq<char>,
    Set<Seq<char>>,
> {
    m.insert(k, spec_members(m, k).insert(x))
}

/// The table after taking `x` out from under `k`; a key left without identifiers goes.
pub open spec fn spec_table_remove(m: Map<Seq<char>, Set<Seq<char>>>, k: Seq<char>, x: Seq<char>) -> Map<
    Seq<char>,
    Set<Seq<char>>,
> {
    if m.contains_key(k) {
        if m[k].remove(x).is_empty() {
            m.remove(k)
        } else {
            m.insert(k, m[k].remove(x))
        }
    } else {
        m
    }
}

/// How the member view follows the entries: inserting an entry inserts its set.
proof fn lemma_table_insert(t: Seq<Keyed<Vec<String>>>, u: Seq<Keyed<Vec<String>>>, k: Seq<char>, v: Vec<String>)
    requires
        spec_entries(u) == spec_entries(t).insert(k, v),
    ensures
        spec_table(u) == spec_table(t).insert(k, spec_ids(v@)),
{
    assert(spec_table(u) =~= spec_table(t).insert(k, spec_ids(v@)));
}

/// How the member view follows the entries: removing an entry removes its set.
proof fn lemma_table_drop(t: Seq<Keyed<Vec<String>>>, u: Seq<Keyed<Vec<String>>>, k: Seq<char>)
    requires
        spec_entries(u) == spec_entries(t).remove(k),
    ensures
        spec_table(u) == spec_table(t).remove(k),
{
    assert(spec_table(u) =~= spec_table(t).remove(k));
}

/// Files `x` under `k`.
fn table_add(t: &mut Vec<Keyed<Vec<String>>>, k: &str, x: &str)
    requires
        spec_table_wf(old(t)@),
    ensures
        spec_table_wf(final(t)@),
        spec_table(final(t)@) == spec_table_add(spec_table(old(t)@), k@, x@),
{
    let ghost before = t@;
    match find_key(t, k) {
        Some(i) => {
            proof {
                lemma_entries_at(before, i as int);
            }
            let mut e = t.remove(i);
            insert_id(&mut e.value, x);
            assert(spec_ids(e.value@).contains(x@));
            assert(e.value@.len() > 0) by {
                let w = choose|w: int| 0 <= w < e.value@.len() && (#[trigger] e.value@[w])@ == x@;
            }
            t.insert(i, e);
            assert(t@ =~= before.update(i as int, e));
            proof {
                lemma_entries_update(before, i as int, e);
                lemma_table_insert(before, t@, k@, e.value);
            }
        },
        None => {
            let mut members: Vec<String> = Vec::new();
            members.push(String::from_str(x));
            let e = Keyed { key: String::from_str(k), value: members };
            assert(spec_ids(e.value@) =~= Set::<Seq<char>>::empty().insert(x@)) by {
                assert(e.value@[0]@ == x@);
            }
            t.push(e);
            proof {
                lemma_entries_push(before, e);
                lemma_table_insert(before, t@, k@, e.value);
            }
        },
    }
}

/// Takes `x` out from under `k`; a key left empty goes.
fn table_remove(t: &mut Vec<Keyed<Vec<String>>>, k: &str, x: &str)
    requires
        spec_table_wf(old(t)@),
    ensures
        spec_table_wf(final(t)@),
        spec_table(final(t)@) == spec_table_remove(spec_table(old(t)@), k@, x@),
{
    let ghost before = t@;
    match find_key(t, k) {
        Some(i) => {
            proof {
                lemma_entries_at(before, i as int);
            }
            let mut e = t.remove(i);
            remove_id(&mut e.value, x);
            if e.value.len() == 0 {
                assert(t@ =~= before.remove(i as int));
                proof {
                    lemma_entries_remove(before, i as int);
                    lemma_table_drop(before, t@, k@);
                }
            } else {
                t.insert(i, e);
                assert(t@ =~= before.update(i as int, e));
                proof {
                    lemma_entries_update(before, i as int, e);
                    lemma_table_insert(before, t@, k@, e.value);
                }
            }
        },
        None => {},
    }
}

/// The identifiers filed under `k`, in filing order.
fn table_members(t: &Vec<Keyed<Vec<String>>>, k: &str) -> (r: Vec<String>)
    requires
        spec_table_wf(t@),
    ensures
        spec_ids(r@) == spec_members(spec_table(t@), k@),
        spec_distinct(r@),
{
    match find_key(t, k) {
        Some(i) => {
            proof {
                lemma_entries_at(t@, i as int);
                assert(spec_distinct(t@[i as int].value@));
            }
            let r = clone_ids(&t[i].value);
            r
        },
        None => {
            let r: Vec<String> = Vec::new();
            assert(spec_ids(r@) =~= Set::<Seq<char>>::empty());
            r
        },
    }
}

/// A copy of a list of identifiers.
fn clone_ids(v: &Vec<String>) -> (r: Vec<String>)
    ensures
        r@.len() == v@.len(),
        forall|i: int| 0 <= i < v@.len() ==> (#[trigger] r@[i])@ == v@[i]@,
        spec_ids(r@) == spec_ids(v@),
        spec_distinct(v@) ==> spec_distinct(r@),
{
    let mut r: Vec<String> = Vec::new();
    let mut i: usize = 0;
    while i < v.len()
        invariant
            i <= v@.len(),
            r@.len() == i,
            forall|k: int| 0 <= k < i ==> (#[trigger] r@[k])@ == v@[k]@,
        decreases v.len() - i,
    {
        r.push(v[i].clone());
        i = i + 1;
    }
    assert forall|y: Seq<char>| spec_ids(r@).contains(y) <==> spec_ids(v@).contains(y) by {
        if spec_ids(r@).contains(y) {
            let k = choose|k: int| 0 <= k < r@.len() && (#[trigger] r@[k])@ == y;
            assert(v@[k]@ == y);
        }
        if spec_ids(v@).contains(y) {
            let k = choose|k: int| 0 <= k < v@.len() && (#[trigger] v@[k])@ == y;
            assert(r@[k]@ == y);
        }
    }
    assert(spec_ids(r@) =~= spec_ids(v@));
    proof {
        if spec_distinct(v@) {
            assert forall|a: int, b: int| 0 <= a < r@.len() && 0 <= b < r@.len() && a != b implies (#[trigger] r@[a])@
                != (#[trigger] r@[b])@ by {
                assert(r@[a]@ == v@[a]@ && r@[b]@ == v@[b]@);
            }
        }
    }
    r
}

/// The identifiers of a list without its last element, plus that element.
proof fn lemma_ids_drop_last(v: Seq<String>)
    requires
        v.len() > 0,
    ensures
        spec_ids(v) == spec_ids(v.drop_last()).insert(v.last()@),
{
    let d = v.drop_last();
    assert forall|y: Seq<char>| spec_ids(v).contains(y) <==> spec_ids(d).insert(v.last()@).contains(y) by {
        if spec_ids(v).contains(y) {
            let k = choose|k: int| 0 <= k < v.len() && (#[trigger] v[k])@ == y;
            if k < d.len() {
                assert(d[k]@ == y);
            }
        }
        if spec_ids(d).contains(y) {
            let k = choose|k: int| 0 <= k < d.len() && (#[trigger] d[k])@ == y;
            assert(v[k]@ == y);
        }
        if y == v.last()@ {
            assert(v[v.len() - 1]@ == y);
        }
    }
    assert(spec_ids(v) =~= spec_ids(d).insert(v.last()@));
}

/// A list of distinct identifiers holds as many identifiers as it has elements.
pub proof fn lemma_ids_len(v: Seq<String>)
    requires
        spec_distinct(v),
    ensures
        spec_ids(v).finite(),
        spec_ids(v).len() == v.len(),
    decreases v.len(),
{
    if v.len() == 0 {
        assert(spec_ids(v) =~= Set::<Seq<char>>::empty());
    } else {
        let d = v.drop_last();
        assert(spec_distinct(d)) by {
            assert forall|a: int, b: int| 0 <= a < d.len() && 0 <= b < d.len() && a != b implies (#[trigger] d[a])@
                != (#[trigger] d[b])@ by {
                assert(d[a] == v[a] && d[b] == v[b]);
            }
        }
        lemma_ids_len(d);
        lemma_ids_drop_last(v);
        assert(!spec_ids(d).contains(v.last()@)) by {
            if spec_ids(d).contains(v.last()@) {
                let k = choose|k: int| 0 <= k < d.len() && (#[trigger] d[k])@ == v.last()@;
                assert(v[k]@ == v[v.len() - 1]@);
            }
        }
    }
}

/// A live realtime connection; times are Unix seconds.
pub struct Connection {
    pub user_id: String,
    pub connected_at: i64,
    pub last_ping_at: i64,
    pub subscriptions: Vec<String>,
}

/// The channels a connection listens on.
pub open spec fn spec_subs(c: Connection) -> Set<Seq<char>> {
    spec_ids(c.subscriptions@)
}

/// Every channel that a connection records is listed with that connection.
pub open spec fn spec_subscriptions_listed(
    conns: Map<Seq<char>, Connection>,
    chans: Map<Seq<char>, Set<Seq<char>>>,
) -> bool {
    forall|c: Seq<char>, ch: Seq<char>| #[trigger] spec_listed_pair(conns, chans, c, ch)
}

/// If connection `c` records channel `ch`, the channel lists the connection.
pub open spec fn spec_listed_pair(
    conns: Map<Seq<char>, Connection>,
    chans: Map<Seq<char>, Set<Seq<char>>>,
    c: Seq<char>,
    ch: Seq<char>,
) -> bool {
    conns.contains_key(c) && spec_subs(conns[c]).contains(ch) ==> chans.contains_key(ch) && chans[ch].contains(c)
}

/// Reads one instance of `spec_subscriptions_listed`.
proof fn lemma_listed_at(
    conns: Map<Seq<char>, Connection>,
    chans: Map<Seq<char>, Set<Seq<char>>>,
    c: Seq<char>,
    ch: Seq<char>,
)
    requires
        spec_subscriptions_listed(conns, chans),
        conns.contains_key(c),
        spec_subs(conns[c]).contains(ch),
    ensures
        chans.contains_key(ch),
        chans[ch].contains(c),
{
    assert(spec_listed_pair(conns, chans, c, ch));
}

/// The channel table after taking connection `c` out of each channel in `subs`.
pub open spec fn spec_leave_all(m: Map<Seq<char>, Set<Seq<char>>>, subs: Set<Seq<char>>, c: Seq<char>) -> Map<
    Seq<char>,
    Set<Seq<char>>,
> {
    Map::new(
        |ch: Seq<char>| m.contains_key(ch) && !(subs.contains(ch) && m[ch].remove(c).is_empty()),
        |ch: Seq<char>| if subs.contains(ch) { m[ch].remove(c) } else { m[ch] },
    )
}

/// The realtime connection registry: the live connections, the connections of each user,
/// and the connections listening on each channel.
pub struct WebSocketService {
    connections: Vec<Keyed<Connection>>,
    user_connections: Vec<Keyed<Vec<String>>>,
    channel_subscriptions: Vec<Keyed<Vec<String>>>,
}

/// How many connections listen on a channel.
pub struct ChannelCount {
    pub channel: String,
    pub subscriber_count: usize,
}

/// Counts over the registry.
pub struct ConnectionStats {
    pub total_connections: usize,
    pub active_users: usize,
    pub channels: Vec<ChannelCount>,
}

/// Online presence of a user.
pub struct OnlineStatus {
    pub is_online: bool,
    pub active_connections: usize,
}

impl WebSocketService {
    /// The live connections by id.
    pub closed spec fn connections_view(&self) -> Map<Seq<char>, Connection> {
        spec_entries(self.connections@)
    }

    /// The connections of each user.
    pub closed spec fn users_view(&self) -> Map<Seq<char>, Set<Seq<char>>> {
        spec_table(self.user_connections@)
    }

    /// The connections listening on each channel.
    pub closed spec fn channels_view(&self) -> Map<Seq<char>, Set<Seq<char>>> {
        spec_table(self.channel_subscriptions@)
    }

    /// The registry is consistent: tables without repeated keys or identifiers, no empty
    /// user or channel entries, and every subscription a connection records listed under
    /// its channel.
    pub closed spec fn inv(&self) -> bool {
        &&& spec_keys_distinct(self.connections@)
        &&& forall|i: int|
            0 <= i < self.connections@.len() ==> spec_distinct((#[trigger] self.connections@[i]).value.subscriptions@)
        &&& spec_table_wf(self.user_connections@)
        &&& spec_table_wf(self.channel_subscriptions@)
        &&& spec_subscriptions_listed(self.connections_view(), self.channels_view())
    }

    /// Every subscription that a connection records is listed under its channel.
    pub proof fn lemma_subscriptions_listed(&self)
        requires
            self.inv(),
        ensures
            spec_subscriptions_listed(self.connections_view(), self.channels_view()),
    {
    }

    /// No channel and no user of a consistent registry has an empty entry, so unsubscribing
    /// undoes subscribing on it (`law_unsubscribe_undoes_subscribe`).
    pub proof fn lemma_views_without_empty_entries(&self)
        requires
            self.inv(),
        ensures
            forall|k: Seq<char>| #[trigger] self.channels_view().contains_key(k) ==> !self.channels_view()[k].is_empty(),
            forall|k: Seq<char>| #[trigger] self.users_view().contains_key(k) ==> !self.users_view()[k].is_empty(),
    {
        lemma_no_empty_entries(self.channel_subscriptions@);
        lemma_no_empty_entries(self.user_connections@);
    }

    /// An empty registry.
    pub fn new() -> (s: Self)
        ensures
            s.inv(),
            s.connections_view() == Map::<Seq<char>, Connection>::empty(),
            s.users_view() == Map::<Seq<char>, Set<Seq<char>>>::empty(),
            s.channels_view() == Map::<Seq<char>, Set<Seq<char>>>::empty(),
    {
        let s = WebSocketService {
            connections: Vec::new(),
            user_connections: Vec::new(),
            channel_subscriptions: Vec::new(),
        };
        assert(s.connections_view() =~= Map::<Seq<char>, Connection>::empty());
        assert(s.users_view() =~= Map::<Seq<char>, Set<Seq<char>>>::empty());
        assert(s.channels_view() =~= Map::<Seq<char>, Set<Seq<char>>>::empty());
        s
    }

    /// Subscribes a connection to a channel: the channel lists the connection, and a
    /// registered connection records the channel.
    pub fn subscribe_to_channel(&mut self, connection_id: &str, channel: &str)
        requires
            old(self).inv(),
        ensures
            final(self).inv(),
            final(self).channels_view() == spec_table_add(old(self).channels_view(), channel@, connection_id@),
            final(self).users_view() == old(self).users_view(),
            final(self).connections_view().dom() == old(self).connections_view().dom(),
            forall|c: Seq<char>|
                #[trigger] old(self).connections_view().contains_key(c) && c != connection_id@
                    ==> final(self).connections_view()[c] == old(self).connections_view()[c],
            old(self).connections_view().contains_key(connection_id@) ==> {
                let before = old(self).connections_view()[connection_id@];
                let after = final(self).connections_view()[connection_id@];
                &&& after.user_id == before.user_id
                &&& after.connected_at == before.connected_at
                &&& after.last_ping_at == before.last_ping_at
                &&& spec_subs(after) == spec_subs(before).insert(channel@)
            },
    {
        let ghost old_conns = self.connections@;
        let ghost old_chans = self.channel_subscriptions@;
        match find_key(&self.connections, connection_id) {
            Some(i) => {
                proof {
                    lemma_entries_at(old_conns, i as int);
                }
                let mut e = self.connections.remove(i);
                insert_id(&mut e.value.subscriptions, channel);
                self.connections.insert(i, e);
                assert(self.connections@ =~= old_conns.update(i as int, e));
                proof {
                    lemma_entries_update(old_conns, i as int, e);
                }
                assert(spec_subs(spec_entries(self.connections@)[connection_id@]) == spec_subs(
                    spec_entries(old_conns)[connection_id@],
                ).insert(channel@));
            },
            None => {},
        }
        table_add(&mut self.channel_subscriptions, channel, connection_id);
        assert(spec_subscriptions_listed(spec_entries(old_conns), spec_table(old_chans)));
        assert forall|i: int|
            0 <= i < self.connections@.len() implies spec_distinct(
            (#[trigger] self.connections@[i]).value.subscriptions@,
        ) by {
            assert(spec_distinct(old_conns[i].value.subscriptions@));
        }
        let ghost nc = self.connections_view();
        let ghost nh = self.channels_view();
        assert forall|c: Seq<char>, ch: Seq<char>| #[trigger] spec_listed_pair(nc, nh, c, ch) by {
            if nc.contains_key(c) && spec_subs(nc[c]).contains(ch) && (c != connection_id@ || ch != channel@) {
                assert(spec_entries(old_conns).contains_key(c));
                if c != connection_id@ {
                    assert(spec_entries(self.connections@)[c] == spec_entries(old_conns)[c]);
                }
                assert(spec_subs(spec_entries(old_conns)[c]).contains(ch));
                lemma_listed_at(spec_entries(old_conns), spec_table(old_chans), c, ch);
            }
        }
        assert(spec_subscriptions_listed(nc, nh));
    }

    /// Unsubscribes a connection from a channel: the channel no longer lists it (a channel
    /// left without listeners goes), and a registered connection drops the channel.
    pub fn unsubscribe_from_channel(&mut self, connection_id: &str, channel: &str)
        requires
            old(self).inv(),
        ensures
            final(self).inv(),
            final(self).channels_view() == spec_table_remove(old(self).channels_view(), channel@, connection_id@),
            final(self).users_view() == old(self).users_view(),
            final(self).connections_view().dom() == old(self).connections_view().dom(),
            forall|c: Seq<char>|
                #[trigger] old(self).connections_view().contains_key(c) && c != connection_id@
                    ==> final(self).connections_view()[c] == old(self).connections_view()[c],
            old(self).connections_view().contains_key(connection_id@) ==> {
                let before = old(self).connections_view()[connection_id@];
                let after = final(self).connections_view()[connection_id@];
                &&& after.user_id == before.user_id
                &&& after.connected_at == before.connected_at
                &&& after.last_ping_at == before.last_ping_at
                &&& spec_subs(after) == spec_subs(before).remove(channel@)
            },
    {
        let ghost old_conns = self.connections@;
        let ghost old_chans = self.channel_subscriptions@;
        match find_key(&self.connections, connection_id) {
            Some(i) => {
                proof {
                    lemma_entries_at(old_conns, i as int);
                }
                let mut e = self.connections.remove(i);
                remove_id(&mut e.value.subscriptions, channel);
                self.connections.insert(i, e);
                assert(self.connections@ =~= old_conns.update(i as int, e));
                proof {
                    lemma_entries_update(old_conns, i as int, e);
                }
                assert(spec_subs(spec_entries(self.connections@)[connection_id@]) == spec_subs(
                    spec_entries(old_conns)[connection_id@],
                ).remove(channel@));
            },
            None => {},
        }
        table_remove(&mut self.channel_subscriptions, channel, connection_id);
        assert(spec_subscriptions_listed(spec_entries(old_conns), spec_table(old_chans)));
        assert forall|i: int|
            0 <= i < self.connections@.len() implies spec_distinct(
            (#[trigger] self.connections@[i]).value.subscriptions@,
        ) by {
            assert(spec_distinct(old_conns[i].value.subscriptions@));
        }
        let ghost nc = self.connections_view();
        let ghost nh = self.channels_view();
        assert forall|c: Seq<char>, ch: Seq<char>| #[trigger] spec_listed_pair(nc, nh, c, ch) by {
            if nc.contains_key(c) && spec_subs(nc[c]).contains(ch) {
                assert(spec_entries(old_conns).contains_key(c));
                if c != connection_id@ {
                    assert(spec_entries(self.connections@)[c] == spec_entries(old_conns)[c]);
                }
                assert(spec_subs(spec_entries(old_conns)[c]).contains(ch));
                lemma_listed_at(spec_entries(old_conns), spec_table(old_chans), c, ch);
                if ch == channel@ {
                    assert(c != connection_id@);
                    assert(spec_table(old_chans)[ch].remove(connection_id@).contains(c));
                }
            }
        }
        assert(spec_subscriptions_listed(nc, nh));
    }

    /// Registers a new connection of a user at time `now`: the connection is live with no
    /// other subscription than the user's notification channel, and the user lists it.
    pub fn register_connection(&mut self, connection_id: &str, user_id: &str, now: i64)
        requires
            old(self).inv(),
        ensures
            final(self).inv(),
            final(self).connections_view().dom() == old(self).connections_view().dom().insert(connection_id@),
            forall|c: Seq<char>|
                #[trigger] old(self).connections_view().contains_key(c) && c != connection_id@
                    ==> final(self).connections_view()[c] == old(self).connections_view()[c],
            final(self).connections_view()[connection_id@].user_id@ == user_id@,
            final(self).connections_view()[connection_id@].connected_at == now,
            final(self).connections_view()[connection_id@].last_ping_at == now,
            spec_subs(final(self).connections_view()[connection_id@]) == Set::<Seq<char>>::empty().insert(
                spec_channel_name(ChannelType::UserNotifications, user_id@),
            ),
            final(self).users_view() == spec_table_add(old(self).users_view(), user_id@, connection_id@),
            final(self).channels_view() == spec_table_add(
                old(self).channels_view(),
                spec_channel_name(ChannelType::UserNotifications, user_id@),
                connection_id@,
            ),
    {
        let ghost old_conns = self.connections@;
        let ghost old_chans = self.channel_subscriptions@;
        let fresh = Connection {
            user_id: String::from_str(user_id),
            connected_at: now,
            last_ping_at: now,
            subscriptions: Vec::new(),
        };
        assert(spec_subs(fresh) =~= Set::<Seq<char>>::empty());
        let entry = Keyed { key: String::from_str(connection_id), value: fresh };
        let found = find_key(&self.connections, connection_id);
        let ghost pos: int = match found {
            Some(i) => i as int,
            None => old_conns.len() as int,
        };
        match found {
            Some(i) => {
                self.connections.set(i, entry);
                proof {
                    lemma_entries_update(old_conns, i as int, entry);
                }
            },
            None => {
                self.connections.push(entry);
                proof {
                    lemma_entries_push(old_conns, entry);
                }
            },
        }
        let ghost mid = self.connections_view();
        assert(mid == spec_entries(old_conns).insert(connection_id@, fresh));
        assert(spec_subscriptions_listed(spec_entries(old_conns), spec_table(old_chans)));
        assert forall|i: int|
            0 <= i < self.connections@.len() implies spec_distinct(
            (#[trigger] self.connections@[i]).value.subscriptions@,
        ) by {
            if i == pos {
                assert(self.connections@[i] == entry);
            } else {
                assert(self.connections@[i] == old_conns[i]);
            }
        }
        assert forall|c: Seq<char>, ch: Seq<char>| #[trigger] spec_listed_pair(mid, spec_table(old_chans), c, ch) by {
            if mid.contains_key(c) && spec_subs(mid[c]).contains(ch) {
                assert(c != connection_id@);
                lemma_listed_at(spec_entries(old_conns), spec_table(old_chans), c, ch);
            }
        }
        assert(spec_subscriptions_listed(mid, spec_table(old_chans)));
        table_add(&mut self.user_connections, user_id, connection_id);
        let channel = ChannelType::UserNotifications.channel_name(user_id);
        self.subscribe_to_channel(connection_id, channel.as_str());
        assert forall|c: Seq<char>|
            #[trigger] spec_entries(old_conns).contains_key(c) && c != connection_id@ implies self.connections_view()[c]
            == spec_entries(old_conns)[c] by {
            assert(mid.contains_key(c));
        }
        assert(mid.contains_key(connection_id@));
    }

    /// Takes a connection out of the registry: it is no longer live, its user no longer
    /// lists it, and no channel it listened on lists it any more (channels left without
    /// listeners go).
    pub fn unregister_connection(&mut self, connection_id: &str, user_id: &str)
        requires
            old(self).inv(),
        ensures
            final(self).inv(),
            final(self).connections_view() == old(self).connections_view().remove(connection_id@),
            final(self).users_view() == spec_table_remove(old(self).users_view(), user_id@, connection_id@),
            final(self).channels_view() == spec_leave_all(
                old(self).channels_view(),
                if old(self).connections_view().contains_key(connection_id@) {
                    spec_subs(old(self).connections_view()[connection_id@])
                } else {
                    Set::<Seq<char>>::empty()
                },
                connection_id@,
            ),
    {
        let ghost old_conns = self.connections@;
        let ghost old_chans = self.channel_subscriptions@;
        let found = find_key(&self.connections, connection_id);
        let ghost pos: int = match found {
            Some(i) => i as int,
            None => -1,
        };
        let subs: Vec<String> = match found {
            Some(i) => {
                proof {
                    lemma_entries_at(old_conns, i as int);
                    assert(spec_distinct(old_conns[i as int].value.subscriptions@));
                }
                let e = self.connections.remove(i);
                proof {
                    lemma_entries_remove(old_conns, i as int);
                }
                e.value.subscriptions
            },
            None => {
                assert(spec_entries(old_conns).remove(connection_id@) =~= spec_entries(old_conns));
                Vec::new()
            },
        };
        assert(pos >= 0 ==> self.connections@ == old_conns.remove(pos));
        assert(pos < 0 ==> self.connections@ == old_conns);
        assert(self.connections_view() == spec_entries(old_conns).remove(connection_id@));
        let ghost gone = if spec_entries(old_conns).contains_key(connection_id@) {
            spec_subs(spec_entries(old_conns)[connection_id@])
        } else {
            Set::<Seq<char>>::empty()
        };
        assert(spec_ids(subs@) == gone);
        assert(spec_distinct(subs@));
        table_remove(&mut self.user_connections, user_id, connection_id);
        let ghost conns_after = self.connections@;
        let ghost users_after = self.user_connections@;
        let mut k: usize = 0;
        assert(spec_leave_all(spec_table(old_chans), spec_ids(subs@.take(0)), connection_id@) =~= spec_table(
            old_chans,
        )) by {
            assert(spec_ids(subs@.take(0)) =~= Set::<Seq<char>>::empty());
        }
        while k < subs.len()
            invariant
                k <= subs@.len(),
                spec_distinct(subs@),
                self.connections@ == conns_after,
                self.user_connections@ == users_after,
                spec_table_wf(self.channel_subscriptions@),
                spec_table(self.channel_subscriptions@) == spec_leave_all(
                    spec_table(old_chans),
                    spec_ids(subs@.take(k as int)),
                    connection_id@,
                ),
            decreases subs.len() - k,
        {
            let ghost done = spec_ids(subs@.take(k as int));
            let ghost h = subs@[k as int]@;
            proof {
                lemma_ids_drop_last(subs@.take(k + 1));
                assert(subs@.take(k + 1).drop_last() =~= subs@.take(k as int));
                assert(!done.contains(h)) by {
                    if done.contains(h) {
                        let w = choose|w: int| 0 <= w < k && (#[trigger] subs@.take(k as int)[w])@ == h;
                        assert(subs@[w]@ == subs@[k as int]@);
                    }
                }
            }
            table_remove(&mut self.channel_subscriptions, subs[k].as_str(), connection_id);
            proof {
                lemma_leave_one_more(spec_table(old_chans), done, h, connection_id@);
            }
            k = k + 1;
        }
        assert(subs@.take(subs@.len() as int) =~= subs@);
        assert forall|i: int|
            0 <= i < self.connections@.len() implies spec_distinct(
            (#[trigger] self.connections@[i]).value.subscriptions@,
        ) by {
            if pos >= 0 {
                let i2 = if i < pos { i } else { i + 1 };
                assert(self.connections@[i] == old_conns[i2]);
            } else {
                assert(self.connections@[i] == old_conns[i]);
            }
        }
        let ghost nc = self.connections_view();
        let ghost nh = self.channels_view();
        assert(spec_subscriptions_listed(spec_entries(old_conns), spec_table(old_chans)));
        assert forall|c: Seq<char>, ch: Seq<char>| #[trigger] spec_listed_pair(nc, nh, c, ch) by {
            if nc.contains_key(c) && spec_subs(nc[c]).contains(ch) {
                assert(c != connection_id@);
                lemma_listed_at(spec_entries(old_conns), spec_table(old_chans), c, ch);
                assert(spec_table(old_chans)[ch].remove(connection_id@).contains(c));
            }
        }
        assert(spec_subscriptions_listed(nc, nh));
    }

    /// Records a sign of life from a connection at time `now`.
    pub fn update_last_ping(&mut self, connection_id: &str, now: i64)
        requires
            old(self).inv(),
        ensures
            final(self).inv(),
            final(self).users_view() == old(self).users_view(),
            final(self).channels_view() == old(self).channels_view(),
            final(self).connections_view().dom() == old(self).connections_view().dom(),
            forall|c: Seq<char>|
                #[trigger] old(self).connections_view().contains_key(c) && c != connection_id@
                    ==> final(self).connections_view()[c] == old(self).connections_view()[c],
            old(self).connections_view().contains_key(connection_id@) ==> {
                let before = old(self).connections_view()[connection_id@];
                let after = final(self).connections_view()[connection_id@];
                &&& after.user_id == before.user_id
                &&& after.connected_at == before.connected_at
                &&& after.last_ping_at == now
                &&& after.subscriptions == before.subscriptions
            },
    {
        let ghost old_conns = self.connections@;
        let ghost old_chans = self.channel_subscriptions@;
        match find_key(&self.connections, connection_id) {
            Some(i) => {
                proof {
                    lemma_entries_at(old_conns, i as int);
                }
                let mut e = self.connections.remove(i);
                e.value.last_ping_at = now;
                self.connections.insert(i, e);
                assert(self.connections@ =~= old_conns.update(i as int, e));
                proof {
                    lemma_entries_update(old_conns, i as int, e);
                }
            },
            None => {},
        }
        assert(spec_subscriptions_listed(spec_entries(old_conns), spec_table(old_chans)));
        assert forall|i: int|
            0 <= i < self.connections@.len() implies spec_distinct(
            (#[trigger] self.connections@[i]).value.subscriptions@,
        ) by {
            assert(spec_distinct(old_conns[i].value.subscriptions@));
        }
        let ghost nc = self.connections_view();
        let ghost nh = self.channels_view();
        assert forall|c: Seq<char>, ch: Seq<char>| #[trigger] spec_listed_pair(nc, nh, c, ch) by {
            if nc.contains_key(c) && spec_subs(nc[c]).contains(ch) {
                assert(spec_subs(spec_entries(old_conns)[c]).contains(ch));
                lemma_listed_at(spec_entries(old_conns), spec_table(old_chans), c, ch);
            }
        }
        assert(spec_subscriptions_listed(nc, nh));
    }

    /// Handles a subscribe request: subscribes the connection to each requested channel
    /// that the user may listen on, in order, and returns those channels.
    pub fn subscribe_channels(&mut self, connection_id: &str, user_id: &str, channels: &Vec<String>) -> (accepted:
        Vec<String>)
        requires
            old(self).inv(),
        ensures
            final(self).inv(),
            spec_strs(accepted@) == spec_strs(channels@).filter(|ch: Seq<char>| spec_can_subscribe(user_id@, ch)),
            final(self).channels_view() == spec_join_all(old(self).channels_view(), spec_ids(accepted@), connection_id@),
            final(self).users_view() == old(self).users_view(),
            final(self).connections_view().dom() == old(self).connections_view().dom(),
            forall|c: Seq<char>|
                #[trigger] old(self).connections_view().contains_key(c) && c != connection_id@
                    ==> final(self).connections_view()[c] == old(self).connections_view()[c],
            old(self).connections_view().contains_key(connection_id@) ==> {
                let before = old(self).connections_view()[connection_id@];
                let after = final(self).connections_view()[connection_id@];
                &&& after.user_id == before.user_id
                &&& after.connected_at == before.connected_at
                &&& after.last_ping_at == before.last_ping_at
                &&& spec_subs(after) == spec_subs(before).union(spec_ids(accepted@))
            },
    {
        let ghost old_view = self.connections_view();
        let ghost old_users = self.users_view();
        let ghost old_chans = self.channels_view();
        let ghost pred = |ch: Seq<char>| spec_can_subscribe(user_id@, ch);
        let mut accepted: Vec<String> = Vec::new();
        let mut k: usize = 0;
        assert(spec_strs(channels@.take(0)).filter(pred) =~= Seq::<Seq<char>>::empty()) by {
            assert(spec_strs(channels@.take(0)) =~= Seq::<Seq<char>>::empty());
        }
        assert(spec_ids(accepted@) =~= Set::<Seq<char>>::empty());
        assert(spec_join_all(old_chans, Set::<Seq<char>>::empty(), connection_id@) =~= old_chans);
        proof {
            if old_view.contains_key(connection_id@) {
                assert(spec_subs(old_view[connection_id@]).union(Set::<Seq<char>>::empty()) =~= spec_subs(
                    old_view[connection_id@],
                ));
            }
        }
        while k < channels.len()
            invariant
                k <= channels@.len(),
                self.inv(),
                spec_strs(accepted@) == spec_strs(channels@.take(k as int)).filter(pred),
                pred == (|ch: Seq<char>| spec_can_subscribe(user_id@, ch)),
                self.channels_view() == spec_join_all(old_chans, spec_ids(accepted@), connection_id@),
                self.users_view() == old_users,
                self.connections_view().dom() == old_view.dom(),
                forall|c: Seq<char>|
                    #[trigger] old_view.contains_key(c) && c != connection_id@ ==> self.connections_view()[c]
                        == old_view[c],
                old_view.contains_key(connection_id@) ==> {
                    let before = old_view[connection_id@];
                    let after = self.connections_view()[connection_id@];
                    &&& after.user_id == before.user_id
                    &&& after.connected_at == before.connected_at
                    &&& after.last_ping_at == before.last_ping_at
                    &&& spec_subs(after) == spec_subs(before).union(spec_ids(accepted@))
                },
            decreases channels.len() - k,
        {
            let ghost before_acc = accepted@;
            let ghost mid_view = self.connections_view();
            proof {
                assert(spec_strs(channels@.take(k + 1)) =~= spec_strs(channels@.take(k as int)).push(
                    channels@[k as int]@,
                ));
                spec_strs(channels@.take(k as int)).lemma_filter_push(channels@[k as int]@, pred);
            }
            if self.can_subscribe_to_channel(user_id, channels[k].as_str()) {
                self.subscribe_to_channel(connection_id, channels[k].as_str());
                accepted.push(channels[k].clone());
                proof {
                    assert(spec_strs(accepted@) =~= spec_strs(before_acc).push(channels@[k as int]@));
                    lemma_ids_drop_last(accepted@);
                    assert(accepted@.drop_last() =~= before_acc);
                    lemma_join_one_more(old_chans, spec_ids(before_acc), channels@[k as int]@, connection_id@);
                    assert forall|c: Seq<char>|
                        #[trigger] old_view.contains_key(c) && c != connection_id@ implies self.connections_view()[c]
                            == old_view[c] by {
                        assert(mid_view.contains_key(c));
                    }
                    if old_view.contains_key(connection_id@) {
                        assert(mid_view.contains_key(connection_id@));
                        assert(spec_subs(old_view[connection_id@]).union(spec_ids(accepted@)) =~= spec_subs(
                            old_view[connection_id@],
                        ).union(spec_ids(before_acc)).insert(channels@[k as int]@));
                    }
                }
            }
            k = k + 1;
        }
        assert(channels@.take(channels@.len() as int) =~= channels@);
        accepted
    }

    /// Handles an unsubscribe request: unsubscribes the connection from each listed
    /// channel (channels left without listeners go).
    pub fn unsubscribe_channels(&mut self, connection_id: &str, channels: &Vec<String>)
        requires
            old(self).inv(),
        ensures
            final(self).inv(),
            final(self).channels_view() == spec_leave_all(old(self).channels_view(), spec_ids(channels@), connection_id@),
            final(self).users_view() == old(self).users_view(),
            final(self).connections_view().dom() == old(self).connections_view().dom(),
            forall|c: Seq<char>|
                #[trigger] old(self).connections_view().contains_key(c) && c != connection_id@
                    ==> final(self).connections_view()[c] == old(self).connections_view()[c],
            old(self).connections_view().contains_key(connection_id@) ==> {
                let before = old(self).connections_view()[connection_id@];
                let after = final(self).connections_view()[connection_id@];
                &&& after.user_id == before.user_id
                &&& after.connected_at == before.connected_at
                &&& after.last_ping_at == before.last_ping_at
                &&& spec_subs(after) == spec_subs(before).difference(spec_ids(channels@))
            },
    {
        let ghost old_view = self.connections_view();
        let ghost old_users = self.users_view();
        let ghost old_chans = self.channels_view();
        let mut k: usize = 0;
        assert(spec_ids(channels@.take(0)) =~= Set::<Seq<char>>::empty());
        assert(spec_leave_all(old_chans, Set::<Seq<char>>::empty(), connection_id@) =~= old_chans);
        proof {
            if old_view.contains_key(connection_id@) {
                assert(spec_subs(old_view[connection_id@]).difference(Set::<Seq<char>>::empty()) =~= spec_subs(
                    old_view[connection_id@],
                ));
            }
        }
        while k < channels.len()
            invariant
                k <= channels@.len(),
                self.inv(),
                self.channels_view() == spec_leave_all(old_chans, spec_ids(channels@.take(k as int)), connection_id@),
                self.users_view() == old_users,
                self.connections_view().dom() == old_view.dom(),
                forall|c: Seq<char>|
                    #[trigger] old_view.contains_key(c) && c != connection_id@ ==> self.connections_view()[c]
                        == old_view[c],
                old_view.contains_key(connection_id@) ==> {
                    let before = old_view[connection_id@];
                    let after = self.connections_view()[connection_id@];
                    &&& after.user_id == before.user_id
                    &&& after.connected_at == before.connected_at
                    &&& after.last_ping_at == before.last_ping_at
                    &&& spec_subs(after) == spec_subs(before).difference(spec_ids(channels@.take(k as int)))
                },
            decreases channels.len() - k,
        {
            let ghost done = spec_ids(channels@.take(k as int));
            let ghost h = channels@[k as int]@;
            let ghost mid_view = self.connections_view();
            proof {
                lemma_ids_drop_last(channels@.take(k + 1));
                assert(channels@.take(k + 1).drop_last() =~= channels@.take(k as int));
            }
            self.unsubscribe_from_channel(connection_id, channels[k].as_str());
            proof {
                lemma_leave_one_more(old_chans, done, h, connection_id@);
                assert forall|c: Seq<char>|
                    #[trigger] old_view.contains_key(c) && c != connection_id@ implies self.connections_view()[c]
                        == old_view[c] by {
                    assert(mid_view.contains_key(c));
                }
                if old_view.contains_key(connection_id@) {
                    assert(mid_view.contains_key(connection_id@));
                    assert(spec_subs(old_view[connection_id@]).difference(done.insert(h)) =~= spec_subs(
                        old_view[connection_id@],
                    ).difference(done).remove(h));
                }
            }
            k = k + 1;
        }
        assert(channels@.take(channels@.len() as int) =~= channels@);
    }

    /// Takes out every connection silent for more than five minutes before `now` (Unix
    /// seconds), with its user entry and its channel listings.
    pub fn cleanup_stale_connections(&mut self, now: i64)
        requires
            old(self).inv(),
            now >= i64::MIN + 300,
        ensures
            final(self).inv(),
            final(self).connections_view() == old(self).connections_view().remove_keys(
                spec_stale_ids(old(self).connections_view(), (now - 300) as i64),
            ),
            forall|u: Seq<char>, c: Seq<char>|
                #[trigger] spec_members(final(self).users_view(), u).contains(c) <==> (spec_members(
                    old(self).users_view(),
                    u,
                ).contains(c) && !(spec_stale_ids(old(self).connections_view(), (now - 300) as i64).contains(c)
                    && old(self).connections_view()[c].user_id@ == u)),
            forall|ch: Seq<char>, c: Seq<char>|
                #[trigger] spec_members(final(self).channels_view(), ch).contains(c) <==> (spec_members(
                    old(self).channels_view(),
                    ch,
                ).contains(c) && !(spec_stale_ids(old(self).connections_view(), (now - 300) as i64).contains(c)
                    && spec_subs(old(self).connections_view()[c]).contains(ch))),
    {
        let threshold: i64 = now - 300;
        let ghost old_c = self.connections_view();
        let ghost old_u = self.users_view();
        let ghost old_h = self.channels_view();
        let stale = self.stale_connections(threshold);
        assert forall|j: int| 0 <= j < stale@.len() implies {
            let c = (#[trigger] stale@[j]).0@;
            &&& old_c.contains_key(c)
            &&& old_c[c].last_ping_at < threshold
            &&& stale@[j].1@ == old_c[c].user_id@
        } by {
            let c = stale@[j].0@;
            assert(exists|k: int| 0 <= k < stale@.len() && (#[trigger] stale@[k]).0@ == c);
        }
        assert(spec_first_ids(stale@.take(0)) =~= Set::<Seq<char>>::empty());
        assert(old_c.remove_keys(Set::<Seq<char>>::empty()) =~= old_c);
        let mut k: usize = 0;
        while k < stale.len()
            invariant
                k <= stale@.len(),
                self.inv(),
                forall|j: int| 0 <= j < stale@.len() ==> {
                    let c = (#[trigger] stale@[j]).0@;
                    &&& old_c.contains_key(c)
                    &&& old_c[c].last_ping_at < threshold
                    &&& stale@[j].1@ == old_c[c].user_id@
                },
                self.connections_view() == old_c.remove_keys(spec_first_ids(stale@.take(k as int))),
                forall|u: Seq<char>, c: Seq<char>|
                    #[trigger] spec_members(self.users_view(), u).contains(c) <==> (spec_members(old_u, u).contains(c)
                        && !(spec_first_ids(stale@.take(k as int)).contains(c) && old_c[c].user_id@ == u)),
                forall|ch: Seq<char>, c: Seq<char>|
                    #[trigger] spec_members(self.channels_view(), ch).contains(c) <==> (spec_members(
                        old_h,
                        ch,
                    ).contains(c) && !(spec_first_ids(stale@.take(k as int)).contains(c) && spec_subs(
                        old_c[c],
                    ).contains(ch))),
            decreases stale.len() - k,
        {
            let ghost done = spec_first_ids(stale@.take(k as int));
            let ghost ck = stale@[k as int].0@;
            let ghost uk = stale@[k as int].1@;
            let ghost mid_c = self.connections_view();
            let ghost mid_u = self.users_view();
            let ghost mid_h = self.channels_view();
            proof {
                lemma_first_ids_step(stale@, k as int);
            }
            self.unregister_connection(stale[k].0.as_str(), stale[k].1.as_str());
            proof {
                let gone = if mid_c.contains_key(ck) {
                    spec_subs(mid_c[ck])
                } else {
                    Set::<Seq<char>>::empty()
                };
                assert(self.connections_view() =~= old_c.remove_keys(done.insert(ck)));
                assert forall|u: Seq<char>, c: Seq<char>|
                    #[trigger] spec_members(self.users_view(), u).contains(c) <==> (spec_members(old_u, u).contains(c)
                        && !(done.insert(ck).contains(c) && old_c[c].user_id@ == u)) by {
                    lemma_remove_members(mid_u, uk, ck, u, c);
                    assert(spec_members(mid_u, u).contains(c) <==> (spec_members(old_u, u).contains(c) && !(
                    done.contains(c) && old_c[c].user_id@ == u)));
                }
                assert forall|ch: Seq<char>, c: Seq<char>|
                    #[trigger] spec_members(self.channels_view(), ch).contains(c) <==> (spec_members(
                        old_h,
                        ch,
                    ).contains(c) && !(done.insert(ck).contains(c) && spec_subs(old_c[c]).contains(ch))) by {
                    lemma_leave_members(mid_h, gone, ck, ch, c);
                    assert(spec_members(mid_h, ch).contains(c) <==> (spec_members(old_h, ch).contains(c) && !(
                    done.contains(c) && spec_subs(old_c[c]).contains(ch))));
                    if !done.contains(ck) {
                        assert(mid_c.contains_key(ck));
                        assert(mid_c[ck] == old_c[ck]);
                    }
                }
            }
            k = k + 1;
        }
        assert(stale@.take(stale@.len() as int) =~= stale@);
        assert(spec_first_ids(stale@) =~= spec_stale_ids(old_c, threshold));
    }

    /// Counts of live connections, of users online and of listeners on each channel.
    pub fn get_stats(&self) -> (r: ConnectionStats)
        requires
            self.inv(),
        ensures
            r.total_connections == self.connections_view().dom().len(),
            r.active_users == self.users_view().dom().len(),
            r.channels@.len() == self.channels_view().dom().len(),
            forall|i: int|
                0 <= i < r.channels@.len() ==> {
                    let ch = (#[trigger] r.channels@[i]).channel@;
                    &&& self.channels_view().contains_key(ch)
                    &&& r.channels@[i].subscriber_count == self.channels_view()[ch].len()
                },
            forall|ch: Seq<char>|
                #[trigger] self.channels_view().contains_key(ch) ==> exists|i: int|
                    0 <= i < r.channels@.len() && (#[trigger] r.channels@[i]).channel@ == ch,
    {
        proof {
            lemma_entries_len(self.connections@);
            lemma_table_len(self.user_connections@);
            lemma_table_len(self.channel_subscriptions@);
        }
        let t = &self.channel_subscriptions;
        let mut channels: Vec<ChannelCount> = Vec::new();
        let mut i: usize = 0;
        while i < t.len()
            invariant
                i <= t@.len(),
                t@ == self.channel_subscriptions@,
                spec_table_wf(t@),
                channels@.len() == i,
                forall|j: int|
                    0 <= j < i ==> {
                        &&& (#[trigger] channels@[j]).channel@ == t@[j].key@
                        &&& channels@[j].subscriber_count == t@[j].value@.len()
                    },
            decreases t.len() - i,
        {
            channels.push(ChannelCount { channel: t[i].key.clone(), subscriber_count: t[i].value.len() });
            i = i + 1;
        }
        assert forall|j: int|
            0 <= j < channels@.len() implies {
                let ch = (#[trigger] channels@[j]).channel@;
                &&& self.channels_view().contains_key(ch)
                &&& channels@[j].subscriber_count == self.channels_view()[ch].len()
            } by {
            lemma_entries_at(t@, j);
            lemma_ids_len(t@[j].value@);
        }
        assert forall|ch: Seq<char>| #[trigger] self.channels_view().contains_key(ch) implies exists|j: int|
            0 <= j < channels@.len() && (#[trigger] channels@[j]).channel@ == ch by {
            let j = choose|j: int| 0 <= j < t@.len() && (#[trigger] t@[j]).key@ == ch;
            assert(channels@[j].channel@ == ch);
        }
        ConnectionStats {
            total_connections: self.connections.len(),
            active_users: self.user_connections.len(),
            channels,
        }
    }

    /// Whether a connection is live, so that a message can be sent to it.
    pub fn has_connection(&self, connection_id: &str) -> (r: bool)
        ensures
            r == self.connections_view().contains_key(connection_id@),
    {
        match find_key(&self.connections, connection_id) {
            Some(i) => {
                assert(self.connections@[i as int].key@ == connection_id@);
                true
            },
            None => false,
        }
    }

    /// Where a queued message goes: to every connection of its addressee when it has one,
    /// else to every listener of its channel when it has one, else nowhere.
    pub fn queue_recipients(&self, to_user_id: Option<&str>, channel: Option<&str>) -> (r: Vec<String>)
        requires
            self.inv(),
        ensures
            spec_distinct(r@),
            spec_ids(r@) == match to_user_id {
                Some(u) => spec_members(self.users_view(), u@),
                None => match channel {
                    Some(ch) => spec_members(self.channels_view(), ch@),
                    None => Set::<Seq<char>>::empty(),
                },
            },
    {
        match to_user_id {
            Some(u) => self.user_connection_ids(u),
            None => match channel {
                Some(ch) => self.channel_subscribers(ch),
                None => {
                    let r: Vec<String> = Vec::new();
                    assert(spec_ids(r@) =~= Set::<Seq<char>>::empty());
                    r
                },
            },
        }
    }

    /// Whether a user may listen on a channel: a user's notification and activity channels
    /// and a creator's revenue channel only to that user, every other channel to anyone.
    pub fn can_subscribe_to_channel(&self, user_id: &str, channel: &str) -> (r: bool)
        ensures
            r == spec_can_subscribe(user_id@, channel@),
    {
        let cs = chars_of(channel);
        if starts_with(&cs, "user_notifications:") || starts_with(&cs, "user_activity:") || starts_with(
            &cs,
            "creator_revenue:",
        ) {
            let parts = split_on(&cs, ':');
            let ghost pv = spec_views(parts@);
            let want = chars_of(user_id);
            if parts.len() > 1 {
                assert(pv[1] == parts@[1]@);
                chars_equal(&parts[1], &want)
            } else {
                let empty: Vec<char> = Vec::new();
                assert(empty@ =~= Seq::<char>::empty());
                chars_equal(&empty, &want)
            }
        } else {
            true
        }
    }

    /// The connections of a user, where messages to that user go.
    pub fn user_connection_ids(&self, user_id: &str) -> (r: Vec<String>)
        requires
            self.inv(),
        ensures
            spec_ids(r@) == spec_members(self.users_view(), user_id@),
            spec_distinct(r@),
    {
        table_members(&self.user_connections, user_id)
    }

    /// The connections listening on a channel, where a broadcast on it goes.
    pub fn channel_subscribers(&self, channel: &str) -> (r: Vec<String>)
        requires
            self.inv(),
        ensures
            spec_ids(r@) == spec_members(self.channels_view(), channel@),
            spec_distinct(r@),
    {
        table_members(&self.channel_subscriptions, channel)
    }

    /// Whether a user is online, and with how many connections.
    pub fn get_user_online_status(&self, user_id: &str) -> (s: OnlineStatus)
        requires
            self.inv(),
        ensures
            s.active_connections == spec_members(self.users_view(), user_id@).len(),
            s.is_online == (s.active_connections > 0),
    {
        let ids = self.user_connection_ids(user_id);
        proof {
            lemma_ids_len(ids@);
        }
        OnlineStatus { is_online: ids.len() > 0, active_connections: ids.len() }
    }

    /// The live connections silent since before `threshold`, each with its user.
    pub fn stale_connections(&self, threshold: i64) -> (r: Vec<(String, String)>)
        requires
            self.inv(),
        ensures
            forall|c: Seq<char>|
                (exists|k: int| 0 <= k < r@.len() && (#[trigger] r@[k]).0@ == c) <==> (
                self.connections_view().contains_key(c) && self.connections_view()[c].last_ping_at < threshold),
            forall|k: int|
                0 <= k < r@.len() ==> (#[trigger] r@[k]).1@ == self.connections_view()[r@[k].0@].user_id@,
    {
        let mut r: Vec<(String, String)> = Vec::new();
        let ghost mut idx: Seq<int> = Seq::empty();
        let mut i: usize = 0;
        while i < self.connections.len()
            invariant
                i <= self.connections@.len(),
                spec_keys_distinct(self.connections@),
                idx.len() == r@.len(),
                forall|k: int|
                    0 <= k < r@.len() ==> {
                        let j = #[trigger] idx[k];
                        &&& 0 <= j < i
                        &&& self.connections@[j].key@ == r@[k].0@
                        &&& self.connections@[j].value.last_ping_at < threshold
                        &&& r@[k].1@ == self.connections@[j].value.user_id@
                    },
                forall|j: int|
                    0 <= j < i && (#[trigger] self.connections@[j]).value.last_ping_at < threshold ==> exists|k: int|
                        0 <= k < r@.len() && #[trigger] idx[k] == j,
            decreases self.connections.len() - i,
        {
            let e = &self.connections[i];
            if e.value.last_ping_at < threshold {
                let ghost before = idx;
                r.push((e.key.clone(), e.value.user_id.clone()));
                proof {
                    idx = idx.push(i as int);
                    assert forall|j: int|
                        0 <= j < i + 1 && (#[trigger] self.connections@[j]).value.last_ping_at < threshold implies exists|k: int|
                            0 <= k < r@.len() && #[trigger] idx[k] == j by {
                        if j < i {
                            let k = choose|k: int| 0 <= k < before.len() && #[trigger] before[k] == j;
                            assert(idx[k] == before[k]);
                        } else {
                            assert(idx[before.len() as int] == j);
                        }
                    }
                }
            }
            i = i + 1;
        }
        assert forall|c: Seq<char>|
            (exists|k: int| 0 <= k < r@.len() && (#[trigger] r@[k]).0@ == c) <==> (
            self.connections_view().contains_key(c) && self.connections_view()[c].last_ping_at < threshold) by {
            if exists|k: int| 0 <= k < r@.len() && (#[trigger] r@[k]).0@ == c {
                let k = choose|k: int| 0 <= k < r@.len() && (#[trigger] r@[k]).0@ == c;
                lemma_entries_at(self.connections@, idx[k]);
            }
            if self.connections_view().contains_key(c) && self.connections_view()[c].last_ping_at < threshold {
                let j = choose|j: int| 0 <= j < self.connections@.len() && (#[trigger] self.connections@[j]).key@ == c;
                lemma_entries_at(self.connections@, j);
                let k = choose|k: int| 0 <= k < r@.len() && #[trigger] idx[k] == j;
                assert(r@[k].0@ == c);
            }
        }
        assert forall|k: int| 0 <= k < r@.len() implies (#[trigger] r@[k]).1@ == self.connections_view()[r@[k].0@].user_id@ by {
            lemma_entries_at(self.connections@, idx[k]);
        }
        r
    }
}

/// Leaving one more channel extends the set of channels left.
proof fn lemma_leave_one_more(m: Map<Seq<char>, Set<Seq<char>>>, done: Set<Seq<char>>, h: Seq<char>, c: Seq<char>)
    ensures
        spec_table_remove(spec_leave_all(m, done, c), h, c) == spec_leave_all(m, done.insert(h), c),
{
    let l = spec_leave_all(m, done, c);
    if done.contains(h) {
        assert(done.insert(h) =~= done);
        if l.contains_key(h) {
            assert(l[h].remove(c) =~= l[h]);
        }
    }
    assert(spec_table_remove(l, h, c) =~= spec_leave_all(m, done.insert(h), c));
}

/// The channel table after listing connection `c` on each channel in `subs`.
pub open spec fn spec_join_all(m: Map<Seq<char>, Set<Seq<char>>>, subs: Set<Seq<char>>, c: Seq<char>) -> Map<
    Seq<char>,
    Set<Seq<char>>,
> {
    Map::new(
        |ch: Seq<char>| m.contains_key(ch) || subs.contains(ch),
        |ch: Seq<char>| if subs.contains(ch) { spec_members(m, ch).insert(c) } else { m[ch] },
    )
}

/// Joining one more channel extends the set of channels joined.
proof fn lemma_join_one_more(m: Map<Seq<char>, Set<Seq<char>>>, done: Set<Seq<char>>, h: Seq<char>, c: Seq<char>)
    ensures
        spec_table_add(spec_join_all(m, done, c), h, c) == spec_join_all(m, done.insert(h), c),
{
    let j = spec_join_all(m, done, c);
    if done.contains(h) {
        assert(done.insert(h) =~= done);
        assert(j[h].insert(c) =~= j[h]);
    }
    assert(spec_table_add(j, h, c) =~= spec_join_all(m, done.insert(h), c));
}

/// The connections silent since before `threshold`.
pub open spec fn spec_stale_ids(m: Map<Seq<char>, Connection>, threshold: i64) -> Set<Seq<char>> {
    Set::new(|c: Seq<char>| m.contains_key(c) && m[c].last_ping_at < threshold)
}

/// The connection ids of a list of (connection, user) pairs.
pub open spec fn spec_first_ids(r: Seq<(String, String)>) -> Set<Seq<char>> {
    Set::new(|c: Seq<char>| exists|j: int| 0 <= j < r.len() && (#[trigger] r[j]).0@ == c)
}

/// The connection ids of a longer prefix.
proof fn lemma_first_ids_step(r: Seq<(String, String)>, k: int)
    requires
        0 <= k < r.len(),
    ensures
        spec_first_ids(r.take(k + 1)) == spec_first_ids(r.take(k)).insert(r[k].0@),
{
    let a = r.take(k + 1);
    let b = r.take(k);
    assert forall|c: Seq<char>| spec_first_ids(a).contains(c) <==> spec_first_ids(b).insert(r[k].0@).contains(c) by {
        if spec_first_ids(a).contains(c) {
            let j = choose|j: int| 0 <= j < a.len() && (#[trigger] a[j]).0@ == c;
            if j < k {
                assert(b[j] == a[j]);
            }
        }
        if spec_first_ids(b).contains(c) {
            let j = choose|j: int| 0 <= j < b.len() && (#[trigger] b[j]).0@ == c;
            assert(a[j] == b[j]);
        }
        if c == r[k].0@ {
            assert(a[k] == r[k]);
        }
    }
    assert(spec_first_ids(a) =~= spec_first_ids(b).insert(r[k].0@));
}

/// Who a key lists after one identifier is taken out from under one key.
proof fn lemma_remove_members(
    m: Map<Seq<char>, Set<Seq<char>>>,
    k: Seq<char>,
    x: Seq<char>,
    k2: Seq<char>,
    y: Seq<char>,
)
    ensures
        spec_members(spec_table_remove(m, k, x), k2).contains(y) <==> (spec_members(m, k2).contains(y) && !(k2
            == k && y == x)),
{
    if m.contains_key(k) && m[k].remove(x).is_empty() && k2 == k && y != x && m[k].contains(y) {
        assert(m[k].remove(x).contains(y));
    }
}

/// Who a channel lists after a connection leaves a set of channels.
proof fn lemma_leave_members(
    m: Map<Seq<char>, Set<Seq<char>>>,
    subs: Set<Seq<char>>,
    c: Seq<char>,
    ch: Seq<char>,
    y: Seq<char>,
)
    ensures
        spec_members(spec_leave_all(m, subs, c), ch).contains(y) <==> (spec_members(m, ch).contains(y) && !(y
            == c && subs.contains(ch))),
{
    if m.contains_key(ch) && subs.contains(ch) && m[ch].remove(c).is_empty() && y != c && m[ch].contains(y) {
        assert(m[ch].remove(c).contains(y));
    }
}

/// A table with distinct keys holds as many keys as it has entries.
proof fn lemma_entries_len<V>(t: Seq<Keyed<V>>)
    requires
        spec_keys_distinct(t),
    ensures
        spec_entries(t).dom().finite(),
        spec_entries(t).dom().len() == t.len(),
    decreases t.len(),
{
    if t.len() == 0 {
        assert(spec_entries(t).dom() =~= Set::<Seq<char>>::empty());
    } else {
        let d = t.drop_last();
        let e = t.last();
        assert(spec_keys_distinct(d)) by {
            assert forall|a: int, b: int| 0 <= a < d.len() && 0 <= b < d.len() && a != b implies (#[trigger] d[a]).key@
                != (#[trigger] d[b]).key@ by {
                assert(d[a] == t[a] && d[b] == t[b]);
            }
        }
        lemma_entries_len(d);
        assert(!spec_entries(d).contains_key(e.key@)) by {
            if spec_entries(d).contains_key(e.key@) {
                let j = choose|j: int| 0 <= j < d.len() && (#[trigger] d[j]).key@ == e.key@;
                assert(t[j].key@ == t[t.len() - 1].key@);
            }
        }
        lemma_entries_push(d, e);
        assert(d.push(e) =~= t);
        assert(spec_entries(t).dom() =~= spec_entries(d).dom().insert(e.key@));
    }
}

/// A table whose every entry is a non-empty list holds as many keys as it has entries.
proof fn lemma_table_len(t: Seq<Keyed<Vec<String>>>)
    requires
        spec_table_wf(t),
    ensures
        spec_table(t).dom().finite(),
        spec_table(t).dom().len() == t.len(),
{
    lemma_entries_len(t);
    assert(spec_table(t).dom() =~= spec_entries(t).dom());
}

/// Unsubscribing undoes subscribing: filing a connection under a channel that does not
/// list it yet and then taking it out again leaves a table without empty entries as it
/// was. The same holds of a user's connection list.
pub proof fn law_unsubscribe_undoes_subscribe(m: Map<Seq<char>, Set<Seq<char>>>, ch: Seq<char>, c: Seq<char>)
    requires
        forall|k: Seq<char>| #[trigger] m.contains_key(k) ==> !m[k].is_empty(),
        !spec_members(m, ch).contains(c),
    ensures
        spec_table_remove(spec_table_add(m, ch, c), ch, c) == m,
{
    let added = spec_table_add(m, ch, c);
    assert(added[ch].remove(c) =~= spec_members(m, ch));
    if m.contains_key(ch) {
        assert(!m[ch].is_empty());
        assert(spec_table_remove(added, ch, c) =~= m);
    } else {
        assert(spec_members(m, ch) =~= Set::<Seq<char>>::empty());
        assert(spec_table_remove(added, ch, c) =~= m);
    }
}

/// A well-formed member table has no empty entries.
proof fn lemma_no_empty_entries(t: Seq<Keyed<Vec<String>>>)
    requires
        spec_table_wf(t),
    ensures
        forall|k: Seq<char>| #[trigger] spec_table(t).contains_key(k) ==> !spec_table(t)[k].is_empty(),
{
    assert forall|k: Seq<char>| #[trigger] spec_table(t).contains_key(k) implies !spec_table(t)[k].is_empty() by {
        let j = choose|j: int| 0 <= j < t.len() && (#[trigger] t[j]).key@ == k;
        lemma_entries_at(t, j);
        assert(t[j].value@.len() > 0);
        assert(spec_ids(t[j].value@).contains(t[j].value@[0]@));
    }
}

} // verus!
