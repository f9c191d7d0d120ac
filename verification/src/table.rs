//! Lists of records in which no key occurs twice, read as finite maps from
//! key to record.

use vstd::prelude::*;
use crate::model::{
    ActiveTunnel, ActiveTunnelView, ConnectionView, SSHConnection, SSHTunnel, TunnelView,
};

verus! {

/// A record that is found by a textual key which its view determines.
pub trait Keyed: View + Sized {
    /// The key of a record with the given view.
    spec fn key(v: Self::V) -> Seq<char>;

    /// The key of this record.
    fn key_ref(&self) -> (k: &String)
        ensures
            k@ == Self::key(self@),
    ;
}

impl Keyed for SSHConnection {
    open spec fn key(v: ConnectionView) -> Seq<char> {
        v.id
    }

    fn key_ref(&self) -> (k: &String) {
        &self.id
    }
}

impl Keyed for SSHTunnel {
    open spec fn key(v: TunnelView) -> Seq<char> {
        v.id
    }

    fn key_ref(&self) -> (k: &String) {
        &self.id
    }
}

impl Keyed for String {
    open spec fn key(v: Seq<char>) -> Seq<char> {
        v
    }

    fn key_ref(&self) -> (k: &String) {
        self
    }
}

impl Keyed for ActiveTunnel {
    open spec fn key(v: ActiveTunnelView) -> Seq<char> {
        v.tunnel.id
    }

    fn key_ref(&self) -> (k: &String) {
        &self.tunnel.id
    }
}

/// A record that belongs to an owner, named by the owner's key.
pub trait Owned: Keyed {
    /// The owner's key in a record with the given view.
    spec fn owner(v: Self::V) -> Seq<char>;

    /// The owner's key in this record.
    fn owner_ref(&self) -> (k: &String)
        ensures
            k@ == Self::owner(self@),
    ;
}

impl Owned for SSHTunnel {
    open spec fn owner(v: TunnelView) -> Seq<char> {
        v.connection_id
    }

    fn owner_ref(&self) -> (k: &String) {
        &self.connection_id
    }
}

impl Owned for ActiveTunnel {
    open spec fn owner(v: ActiveTunnelView) -> Seq<char> {
        v.tunnel.connection_id
    }

    fn owner_ref(&self) -> (k: &String) {
        &self.tunnel.connection_id
    }
}

/// The key of the record at position `i`.
pub open spec fn key_at<T: Keyed>(s: Seq<T>, i: int) -> Seq<char> {
    T::key(s[i]@)
}

/// No key occurs at two positions.
pub open spec fn distinct<T: Keyed>(s: Seq<T>) -> bool {
    forall|i: int, j: int| 0 <= i < j < s.len() ==> key_at(s, i) != key_at(s, j)
}

/// Some record has key `k`.
pub open spec fn has_key<T: Keyed>(s: Seq<T>, k: Seq<char>) -> bool {
    exists|i: int| 0 <= i < s.len() && key_at(s, i) == k
}

/// A position at which key `k` occurs, where there is one.
pub open spec fn slot<T: Keyed>(s: Seq<T>, k: Seq<char>) -> int {
    choose|i: int| 0 <= i < s.len() && key_at(s, i) == k
}

/// The list read as a map from key to the view of the record.
pub open spec fn as_map<T: Keyed>(s: Seq<T>) -> Map<Seq<char>, T::V> {
    Map::new(|k: Seq<char>| has_key(s, k), |k: Seq<char>| s[slot(s, k)]@)
}

/// In a list without repeated keys, a key leads back to its position.
pub proof fn lemma_slot<T: Keyed>(s: Seq<T>, i: int)
    requires
        distinct(s),
        0 <= i < s.len(),
    ensures
        has_key(s, key_at(s, i)),
        slot(s, key_at(s, i)) == i,
        as_map(s).contains_key(key_at(s, i)),
        as_map(s)[key_at(s, i)] == s[i]@,
{
    let k = key_at(s, i);
    assert(0 <= i < s.len() && key_at(s, i) == k);
    let j = slot(s, k);
    assert(0 <= j < s.len() && key_at(s, j) == k);
    if j < i {
        assert(key_at(s, j) != key_at(s, i));
    } else if i < j {
        assert(key_at(s, i) != key_at(s, j));
    }
}

/// A key of the map occurs at its slot.
pub proof fn lemma_has_key<T: Keyed>(s: Seq<T>, k: Seq<char>)
    requires
        has_key(s, k),
    ensures
        0 <= slot(s, k) < s.len(),
        key_at(s, slot(s, k)) == k,
        as_map(s).contains_key(k),
        as_map(s)[k] == s[slot(s, k)]@,
{
}

/// The empty list is the empty map.
pub proof fn lemma_empty<T: Keyed>(s: Seq<T>)
    requires
        s.len() == 0,
    ensures
        distinct(s),
        as_map(s) =~= Map::<Seq<char>, T::V>::empty(),
{
}

/// Appending a record under a new key inserts it into the map.
pub proof fn lemma_push<T: Keyed>(s: Seq<T>, x: T)
    requires
        distinct(s),
        !has_key(s, T::key(x@)),
    ensures
        distinct(s.push(x)),
        as_map(s.push(x)) =~= as_map(s).insert(T::key(x@), x@),
{
    let t = s.push(x);
    let kx = T::key(x@);
    assert forall|i: int, j: int| 0 <= i < j < t.len() implies key_at(t, i) != key_at(t, j) by {
        if j == s.len() {
            assert(key_at(s, i) == key_at(t, i));
            if key_at(t, i) == kx {
                assert(has_key(s, kx));
            }
        } else {
            assert(key_at(s, i) == key_at(t, i));
            assert(key_at(s, j) == key_at(t, j));
        }
    }
    assert(key_at(t, s.len() as int) == kx);
    assert forall|k: Seq<char>| has_key(t, k) <==> (k == kx || has_key(s, k)) by {
        if has_key(t, k) {
            let i = slot(t, k);
            if i < s.len() {
                assert(key_at(s, i) == k);
            }
        }
        if has_key(s, k) {
            let i = slot(s, k);
            assert(key_at(t, i) == k);
        }
    }
    assert forall|k: Seq<char>| has_key(t, k) implies #[trigger] as_map(t)[k] == as_map(s).insert(
        kx,
        x@,
    )[k] by {
        if k == kx {
            lemma_slot(t, s.len() as int);
        } else {
            let i = slot(s, k);
            assert(key_at(t, i) == k);
            lemma_slot(t, i);
            assert(t[i] == s[i]);
        }
    }
}

/// Replacing a record by one with the same key replaces its entry in the map.
pub proof fn lemma_update<T: Keyed>(s: Seq<T>, i: int, x: T)
    requires
        distinct(s),
        0 <= i < s.len(),
        T::key(x@) == key_at(s, i),
    ensures
        distinct(s.update(i, x)),
        as_map(s.update(i, x)) =~= as_map(s).insert(T::key(x@), x@),
{
    let t = s.update(i, x);
    let kx = T::key(x@);
    assert forall|a: int| 0 <= a < s.len() implies key_at(t, a) == key_at(s, a) by {}
    assert forall|a: int, b: int| 0 <= a < b < t.len() implies key_at(t, a) != key_at(t, b) by {
        assert(key_at(s, a) != key_at(s, b));
    }
    assert forall|k: Seq<char>| has_key(t, k) <==> has_key(s, k) by {
        if has_key(t, k) {
            let a = slot(t, k);
            assert(key_at(s, a) == k);
        }
        if has_key(s, k) {
            let a = slot(s, k);
            assert(key_at(t, a) == k);
        }
    }
    lemma_slot(s, i);
    assert forall|k: Seq<char>| has_key(t, k) implies #[trigger] as_map(t)[k] == as_map(s).insert(
        kx,
        x@,
    )[k] by {
        let a = slot(s, k);
        assert(key_at(t, a) == k);
        lemma_slot(t, a);
        lemma_slot(s, a);
    }
}

/// Taking a record out removes its key from the map.
pub proof fn lemma_remove<T: Keyed>(s: Seq<T>, i: int)
    requires
        distinct(s),
        0 <= i < s.len(),
    ensures
        distinct(s.remove(i)),
        as_map(s.remove(i)) =~= as_map(s).remove(key_at(s, i)),
{
    let t = s.remove(i);
    let ki = key_at(s, i);
    assert forall|a: int| 0 <= a < t.len() implies key_at(t, a) == key_at(
        s,
        if a < i {
            a
        } else {
            a + 1
        },
    ) by {}
    assert forall|a: int, b: int| 0 <= a < b < t.len() implies key_at(t, a) != key_at(t, b) by {
        let a2 = if a < i { a } else { a + 1 };
        let b2 = if b < i { b } else { b + 1 };
        assert(key_at(s, a2) != key_at(s, b2));
    }
    assert forall|k: Seq<char>| has_key(t, k) <==> (has_key(s, k) && k != ki) by {
        if has_key(t, k) {
            let a = slot(t, k);
            let a2 = if a < i { a } else { a + 1 };
            assert(key_at(s, a2) == k);
            if k == ki {
                if a2 < i {
                    assert(key_at(s, a2) != key_at(s, i));
                } else {
                    assert(key_at(s, i) != key_at(s, a2));
                }
            }
        }
        if has_key(s, k) && k != ki {
            let a = slot(s, k);
            let a2 = if a < i { a } else { a - 1 };
            assert(key_at(t, a2) == k);
        }
    }
    assert forall|k: Seq<char>| has_key(t, k) implies #[trigger] as_map(t)[k] == as_map(s).remove(
        ki,
    )[k] by {
        let a = slot(t, k);
        let a2 = if a < i { a } else { a + 1 };
        lemma_slot(t, a);
        lemma_slot(s, a2);
    }
}

/// A key that occurs at no position is not in the map.
pub proof fn lemma_absent<T: Keyed>(s: Seq<T>, k: Seq<char>)
    requires
        forall|i: int| 0 <= i < s.len() ==> key_at(s, i) != k,
    ensures
        !has_key(s, k),
        !as_map(s).contains_key(k),
{
}

/// The keys of the records of `m` that belong to `id`.
pub open spec fn owned_keys<T: Owned>(m: Map<Seq<char>, T::V>, id: Seq<char>) -> Set<Seq<char>> {
    Set::new(|k: Seq<char>| m.contains_key(k) && T::owner(m[k]) == id)
}

/// Takes the records that belong to `id` out of the list and returns them.
pub fn remove_owned<T: Owned>(v: &mut Vec<T>, id: &String) -> (removed: Vec<T>)
    requires
        distinct(old(v)@),
    ensures
        distinct(final(v)@),
        distinct(removed@),
        as_map(final(v)@) == as_map(old(v)@).remove_keys(owned_keys::<T>(as_map(old(v)@), id@)),
        as_map(removed@) == as_map(old(v)@).restrict(owned_keys::<T>(as_map(old(v)@), id@)),
{
    let mut removed: Vec<T> = Vec::new();
    let ghost whole = as_map(v@);
    let mut i: usize = 0;
    proof {
        lemma_empty(removed@);
        assert(as_map(v@).union_prefer_right(as_map(removed@)) =~= whole);
    }
    while i < v.len()
        invariant
            i <= v.len(),
            distinct(v@),
            distinct(removed@),
            forall|j: int| 0 <= j < i ==> T::owner(#[trigger] v@[j]@) != id@,
            forall|j: int| 0 <= j < removed.len() ==> T::owner(#[trigger] removed@[j]@) == id@,
            forall|k: Seq<char>| !(has_key(v@, k) && has_key(removed@, k)),
            as_map(v@).union_prefer_right(as_map(removed@)) == whole,
        decreases v.len() - i,
    {
        if *v[i].owner_ref() == *id {
            let ghost before = v@;
            let ghost before_removed = removed@;
            let ghost k = key_at(v@, i as int);
            proof {
                lemma_slot(v@, i as int);
                lemma_remove(v@, i as int);
            }
            let x = v.remove(i);
            proof {
                assert(!has_key(before_removed, k));
                lemma_push(before_removed, x);
            }
            removed.push(x);
            proof {
                assert(as_map(v@).union_prefer_right(as_map(removed@)) =~= whole);
                assert forall|k2: Seq<char>| !(has_key(v@, k2) && has_key(removed@, k2)) by {
                    if has_key(v@, k2) && has_key(removed@, k2) {
                        lemma_has_key(v@, k2);
                        lemma_has_key(removed@, k2);
                        assert(as_map(before).remove(k).contains_key(k2));
                        lemma_contains(before, k2);
                        lemma_contains(before_removed, k2);
                    }
                }
            }
        } else {
            i += 1;
        }
    }
    proof {
        let kept = as_map(v@);
        let gone = as_map(removed@);
        let owned = owned_keys::<T>(whole, id@);
        assert forall|k: Seq<char>| kept.contains_key(k) implies !owned.contains(k) && whole[k]
            == kept[k] by {
            lemma_has_key(v@, k);
        }
        assert forall|k: Seq<char>| gone.contains_key(k) implies owned.contains(k) && whole[k]
            == gone[k] by {
            lemma_has_key(removed@, k);
        }
        assert(kept =~= whole.remove_keys(owned));
        assert(gone =~= whole.restrict(owned));
    }
    removed
}

/// A key of the map occurs in the list.
pub proof fn lemma_contains<T: Keyed>(s: Seq<T>, k: Seq<char>)
    ensures
        as_map(s).contains_key(k) <==> has_key(s, k),
{
}

/// Two lists that agree on the key at each position are maps over the same
/// keys, and each key leads to the record at its position.
pub proof fn lemma_same_keys<T: Keyed>(s: Seq<T>, t: Seq<T>)
    requires
        distinct(s),
        s.len() == t.len(),
        forall|i: int| 0 <= i < s.len() ==> key_at(s, i) == key_at(t, i),
    ensures
        distinct(t),
        as_map(t).dom() =~= as_map(s).dom(),
        forall|k: Seq<char>| has_key(s, k) ==> slot(t, k) == slot(s, k),
{
    assert forall|a: int, b: int| 0 <= a < b < t.len() implies key_at(t, a) != key_at(t, b) by {
        assert(key_at(s, a) != key_at(s, b));
    }
    assert forall|k: Seq<char>| has_key(t, k) <==> has_key(s, k) by {
        if has_key(t, k) {
            let a = slot(t, k);
            assert(key_at(s, a) == k);
        }
        if has_key(s, k) {
            let a = slot(s, k);
            assert(key_at(t, a) == k);
        }
    }
    assert forall|k: Seq<char>| has_key(s, k) implies slot(t, k) == slot(s, k) by {
        let a = slot(s, k);
        assert(key_at(t, a) == k);
        lemma_slot(t, a);
    }
}

/// The first `n` records of a list stored one after the other under their
/// keys: where a key occurs more than once, the later record replaces the
/// earlier one.
pub open spec fn folded<T: Keyed>(s: Seq<T>, n: int) -> Map<Seq<char>, T::V>
    decreases n,
{
    if n <= 0 {
        Map::empty()
    } else {
        folded(s, n - 1).insert(key_at(s, n - 1), s[n - 1]@)
    }
}

/// The list read as a map in which the last record under a key counts.
pub open spec fn last_wins<T: Keyed>(s: Seq<T>) -> Map<Seq<char>, T::V> {
    folded(s, s.len() as int)
}

/// The keys of the first `n` records stored are the keys that occur among
/// them, and each key leads to a record with that key.
pub proof fn lemma_folded_keys<T: Keyed>(s: Seq<T>, n: int)
    requires
        0 <= n <= s.len(),
    ensures
        forall|k: Seq<char>| #[trigger]
            folded(s, n).contains_key(k) <==> exists|j: int| 0 <= j < n && key_at(s, j) == k,
        forall|k: Seq<char>| #[trigger]
            folded(s, n).contains_key(k) ==> exists|j: int|
                0 <= j < n && key_at(s, j) == k && folded(s, n)[k] == s[j]@,
    decreases n,
{
    if n > 0 {
        lemma_folded_keys(s, n - 1);
        let last = key_at(s, n - 1);
        assert forall|k: Seq<char>| #[trigger] folded(s, n).contains_key(k) implies exists|j: int|
            0 <= j < n && key_at(s, j) == k && folded(s, n)[k] == s[j]@ by {
            if k == last {
                assert(key_at(s, n - 1) == k && folded(s, n)[k] == s[n - 1]@);
            } else {
                assert(folded(s, n - 1).contains_key(k));
                let j = choose|j: int|
                    0 <= j < n - 1 && key_at(s, j) == k && folded(s, n - 1)[k] == s[j]@;
                assert(0 <= j < n && key_at(s, j) == k && folded(s, n)[k] == s[j]@);
            }
        }
        assert forall|k: Seq<char>| (exists|j: int| 0 <= j < n && key_at(s, j) == k) implies #[trigger]
            folded(s, n).contains_key(k) by {
            let j = choose|j: int| 0 <= j < n && key_at(s, j) == k;
            if j < n - 1 {
                assert(folded(s, n - 1).contains_key(k));
            }
        }
    }
}

/// Where no key occurs twice, the last record under a key is the only one.
pub proof fn lemma_last_wins_distinct<T: Keyed>(s: Seq<T>)
    requires
        distinct(s),
    ensures
        last_wins(s) == as_map(s),
{
    lemma_folded_keys(s, s.len() as int);
    assert forall|k: Seq<char>| last_wins(s).contains_key(k) <==> as_map(s).contains_key(k) by {
        if last_wins(s).contains_key(k) {
            let j = choose|j: int| 0 <= j < s.len() && key_at(s, j) == k;
            assert(has_key(s, k));
        }
        if has_key(s, k) {
            let j = slot(s, k);
            assert(0 <= j < s.len() && key_at(s, j) == k);
        }
    }
    assert forall|k: Seq<char>| last_wins(s).contains_key(k) implies #[trigger] last_wins(s)[k]
        == as_map(s)[k] by {
        let j = choose|j: int| 0 <= j < s.len() && key_at(s, j) == k && last_wins(s)[k] == s[j]@;
        lemma_slot(s, j);
    }
    assert(last_wins(s) =~= as_map(s));
}

/// The position of the record with key `id`, if there is one.
pub fn find<T: Keyed>(v: &Vec<T>, id: &String) -> (r: Option<usize>)
    ensures
        match r {
            Some(i) => i < v.len() && key_at(v@, i as int) == id@,
            None => !has_key(v@, id@),
        },
{
    let mut i: usize = 0;
    while i < v.len()
        invariant
            i <= v.len(),
            forall|j: int| 0 <= j < i ==> key_at(v@, j) != id@,
        decreases v.len() - i,
    {
        if *v[i].key_ref() == *id {
            return Some(i);
        }
        i += 1;
    }
    proof {
        lemma_absent(v@, id@);
    }
    None
}

} // verus!
