//! The hostname-to-backend table and the document that stores it.
//!
//! A table is modelled twice: as the sequence of its `(hostname, target)`
//! pairs, in the order in which the hostnames were first added, and as the
//! map that this sequence denotes. The sequence fixes what a snapshot and
//! the stored document look like; the map is what a lookup sees.

use vstd::prelude::*;
use vstd::string::*;

verus! {

/// A `(hostname, target)` pair of the model.
pub type Pair = (Seq<char>, Seq<char>);

/// Position of the first pair of `pairs` whose hostname is `key`;
/// `pairs.len()` when no pair has it.
pub open spec fn key_index(pairs: Seq<Pair>, key: Seq<char>) -> int
    decreases pairs.len(),
{
    if pairs.len() == 0 {
        0
    } else if pairs[0].0 == key {
        0
    } else {
        1 + key_index(pairs.drop_first(), key)
    }
}

/// Whether some pair of `pairs` has the hostname `key`.
pub open spec fn has_key(pairs: Seq<Pair>, key: Seq<char>) -> bool {
    key_index(pairs, key) < pairs.len()
}

/// No hostname occurs in two pairs.
pub open spec fn distinct_keys(pairs: Seq<Pair>) -> bool {
    forall|i: int, j: int| 0 <= i < j < pairs.len() ==> (#[trigger] pairs[i]).0 != (
    #[trigger] pairs[j]).0
}

/// The map that a sequence of pairs denotes: each hostname with the target
/// of the first pair that names it.
pub open spec fn pairs_to_map(pairs: Seq<Pair>) -> Map<Seq<char>, Seq<char>> {
    Map::new(|k: Seq<char>| has_key(pairs, k), |k: Seq<char>| pairs[key_index(pairs, k)].1)
}

/// What a lookup of `hostname` finds in a table.
pub open spec fn lookup(table: Map<Seq<char>, Seq<char>>, hostname: Seq<char>) -> Option<Seq<char>> {
    if table.contains_key(hostname) {
        Some(table[hostname])
    } else {
        None
    }
}

/// The number of pairs of `pairs` that name `key`.
pub open spec fn count_key(pairs: Seq<Pair>, key: Seq<char>) -> nat
    decreases pairs.len(),
{
    if pairs.len() == 0 {
        0
    } else {
        count_key(pairs.drop_last(), key) + (if pairs.last().0 == key {
            1nat
        } else {
            0nat
        })
    }
}

/// `pairs` after `key` was given the target `value`: the pair that names
/// `key` is rewritten in place, or a new pair is added at the end.
pub open spec fn upsert_pairs(pairs: Seq<Pair>, key: Seq<char>, value: Seq<char>) -> Seq<Pair> {
    let i = key_index(pairs, key);
    if 0 <= i < pairs.len() {
        pairs.update(i, (key, value))
    } else {
        pairs.push((key, value))
    }
}

/// `pairs` without the first pair that names `key`.
pub open spec fn remove_pairs(pairs: Seq<Pair>, key: Seq<char>) -> Seq<Pair> {
    let i = key_index(pairs, key);
    if 0 <= i < pairs.len() {
        pairs.remove(i)
    } else {
        pairs
    }
}

/// `pairs` after every pair of `updates` was upserted, first to last.
pub open spec fn merge_pairs(pairs: Seq<Pair>, updates: Seq<Pair>) -> Seq<Pair>
    decreases updates.len(),
{
    if updates.len() == 0 {
        pairs
    } else {
        let last = updates.last();
        upsert_pairs(merge_pairs(pairs, updates.drop_last()), last.0, last.1)
    }
}

/// Position of the last pair of `pairs` whose hostname is `key`; `-1` when
/// no pair has it.
pub open spec fn last_key_index(pairs: Seq<Pair>, key: Seq<char>) -> int
    decreases pairs.len(),
{
    if pairs.len() == 0 {
        -1
    } else if pairs.last().0 == key {
        pairs.len() - 1
    } else {
        last_key_index(pairs.drop_last(), key)
    }
}

/// `key_index` is the one position before which no pair names `key` and at
/// which a pair names it, or the length.
pub proof fn lemma_key_index(pairs: Seq<Pair>, key: Seq<char>, k: int)
    requires
        0 <= k <= pairs.len(),
        forall|j: int| 0 <= j < k ==> (#[trigger] pairs[j]).0 != key,
        k < pairs.len() ==> pairs[k].0 == key,
    ensures
        key_index(pairs, key) == k,
    decreases pairs.len(),
{
    if pairs.len() > 0 && pairs[0].0 != key {
        let t = pairs.drop_first();
        assert forall|j: int| 0 <= j < k - 1 implies (#[trigger] t[j]).0 != key by {
            assert(t[j] == pairs[j + 1]);
        }
        lemma_key_index(t, key, k - 1);
    }
}

/// What `key_index` returns lies in `0..=pairs.len()` and is the first
/// position that names `key`.
pub proof fn lemma_key_index_bounds(pairs: Seq<Pair>, key: Seq<char>)
    ensures
        0 <= key_index(pairs, key) <= pairs.len(),
        forall|j: int| 0 <= j < key_index(pairs, key) ==> (#[trigger] pairs[j]).0 != key,
        has_key(pairs, key) ==> pairs[key_index(pairs, key)].0 == key,
    decreases pairs.len(),
{
    if pairs.len() > 0 && pairs[0].0 != key {
        let t = pairs.drop_first();
        lemma_key_index_bounds(t, key);
        let k = key_index(t, key);
        assert forall|j: int| 0 <= j < k + 1 implies (#[trigger] pairs[j]).0 != key by {
            if j > 0 {
                assert(pairs[j] == t[j - 1]);
            }
        }
        if k < t.len() {
            assert(pairs[k + 1] == t[k]);
        }
    }
}

/// What a lookup of `k` finds after `key` was upserted.
pub proof fn lemma_upsert_lookup(pairs: Seq<Pair>, key: Seq<char>, value: Seq<char>, k: Seq<char>)
    ensures
        has_key(upsert_pairs(pairs, key, value), k) == (k == key || has_key(pairs, k)),
        has_key(upsert_pairs(pairs, key, value), k) ==> upsert_pairs(pairs, key, value)[key_index(
            upsert_pairs(pairs, key, value),
            k,
        )].1 == (if k == key {
            value
        } else {
            pairs[key_index(pairs, k)].1
        }),
{
    let after = upsert_pairs(pairs, key, value);
    let i = key_index(pairs, key);
    lemma_key_index_bounds(pairs, key);
    lemma_key_index_bounds(pairs, k);
    if k == key {
        assert forall|j: int| 0 <= j < i implies (#[trigger] after[j]).0 != key by {
            assert(after[j] == pairs[j]);
        }
        lemma_key_index(after, key, i);
    } else {
        let x = key_index(pairs, k);
        if x < pairs.len() {
            assert forall|j: int| 0 <= j < x implies (#[trigger] after[j]).0 != k by {
                if j != i {
                    assert(after[j] == pairs[j]);
                }
            }
            assert(after[x] == pairs[x]);
            lemma_key_index(after, k, x);
        } else {
            assert forall|j: int| 0 <= j < after.len() implies (#[trigger] after[j]).0 != k by {
                if j != i && j < pairs.len() {
                    assert(after[j] == pairs[j]);
                }
            }
            lemma_key_index(after, k, after.len() as int);
        }
    }
}

/// Upserting a pair is inserting it into the map, and keeps hostnames
/// distinct.
pub proof fn lemma_upsert_pairs(pairs: Seq<Pair>, key: Seq<char>, value: Seq<char>)
    ensures
        pairs_to_map(upsert_pairs(pairs, key, value)) == pairs_to_map(pairs).insert(key, value),
        distinct_keys(pairs) ==> distinct_keys(upsert_pairs(pairs, key, value)),
        has_key(pairs, key) ==> upsert_pairs(pairs, key, value).len() == pairs.len(),
        !has_key(pairs, key) ==> upsert_pairs(pairs, key, value).len() == pairs.len() + 1,
{
    let after = upsert_pairs(pairs, key, value);
    let i = key_index(pairs, key);
    lemma_key_index_bounds(pairs, key);
    assert(pairs_to_map(after) =~= pairs_to_map(pairs).insert(key, value)) by {
        assert forall|k: Seq<char>|
            pairs_to_map(after).dom().contains(k) == #[trigger] pairs_to_map(pairs).insert(
                key,
                value,
            ).dom().contains(k) by {
            lemma_upsert_lookup(pairs, key, value, k);
        }
        assert forall|k: Seq<char>| #[trigger]
            pairs_to_map(after).dom().contains(k) implies pairs_to_map(after)[k]
            == pairs_to_map(pairs).insert(key, value)[k] by {
            lemma_upsert_lookup(pairs, key, value, k);
        }
    }
    if distinct_keys(pairs) {
        assert forall|a: int, b: int| 0 <= a < b < after.len() implies (#[trigger] after[a]).0 != (
        #[trigger] after[b]).0 by {
            if a < pairs.len() && a != i {
                assert(after[a] == pairs[a]);
            }
            if b < pairs.len() && b != i {
                assert(after[b] == pairs[b]);
            }
            if i < pairs.len() {
                assert(pairs[i].0 == key);
            }
        }
    }
}

/// What a lookup of `k` finds after `key` was removed.
pub proof fn lemma_remove_lookup(pairs: Seq<Pair>, key: Seq<char>, k: Seq<char>)
    requires
        distinct_keys(pairs),
    ensures
        has_key(remove_pairs(pairs, key), k) == (k != key && has_key(pairs, k)),
        has_key(remove_pairs(pairs, key), k) ==> remove_pairs(pairs, key)[key_index(
            remove_pairs(pairs, key),
            k,
        )].1 == pairs[key_index(pairs, k)].1,
{
    let after = remove_pairs(pairs, key);
    let i = key_index(pairs, key);
    lemma_key_index_bounds(pairs, key);
    lemma_key_index_bounds(pairs, k);
    let x = key_index(pairs, k);
    if i < pairs.len() {
        if k != key && x < pairs.len() {
            let want = if x > i {
                x - 1
            } else {
                x
            };
            assert forall|j: int| 0 <= j < want implies (#[trigger] after[j]).0 != k by {
                if j < i {
                    assert(after[j] == pairs[j]);
                } else {
                    assert(after[j] == pairs[j + 1]);
                }
            }
            assert(after[want] == pairs[x]);
            lemma_key_index(after, k, want);
        } else {
            assert forall|j: int| 0 <= j < after.len() implies (#[trigger] after[j]).0 != k by {
                if j < i {
                    assert(after[j] == pairs[j]);
                } else {
                    assert(after[j] == pairs[j + 1]);
                    assert(pairs[i].0 == key);
                }
            }
            lemma_key_index(after, k, after.len() as int);
        }
    }
}

/// Removing a hostname from a table with distinct hostnames is removing it
/// from the map, and keeps hostnames distinct.
pub proof fn lemma_remove_pairs(pairs: Seq<Pair>, key: Seq<char>)
    requires
        distinct_keys(pairs),
    ensures
        pairs_to_map(remove_pairs(pairs, key)) == pairs_to_map(pairs).remove(key),
        distinct_keys(remove_pairs(pairs, key)),
        has_key(pairs, key) ==> remove_pairs(pairs, key).len() == pairs.len() - 1,
        !has_key(pairs, key) ==> remove_pairs(pairs, key) == pairs,
{
    let after = remove_pairs(pairs, key);
    let i = key_index(pairs, key);
    lemma_key_index_bounds(pairs, key);
    assert(pairs_to_map(after) =~= pairs_to_map(pairs).remove(key)) by {
        assert forall|k: Seq<char>|
            pairs_to_map(after).dom().contains(k) == #[trigger] pairs_to_map(pairs).remove(
                key,
            ).dom().contains(k) by {
            lemma_remove_lookup(pairs, key, k);
        }
        assert forall|k: Seq<char>| #[trigger]
            pairs_to_map(after).dom().contains(k) implies pairs_to_map(after)[k] == pairs_to_map(
            pairs,
        ).remove(key)[k] by {
            lemma_remove_lookup(pairs, key, k);
        }
    }
    if i < pairs.len() {
        assert forall|a: int, b: int| 0 <= a < b < after.len() implies (#[trigger] after[a]).0 != (
        #[trigger] after[b]).0 by {
            let a0 = if a < i {
                a
            } else {
                a + 1
            };
            let b0 = if b < i {
                b
            } else {
                b + 1
            };
            assert(after[a] == pairs[a0]);
            assert(after[b] == pairs[b0]);
        }
    }
}

/// What `last_key_index` returns lies in `-1..pairs.len()`, names `key`,
/// and is the last position that does.
pub proof fn lemma_last_key_index_bounds(pairs: Seq<Pair>, key: Seq<char>)
    ensures
        -1 <= last_key_index(pairs, key) < pairs.len(),
        last_key_index(pairs, key) >= 0 ==> pairs[last_key_index(pairs, key)].0 == key,
        forall|j: int|
            last_key_index(pairs, key) < j < pairs.len() ==> (#[trigger] pairs[j]).0 != key,
    decreases pairs.len(),
{
    if pairs.len() > 0 && pairs.last().0 != key {
        let t = pairs.drop_last();
        lemma_last_key_index_bounds(t, key);
        let k = last_key_index(t, key);
        if k >= 0 {
            assert(t[k] == pairs[k]);
        }
        assert forall|j: int| k < j < pairs.len() implies (#[trigger] pairs[j]).0 != key by {
            if j < t.len() {
                assert(t[j] == pairs[j]);
            }
        }
    }
}

/// What a lookup of `k` finds after `updates` were merged into `pairs`:
/// the target of the last update that names `k`, or else what `pairs` had.
pub proof fn lemma_merge_lookup(pairs: Seq<Pair>, updates: Seq<Pair>, k: Seq<char>)
    ensures
        has_key(merge_pairs(pairs, updates), k) == (has_key(pairs, k) || last_key_index(
            updates,
            k,
        ) >= 0),
        has_key(merge_pairs(pairs, updates), k) ==> merge_pairs(pairs, updates)[key_index(
            merge_pairs(pairs, updates),
            k,
        )].1 == (if last_key_index(updates, k) >= 0 {
            updates[last_key_index(updates, k)].1
        } else {
            pairs[key_index(pairs, k)].1
        }),
    decreases updates.len(),
{
    if updates.len() > 0 {
        let t = updates.drop_last();
        let last = updates.last();
        lemma_merge_lookup(pairs, t, k);
        lemma_upsert_lookup(merge_pairs(pairs, t), last.0, last.1, k);
        lemma_last_key_index_bounds(t, k);
        if last.0 != k && last_key_index(t, k) >= 0 {
            assert(t[last_key_index(t, k)] == updates[last_key_index(t, k)]);
        }
    }
}

/// Merging keeps the pairs that were there in their places, under their
/// hostnames, keeps hostnames distinct, and adds no pair when every update
/// names a hostname that is already there.
pub proof fn lemma_merge_keys(pairs: Seq<Pair>, updates: Seq<Pair>)
    ensures
        merge_pairs(pairs, updates).len() >= pairs.len(),
        forall|i: int|
            0 <= i < pairs.len() ==> (#[trigger] merge_pairs(pairs, updates)[i]).0 == pairs[i].0,
        distinct_keys(pairs) ==> distinct_keys(merge_pairs(pairs, updates)),
        (forall|j: int| 0 <= j < updates.len() ==> has_key(pairs, (#[trigger] updates[j]).0))
            ==> merge_pairs(pairs, updates).len() == pairs.len(),
    decreases updates.len(),
{
    if updates.len() > 0 {
        let t = updates.drop_last();
        let last = updates.last();
        let mid = merge_pairs(pairs, t);
        lemma_merge_keys(pairs, t);
        lemma_upsert_pairs(mid, last.0, last.1);
        lemma_key_index_bounds(mid, last.0);
        let after = merge_pairs(pairs, updates);
        let at = key_index(mid, last.0);
        assert forall|i: int| 0 <= i < pairs.len() implies (#[trigger] after[i]).0
            == pairs[i].0 by {
            if i != at {
                assert(after[i] == mid[i]);
            }
        }
        if forall|j: int| 0 <= j < updates.len() ==> has_key(pairs, (#[trigger] updates[j]).0) {
            assert forall|j: int| 0 <= j < t.len() implies has_key(pairs, (#[trigger] t[j]).0) by {
                assert(t[j] == updates[j]);
            }
            assert(has_key(pairs, updates[updates.len() - 1].0));
            lemma_merge_lookup(pairs, t, last.0);
        }
    }
}

/// Merging the same updates a second time changes nothing: not a target,
/// not the order of the pairs.
pub proof fn lemma_merge_idempotent(pairs: Seq<Pair>, updates: Seq<Pair>)
    requires
        distinct_keys(pairs),
    ensures
        merge_pairs(merge_pairs(pairs, updates), updates) == merge_pairs(pairs, updates),
{
    let once = merge_pairs(pairs, updates);
    let twice = merge_pairs(once, updates);
    lemma_merge_keys(pairs, updates);
    assert forall|j: int| 0 <= j < updates.len() implies has_key(once, (#[trigger] updates[j]).0) by {
        let k = updates[j].0;
        lemma_merge_lookup(pairs, updates, k);
        lemma_last_key_index_bounds(updates, k);
    }
    lemma_merge_keys(once, updates);
    assert forall|i: int| 0 <= i < once.len() implies twice[i] == once[i] by {
        let k = once[i].0;
        assert(twice[i].0 == k);
        assert forall|j: int| 0 <= j < i implies (#[trigger] once[j]).0 != k by {}
        assert forall|j: int| 0 <= j < i implies (#[trigger] twice[j]).0 != k by {}
        lemma_key_index(once, k, i);
        lemma_key_index(twice, k, i);
        lemma_merge_lookup(pairs, updates, k);
        lemma_merge_lookup(once, updates, k);
    }
    assert(twice =~= once);
}

/// Merging pairs with distinct hostnames into an empty table gives those
/// pairs back, in their order.
pub proof fn lemma_merge_into_empty(updates: Seq<Pair>)
    requires
        distinct_keys(updates),
    ensures
        merge_pairs(Seq::empty(), updates) == updates,
    decreases updates.len(),
{
    if updates.len() > 0 {
        let t = updates.drop_last();
        let last = updates.last();
        assert forall|i: int, j: int| 0 <= i < j < t.len() implies (#[trigger] t[i]).0 != (
        #[trigger] t[j]).0 by {
            assert(t[i] == updates[i]);
            assert(t[j] == updates[j]);
        }
        lemma_merge_into_empty(t);
        assert forall|j: int| 0 <= j < t.len() implies (#[trigger] t[j]).0 != last.0 by {
            assert(t[j] == updates[j]);
            assert(updates[updates.len() - 1].0 == last.0);
        }
        lemma_key_index(t, last.0, t.len() as int);
        assert(t.push(last) == updates);
    } else {
        assert(updates == Seq::<Pair>::empty());
    }
}

/// After `hostname` was given `target`, a lookup of `hostname` finds
/// `target`, whatever the table held before.
pub proof fn lemma_upsert_then_get(pairs: Seq<Pair>, hostname: Seq<char>, target: Seq<char>)
    ensures
        lookup(pairs_to_map(upsert_pairs(pairs, hostname, target)), hostname) == Some(target),
{
    lemma_upsert_pairs(pairs, hostname, target);
}

/// A table with distinct hostnames names a hostname once where it has it,
/// and never otherwise.
pub proof fn lemma_count_key(pairs: Seq<Pair>, key: Seq<char>)
    requires
        distinct_keys(pairs),
    ensures
        count_key(pairs, key) == (if has_key(pairs, key) {
            1nat
        } else {
            0nat
        }),
    decreases pairs.len(),
{
    lemma_key_index_bounds(pairs, key);
    if pairs.len() > 0 {
        let t = pairs.drop_last();
        assert forall|i: int, j: int| 0 <= i < j < t.len() implies (#[trigger] t[i]).0 != (
        #[trigger] t[j]).0 by {
            assert(t[i] == pairs[i]);
            assert(t[j] == pairs[j]);
        }
        lemma_count_key(t, key);
        lemma_key_index_bounds(t, key);
        let at = key_index(t, key);
        if pairs.last().0 == key {
            if at < t.len() {
                assert(t[at] == pairs[at]);
                assert(pairs[pairs.len() - 1].0 == key);
            }
            assert forall|j: int| 0 <= j < pairs.len() - 1 implies (#[trigger] pairs[j]).0
                != key by {
                assert(pairs[pairs.len() - 1].0 == key);
            }
            lemma_key_index(pairs, key, pairs.len() - 1);
        } else {
            assert forall|j: int| 0 <= j < at implies (#[trigger] pairs[j]).0 != key by {
                assert(t[j] == pairs[j]);
            }
            if at < t.len() {
                assert(t[at] == pairs[at]);
                lemma_key_index(pairs, key, at);
            } else {
                lemma_key_index(pairs, key, pairs.len() as int);
            }
        }
    }
}

/// Two writers of one hostname, in either order: the table ends with
/// exactly one pair for the hostname, and that pair has the target of the
/// writer that came last.
pub proof fn lemma_two_writers(
    pairs: Seq<Pair>,
    hostname: Seq<char>,
    first: Seq<char>,
    second: Seq<char>,
)
    requires
        distinct_keys(pairs),
    ensures
        count_key(upsert_pairs(upsert_pairs(pairs, hostname, first), hostname, second), hostname)
            == 1,
        lookup(
            pairs_to_map(upsert_pairs(upsert_pairs(pairs, hostname, first), hostname, second)),
            hostname,
        ) == Some(second),
        distinct_keys(upsert_pairs(upsert_pairs(pairs, hostname, first), hostname, second)),
{
    let once = upsert_pairs(pairs, hostname, first);
    let twice = upsert_pairs(once, hostname, second);
    lemma_upsert_pairs(pairs, hostname, first);
    lemma_upsert_pairs(once, hostname, second);
    lemma_count_key(twice, hostname);
    lemma_upsert_lookup(once, hostname, second, hostname);
}

/// One route: requests for `from` go to the backend target `to`.
#[derive(Debug, Clone, PartialEq, Eq)]
pub struct ServerMapping {
    pub from: String,
    pub to: String,
}

impl View for ServerMapping {
    type V = Pair;

    open spec fn view(&self) -> Pair {
        (self.from@, self.to@)
    }
}

impl DeepView for ServerMapping {
    type V = Pair;

    open spec fn deep_view(&self) -> Pair {
        (self.from@, self.to@)
    }
}

impl ServerMapping {
    /// A copy with the same hostname and target.
    pub fn duplicate(&self) -> (r: ServerMapping)
        ensures
            r@ == self@,
    {
        ServerMapping { from: self.from.clone(), to: self.to.clone() }
    }
}

/// The shared mapping from hostname to backend target.
///
/// Hostnames are matched exactly. A table never holds a hostname twice; its
/// pairs stand in the order in which their hostnames were first added.
#[derive(Debug)]
pub struct RoutingTable {
    entries: Vec<ServerMapping>,
}

/// The store that the configuration code passes around.
pub type ConfigStore = RoutingTable;

impl View for RoutingTable {
    type V = Map<Seq<char>, Seq<char>>;

    /// The table as a map from hostname to target.
    open spec fn view(&self) -> Map<Seq<char>, Seq<char>> {
        pairs_to_map(self.pairs())
    }
}

impl RoutingTable {
    /// The table as the sequence of its `(hostname, target)` pairs.
    pub closed spec fn pairs(&self) -> Seq<Pair> {
        self.entries.deep_view()
    }

    #[verifier::type_invariant]
    spec fn well_formed(&self) -> bool {
        distinct_keys(self.entries.deep_view())
    }

    /// An empty table.
    pub fn new() -> (r: RoutingTable)
        ensures
            r.pairs() == Seq::<Pair>::empty(),
            r@ == Map::<Seq<char>, Seq<char>>::empty(),
    {
        let r = RoutingTable { entries: Vec::new() };
        proof {
            assert(r.pairs() == Seq::<Pair>::empty());
            assert(r@ =~= Map::<Seq<char>, Seq<char>>::empty());
        }
        r
    }

    /// Position of the entry for `key`, or the number of entries.
    fn position(&self, key: &String) -> (i: usize)
        ensures
            i == key_index(self.pairs(), key@),
            i <= self.entries.len(),
    {
        let mut i: usize = 0;
        while i < self.entries.len() && !(self.entries[i].from == *key)
            invariant
                i <= self.entries.len(),
                forall|j: int| 0 <= j < i ==> (#[trigger] self.entries.deep_view()[j]).0 != key@,
            decreases self.entries.len() - i,
        {
            i += 1;
        }
        proof {
            lemma_key_index(self.pairs(), key@, i as int);
        }
        i
    }

    /// The target stored for `hostname`, copied out of the table.
    pub fn get(&self, hostname: &str) -> (r: Option<String>)
        ensures
            r.deep_view() == lookup(self@, hostname@),
    {
        let key = String::from_str(hostname);
        let i = self.position(&key);
        if i < self.entries.len() {
            Some(self.entries[i].to.clone())
        } else {
            None
        }
    }

    /// Whether the table has a route for `hostname`.
    pub fn contains_key(&self, hostname: &str) -> (r: bool)
        ensures
            r == self@.contains_key(hostname@),
    {
        let key = String::from_str(hostname);
        let i = self.position(&key);
        i < self.entries.len()
    }

    /// The number of routes.
    pub fn len(&self) -> (n: usize)
        ensures
            n == self.pairs().len(),
    {
        self.entries.len()
    }

    /// Routes requests for `hostname` to `target`, whatever was stored for
    /// `hostname` before.
    pub fn upsert(&mut self, hostname: String, target: String)
        ensures
            final(self)@ == old(self)@.insert(hostname@, target@),
            final(self).pairs() == upsert_pairs(old(self).pairs(), hostname@, target@),
    {
        proof {
            use_type_invariant(&*self);
            lemma_upsert_pairs(self.pairs(), hostname@, target@);
        }
        let i = self.position(&hostname);
        let ghost before = self.entries.deep_view();
        let entry = ServerMapping { from: hostname, to: target };
        // The entries are moved out while they change: the table's
        // invariant is checked again when they are put back.
        let mut entries: Vec<ServerMapping> = Vec::new();
        proof {
            assert(entries.deep_view() == Seq::<Pair>::empty());
        }
        core::mem::swap(&mut self.entries, &mut entries);
        if i < entries.len() {
            entries.set(i, entry);
            proof {
                assert(entries.deep_view() == before.update(i as int, entry@));
            }
        } else {
            entries.push(entry);
            proof {
                assert(entries.deep_view() == before.push(entry@));
            }
        }
        self.entries = entries;
    }

    /// Drops the route for `hostname`; says whether there was one.
    pub fn remove(&mut self, hostname: &str) -> (existed: bool)
        ensures
            existed == old(self)@.contains_key(hostname@),
            final(self)@ == old(self)@.remove(hostname@),
            final(self).pairs() == remove_pairs(old(self).pairs(), hostname@),
            !existed ==> final(self).pairs() == old(self).pairs(),
    {
        proof {
            use_type_invariant(&*self);
            lemma_remove_pairs(self.pairs(), hostname@);
        }
        let key = String::from_str(hostname);
        let i = self.position(&key);
        let ghost before = self.entries.deep_view();
        if i < self.entries.len() {
            let mut entries: Vec<ServerMapping> = Vec::new();
            proof {
                assert(entries.deep_view() == Seq::<Pair>::empty());
            }
            core::mem::swap(&mut self.entries, &mut entries);
            entries.remove(i);
            proof {
                assert(entries.deep_view() == before.remove(i as int));
            }
            self.entries = entries;
            true
        } else {
            false
        }
    }

    /// A copy of every route, in table order.
    pub fn snapshot(&self) -> (r: Vec<ServerMapping>)
        ensures
            r.deep_view() == self.pairs(),
            distinct_keys(self.pairs()),
    {
        proof {
            use_type_invariant(self);
        }
        let mut r: Vec<ServerMapping> = Vec::new();
        let mut i: usize = 0;
        while i < self.entries.len()
            invariant
                i <= self.entries.len(),
                r.deep_view() == self.entries.deep_view().take(i as int),
            decreases self.entries.len() - i,
        {
            let ghost before = r.deep_view();
            r.push(self.entries[i].duplicate());
            proof {
                assert(r.deep_view() == before.push(self.entries@[i as int]@));
            }
            i += 1;
        }
        proof {
            assert(self.entries.deep_view().take(i as int) == self.entries.deep_view());
        }
        r
    }

    /// The hostnames of the table, in table order.
    pub fn domains(&self) -> (r: Vec<String>)
        ensures
            r.deep_view() == self.pairs().map_values(|p: Pair| p.0),
    {
        let mut r: Vec<String> = Vec::new();
        let mut i: usize = 0;
        while i < self.entries.len()
            invariant
                i <= self.entries.len(),
                r.deep_view() == self.entries.deep_view().take(i as int).map_values(
                    |p: Pair| p.0,
                ),
            decreases self.entries.len() - i,
        {
            let ghost before = r.deep_view();
            r.push(self.entries[i].from.clone());
            proof {
                assert(r.deep_view() == before.push(self.entries@[i as int].from@));
            }
            i += 1;
        }
        proof {
            assert(self.entries.deep_view().take(i as int) == self.entries.deep_view());
        }
        r
    }
}

/// The stored document: the list of routes under `servers`.
#[derive(Debug, Clone, PartialEq, Eq)]
pub struct Configuration {
    pub servers: Vec<ServerMapping>,
}

impl Configuration {
    /// The document as the sequence of its `(hostname, target)` pairs.
    pub open spec fn pairs(&self) -> Seq<Pair> {
        self.servers.deep_view()
    }

    /// A document without routes.
    pub fn new() -> (r: Configuration)
        ensures
            r.pairs() == Seq::<Pair>::empty(),
    {
        let r = Configuration { servers: Vec::new() };
        proof {
            assert(r.pairs() == Seq::<Pair>::empty());
        }
        r
    }

    /// The table that the document denotes. Where a hostname is listed
    /// more than once, the last listing gives its target and the first its
    /// place.
    pub fn to_hashmap(&self) -> (r: RoutingTable)
        ensures
            r.pairs() == merge_pairs(Seq::empty(), self.pairs()),
            r@ == pairs_to_map(merge_pairs(Seq::empty(), self.pairs())),
    {
        let mut r = RoutingTable::new();
        let mut i: usize = 0;
        while i < self.servers.len()
            invariant
                i <= self.servers.len(),
                r.pairs() == merge_pairs(Seq::empty(), self.pairs().take(i as int)),
            decreases self.servers.len() - i,
        {
            proof {
                let next = self.pairs().take(i + 1);
                assert(next.drop_last() == self.pairs().take(i as int));
                assert(next.last() == self.servers@[i as int]@);
            }
            r.upsert(self.servers[i].from.clone(), self.servers[i].to.clone());
            i += 1;
        }
        proof {
            assert(self.pairs().take(i as int) == self.pairs());
        }
        r
    }

    /// Whether the document lists a route for `hostname`.
    pub fn lists(&self, hostname: &str) -> (r: bool)
        ensures
            r == has_key(self.pairs(), hostname@),
    {
        let key = String::from_str(hostname);
        let mut i: usize = 0;
        while i < self.servers.len() && !(self.servers[i].from == key)
            invariant
                i <= self.servers.len(),
                forall|j: int| 0 <= j < i ==> (#[trigger] self.servers.deep_view()[j]).0 != key@,
            decreases self.servers.len() - i,
        {
            i += 1;
        }
        proof {
            lemma_key_index(self.pairs(), key@, i as int);
        }
        i < self.servers.len()
    }

    /// The document that lists every route of `map` once, in table order.
    pub fn from_hashmap(map: &RoutingTable) -> (r: Configuration)
        ensures
            r.pairs() == map.pairs(),
            distinct_keys(r.pairs()),
    {
        Configuration { servers: map.snapshot() }
    }
}

} // verus!
