//! Ordered tables and sets, keyed by values with a rank.
//!
//! Rows are kept in strictly ascending key order, so no key occurs twice and
//! equal contents are laid out alike.

use vstd::prelude::*;

use crate::common::TenantKey;

verus! {

/// A key type whose values are ordered by an integer rank of their own.
pub trait Ranked: Copy {
    spec fn rank(self) -> int;

    proof fn rank_is_injective(a: Self, b: Self)
        requires
            a.rank() == b.rank(),
        ensures
            a == b,
    ;

    fn precedes(&self, other: &Self) -> (r: bool)
        ensures
            r == (self.rank() < other.rank()),
    ;
}

impl Ranked for TenantKey {
    /// Keys are ordered by cgroup, path hash, port, protocol and method.
    open spec fn rank(self) -> int {
        self.cgroup_id * 0x1_0000_0000_0000_0000 + self.http_path_hash * 0x1_0000_0000
            + self.dst_port * 0x1_0000 + self.proto * 0x100 + self.http_method
    }

    proof fn rank_is_injective(a: Self, b: Self) {
    }

    fn precedes(&self, other: &Self) -> (r: bool) {
        if self.cgroup_id != other.cgroup_id {
            return self.cgroup_id < other.cgroup_id;
        }
        if self.http_path_hash != other.http_path_hash {
            return self.http_path_hash < other.http_path_hash;
        }
        if self.dst_port != other.dst_port {
            return self.dst_port < other.dst_port;
        }
        if self.proto != other.proto {
            return self.proto < other.proto;
        }
        self.http_method < other.http_method
    }
}

/// Keys are ordered by their fields one after the other: cgroup, path hash, port,
/// protocol, method.
pub proof fn keys_are_ordered_field_by_field(a: TenantKey, b: TenantKey)
    ensures
        a.rank() < b.rank() <==> {
            ||| a.cgroup_id < b.cgroup_id
            ||| a.cgroup_id == b.cgroup_id && a.http_path_hash < b.http_path_hash
            ||| a.cgroup_id == b.cgroup_id && a.http_path_hash == b.http_path_hash && a.dst_port
                < b.dst_port
            ||| a.cgroup_id == b.cgroup_id && a.http_path_hash == b.http_path_hash && a.dst_port
                == b.dst_port && a.proto < b.proto
            ||| a.cgroup_id == b.cgroup_id && a.http_path_hash == b.http_path_hash && a.dst_port
                == b.dst_port && a.proto == b.proto && a.http_method < b.http_method
        },
{
}

/// Whether the keys of `rows` strictly ascend.
pub open spec fn ascending<K: Ranked, V>(rows: Seq<(K, V)>) -> bool {
    forall|i: int, j: int|
        0 <= i < j < rows.len() ==> (#[trigger] rows[i]).0.rank() < (#[trigger] rows[j]).0.rank()
}

/// Whether `rows` has a row for `key`.
pub open spec fn has_key<K, V>(rows: Seq<(K, V)>, key: K) -> bool {
    exists|i: int| 0 <= i < rows.len() && (#[trigger] rows[i]).0 == key
}

/// A prefix with one more item is the prefix with the item pushed, and has just that
/// item besides.
pub(crate) proof fn take_one_more<T>(items: Seq<T>, i: int)
    requires
        0 <= i < items.len(),
    ensures
        items.take(i + 1) == items.take(i).push(items[i]),
        forall|k: T| #[trigger]
            items.take(i + 1).contains(k) == (items.take(i).contains(k) || k == items[i]),
        items.take(i + 1).to_set() == items.take(i).to_set().insert(items[i]),
{
    let head = items.take(i);
    let next = items.take(i + 1);
    assert(next =~= head.push(items[i]));
    assert forall|k: T| #[trigger] next.contains(k) == (head.contains(k) || k == items[i]) by {
        if head.contains(k) {
            let j = choose|j: int| 0 <= j < head.len() && head[j] == k;
            assert(next[j] == k);
        }
        if next.contains(k) && k != items[i] {
            let j = choose|j: int| 0 <= j < next.len() && next[j] == k;
            assert(head[j] == k);
        }
        assert(next[i] == items[i]);
    }
    assert(next.to_set() =~= head.to_set().insert(items[i]));
}

/// Pushing a row adds just its key.
pub(crate) proof fn push_adds_key<K, V>(rows: Seq<(K, V)>, row: (K, V))
    ensures
        forall|k: K| #[trigger]
            has_key(rows.push(row), k) == (has_key(rows, k) || k == row.0),
{
    let all = rows.push(row);
    assert(all[rows.len() as int] == row);
    assert forall|k: K| #[trigger] has_key(all, k) == (has_key(rows, k) || k == row.0) by {
        if has_key(rows, k) {
            let j = choose|j: int| 0 <= j < rows.len() && (#[trigger] rows[j]).0 == k;
            assert(all[j] == rows[j]);
        }
        if has_key(all, k) && k != row.0 {
            let j = choose|j: int| 0 <= j < all.len() && (#[trigger] all[j]).0 == k;
            assert(rows[j] == all[j]);
        }
    }
}

/// `rows` as a map; of several rows with one key it takes some.
pub open spec fn map_of<K, V>(rows: Seq<(K, V)>) -> Map<K, V> {
    Map::new(
        |key: K| has_key(rows, key),
        |key: K| rows[choose|i: int| 0 <= i < rows.len() && (#[trigger] rows[i]).0 == key].1,
    )
}

/// In ascending rows, each row is the one that the map holds for its key.
pub proof fn map_of_reads_rows<K: Ranked, V>(rows: Seq<(K, V)>, i: int)
    requires
        ascending(rows),
        0 <= i < rows.len(),
    ensures
        map_of(rows).dom().contains(rows[i].0),
        map_of(rows)[rows[i].0] == rows[i].1,
{
    let key = rows[i].0;
    assert(has_key(rows, key));
    let j = choose|j: int| 0 <= j < rows.len() && (#[trigger] rows[j]).0 == key;
    assert(rows[j].0.rank() == rows[i].0.rank());
}

/// Ascending rows are determined by the map that they make up.
pub proof fn rows_are_canonical<K: Ranked, V>(a: Seq<(K, V)>, b: Seq<(K, V)>)
    requires
        ascending(a),
        ascending(b),
        map_of(a) == map_of(b),
    ensures
        a == b,
    decreases a.len(),
{
    if a.len() == 0 {
        if b.len() > 0 {
            map_of_reads_rows(b, 0);
            assert(has_key(a, b[0].0));
        }
        assert(a =~= b);
    } else if b.len() == 0 {
        map_of_reads_rows(a, 0);
        assert(has_key(b, a[0].0));
    } else {
        let last_a = a.last().0;
        let last_b = b.last().0;
        map_of_reads_rows(a, a.len() - 1);
        map_of_reads_rows(b, b.len() - 1);
        assert(has_key(b, last_a));
        assert(has_key(a, last_b));
        let i = choose|i: int| 0 <= i < b.len() && (#[trigger] b[i]).0 == last_a;
        let j = choose|j: int| 0 <= j < a.len() && (#[trigger] a[j]).0 == last_b;
        K::rank_is_injective(last_a, last_b);
        let pa = a.drop_last();
        let pb = b.drop_last();
        assert(map_of(pa) =~= map_of(pb)) by {
            assert forall|key: K| has_key(pa, key) == has_key(pb, key) by {
                drop_last_has_key(a, key);
                drop_last_has_key(b, key);
                assert(map_of(a).dom().contains(key) == has_key(a, key));
                assert(map_of(b).dom().contains(key) == has_key(b, key));
            }
            assert forall|key: K| has_key(pa, key) implies map_of(pa)[key] == map_of(pb)[key] by {
                let x = choose|x: int| 0 <= x < pa.len() && (#[trigger] pa[x]).0 == key;
                assert(has_key(pb, key));
                let y = choose|y: int| 0 <= y < pb.len() && (#[trigger] pb[y]).0 == key;
                assert(a[x] == pa[x]);
                assert(b[y] == pb[y]);
                map_of_reads_rows(a, x);
                map_of_reads_rows(b, y);
                map_of_reads_rows(pa, x);
                map_of_reads_rows(pb, y);
            }
        }
        rows_are_canonical(pa, pb);
        assert(a =~= pa.push(a.last()));
        assert(b =~= pb.push(b.last()));
    }
}

proof fn drop_last_has_key<K: Ranked, V>(rows: Seq<(K, V)>, key: K)
    requires
        ascending(rows),
        rows.len() > 0,
    ensures
        has_key(rows.drop_last(), key) == (has_key(rows, key) && key != rows.last().0),
{
    let front = rows.drop_last();
    if has_key(front, key) {
        let i = choose|i: int| 0 <= i < front.len() && (#[trigger] front[i]).0 == key;
        assert(rows[i] == front[i]);
        assert(rows[i].0.rank() < rows[rows.len() - 1].0.rank());
    }
    if has_key(rows, key) && key != rows.last().0 {
        let i = choose|i: int| 0 <= i < rows.len() && (#[trigger] rows[i]).0 == key;
        assert(front[i] == rows[i]);
    }
}

proof fn dom_counts_rows<K: Ranked, V>(rows: Seq<(K, V)>)
    requires
        ascending(rows),
    ensures
        map_of(rows).dom().finite(),
        map_of(rows).dom().len() == rows.len(),
    decreases rows.len(),
{
    if rows.len() == 0 {
        assert(map_of(rows).dom() =~= Set::<K>::empty());
    } else {
        let front = rows.drop_last();
        let last = rows.last().0;
        dom_counts_rows(front);
        assert(rows[rows.len() - 1].0 == last);
        assert forall|key: K| has_key(front, key) == (has_key(rows, key) && key != last) by {
            drop_last_has_key(rows, key);
        }
        assert(has_key(rows, last));
        assert(!map_of(front).dom().contains(last));
        assert(map_of(rows).dom() =~= map_of(front).dom().insert(last));
    }
}

/// A table from keys to values.
#[derive(Debug)]
pub struct KeyedTable<K: Ranked, V: Copy> {
    rows: Vec<(K, V)>,
}

impl<K: Ranked, V: Copy> View for KeyedTable<K, V> {
    type V = Map<K, V>;

    open spec fn view(&self) -> Map<K, V> {
        map_of(self.entries())
    }
}

impl<K: Ranked, V: Copy> KeyedTable<K, V> {
    /// The rows, in ascending key order.
    pub closed spec fn entries(&self) -> Seq<(K, V)> {
        self.rows@
    }

    #[verifier::type_invariant]
    spec fn well_formed(self) -> bool {
        ascending(self.rows@)
    }

    /// The empty table.
    pub fn new() -> (table: Self)
        ensures
            table.entries() == Seq::<(K, V)>::empty(),
            table@ == Map::<K, V>::empty(),
    {
        let table = KeyedTable { rows: Vec::new() };
        assert(table@ =~= Map::<K, V>::empty());
        table
    }

    /// The rows, in ascending key order.
    pub fn rows(&self) -> (rows: &Vec<(K, V)>)
        ensures
            rows@ == self.entries(),
            ascending(rows@),
    {
        proof {
            use_type_invariant(self);
        }
        &self.rows
    }

    /// The number of keys.
    pub fn len(&self) -> (n: usize)
        ensures
            n == self.entries().len(),
            self@.dom().finite(),
            n == self@.dom().len(),
    {
        proof {
            use_type_invariant(self);
            dom_counts_rows(self.rows@);
        }
        self.rows.len()
    }

    /// The index of the first row whose key does not precede `key`.
    fn position(&self, key: &K) -> (at: usize)
        ensures
            at <= self.entries().len(),
            forall|i: int|
                0 <= i < at ==> (#[trigger] self.entries()[i]).0.rank() < key.rank(),
            forall|i: int|
                at <= i < self.entries().len() ==> key.rank() <= (
                #[trigger] self.entries()[i]).0.rank(),
    {
        proof {
            use_type_invariant(self);
        }
        let mut low: usize = 0;
        let mut high: usize = self.rows.len();
        while low < high
            invariant
                low <= high <= self.rows@.len(),
                ascending(self.rows@),
                forall|i: int| 0 <= i < low ==> (#[trigger] self.rows@[i]).0.rank() < key.rank(),
                forall|i: int|
                    high <= i < self.rows@.len() ==> key.rank() <= (
                    #[trigger] self.rows@[i]).0.rank(),
            decreases high - low,
        {
            let mid: usize = low + (high - low) / 2;
            if self.rows[mid].0.precedes(key) {
                low = mid + 1;
            } else {
                high = mid;
            }
        }
        low
    }

    /// Whether the row at `at` is the one for `key`.
    fn is_at(&self, at: usize, key: &K) -> (r: bool)
        requires
            at <= self.entries().len(),
            forall|i: int|
                0 <= i < at ==> (#[trigger] self.entries()[i]).0.rank() < key.rank(),
            forall|i: int|
                at <= i < self.entries().len() ==> key.rank() <= (
                #[trigger] self.entries()[i]).0.rank(),
        ensures
            r == self@.dom().contains(*key),
            r ==> at < self.entries().len() && self.entries()[at as int].0 == *key
                && self@[*key] == self.entries()[at as int].1,
    {
        proof {
            use_type_invariant(self);
        }
        if at < self.rows.len() && !key.precedes(&self.rows[at].0) {
            proof {
                K::rank_is_injective(*key, self.rows@[at as int].0);
                map_of_reads_rows(self.rows@, at as int);
            }
            true
        } else {
            false
        }
    }

    /// The value of `key`.
    pub fn get(&self, key: &K) -> (value: Option<V>)
        ensures
            value == (if self@.dom().contains(*key) {
                Some(self@[*key])
            } else {
                None
            }),
    {
        let at = self.position(key);
        if self.is_at(at, key) {
            Some(self.rows[at].1)
        } else {
            None
        }
    }

    /// Whether the table has a value for `key`.
    pub fn contains_key(&self, key: &K) -> (r: bool)
        ensures
            r == self@.dom().contains(*key),
    {
        let at = self.position(key);
        self.is_at(at, key)
    }

    /// Sets the value of `key` and returns the one it had.
    pub fn insert(&mut self, key: K, value: V) -> (previous: Option<V>)
        ensures
            final(self)@ == old(self)@.insert(key, value),
            previous == (if old(self)@.dom().contains(key) {
                Some(old(self)@[key])
            } else {
                None
            }),
    {
        let at = self.position(&key);
        let found = self.is_at(at, &key);
        proof {
            use_type_invariant(&*self);
        }
        let ghost before = self.rows@;
        let mut rows: Vec<(K, V)> = Vec::new();
        std::mem::swap(&mut rows, &mut self.rows);
        let mut previous: Option<V> = None;
        if found {
            previous = Some(rows[at].1);
            rows[at] = (key, value);
            proof {
                K::rank_is_injective(key, before[at as int].0);
                assert(rows@ =~= before.update(at as int, (key, value)));
            }
        } else {
            rows.insert(at, (key, value));
            proof {
                assert forall|i: int| at <= i < before.len() implies key.rank() < (
                #[trigger] before[i]).0.rank() by {
                    if before[i].0.rank() == key.rank() {
                        K::rank_is_injective(key, before[i].0);
                        map_of_reads_rows(before, i);
                    }
                }
                assert(rows@ =~= before.insert(at as int, (key, value)));
            }
        }
        proof {
            assert(ascending(rows@)) by {
                assert forall|i: int, j: int| 0 <= i < j < rows@.len() implies (
                #[trigger] rows@[i]).0.rank() < (#[trigger] rows@[j]).0.rank() by {
                    if !found {
                        let bi = if i < at {
                            i
                        } else {
                            i - 1
                        };
                        let bj = if j < at {
                            j
                        } else {
                            j - 1
                        };
                        if i != at {
                            assert(rows@[i] == before[bi]);
                        }
                        if j != at {
                            assert(rows@[j] == before[bj]);
                        }
                    }
                }
            }
            insert_updates_map(before, rows@, at as int, key, value, found);
        }
        self.rows = rows;
        previous
    }

    /// Removes `key` and returns the value it had.
    pub fn remove(&mut self, key: &K) -> (previous: Option<V>)
        ensures
            final(self)@ == old(self)@.remove(*key),
            previous == (if old(self)@.dom().contains(*key) {
                Some(old(self)@[*key])
            } else {
                None
            }),
    {
        let at = self.position(key);
        let found = self.is_at(at, key);
        if !found {
            assert(self@ =~= old(self)@.remove(*key));
            return None;
        }
        proof {
            use_type_invariant(&*self);
        }
        let ghost before = self.rows@;
        let mut rows: Vec<(K, V)> = Vec::new();
        std::mem::swap(&mut rows, &mut self.rows);
        let row = rows.remove(at);
        proof {
            assert(rows@ =~= before.remove(at as int));
            assert forall|i: int, j: int| 0 <= i < j < rows@.len() implies (
            #[trigger] rows@[i]).0.rank() < (#[trigger] rows@[j]).0.rank() by {
                let bi = if i < at {
                    i
                } else {
                    i + 1
                };
                let bj = if j < at {
                    j
                } else {
                    j + 1
                };
                assert(rows@[i] == before[bi]);
                assert(rows@[j] == before[bj]);
            }
            remove_updates_map(before, rows@, at as int);
        }
        self.rows = rows;
        Some(row.1)
    }
}

proof fn insert_updates_map<K: Ranked, V>(
    before: Seq<(K, V)>,
    after: Seq<(K, V)>,
    at: int,
    key: K,
    value: V,
    found: bool,
)
    requires
        ascending(before),
        ascending(after),
        0 <= at <= before.len(),
        found ==> at < before.len() && before[at].0 == key && after == before.update(
            at,
            (key, value),
        ),
        !found ==> after == before.insert(at, (key, value)),
    ensures
        map_of(after) == map_of(before).insert(key, value),
{
    assert(after[at] == (key, value));
    map_of_reads_rows(after, at);
    let shift: int = if found {
        0
    } else {
        1
    };
    assert forall|k: K| k != key implies has_key(after, k) == has_key(before, k) by {
        if has_key(before, k) {
            let i = choose|i: int| 0 <= i < before.len() && (#[trigger] before[i]).0 == k;
            let ai = if i < at {
                i
            } else {
                i + shift
            };
            assert(after[ai].0 == k);
        }
        if has_key(after, k) {
            let i = choose|i: int| 0 <= i < after.len() && (#[trigger] after[i]).0 == k;
            let bi = if i < at {
                i
            } else {
                i - shift
            };
            assert(before[bi].0 == k);
        }
    }
    assert forall|k: K| k != key && has_key(before, k) implies map_of(after)[k] == map_of(
        before,
    )[k] by {
        let i = choose|i: int| 0 <= i < before.len() && (#[trigger] before[i]).0 == k;
        let ai = if i < at {
            i
        } else {
            i + shift
        };
        assert(after[ai] == before[i]);
        map_of_reads_rows(before, i);
        map_of_reads_rows(after, ai);
    }
    assert(map_of(after) =~= map_of(before).insert(key, value));
}

proof fn remove_updates_map<K: Ranked, V>(before: Seq<(K, V)>, after: Seq<(K, V)>, at: int)
    requires
        ascending(before),
        ascending(after),
        0 <= at < before.len(),
        after == before.remove(at),
    ensures
        map_of(after) == map_of(before).remove(before[at].0),
{
    let key = before[at].0;
    assert(!has_key(after, key)) by {
        if has_key(after, key) {
            let i = choose|i: int| 0 <= i < after.len() && (#[trigger] after[i]).0 == key;
            let bi = if i < at {
                i
            } else {
                i + 1
            };
            assert(after[i] == before[bi]);
            assert(before[bi].0.rank() == before[at].0.rank());
        }
    }
    assert forall|k: K| k != key implies has_key(after, k) == has_key(before, k) by {
        if has_key(before, k) {
            let i = choose|i: int| 0 <= i < before.len() && (#[trigger] before[i]).0 == k;
            let ai = if i < at {
                i
            } else {
                i - 1
            };
            assert(after[ai] == before[i]);
        }
        if has_key(after, k) {
            let i = choose|i: int| 0 <= i < after.len() && (#[trigger] after[i]).0 == k;
            let bi = if i < at {
                i
            } else {
                i + 1
            };
            assert(after[i] == before[bi]);
        }
    }
    assert forall|k: K| k != key && has_key(before, k) implies map_of(after)[k] == map_of(
        before,
    )[k] by {
        let i = choose|i: int| 0 <= i < before.len() && (#[trigger] before[i]).0 == k;
        let ai = if i < at {
            i
        } else {
            i - 1
        };
        assert(after[ai] == before[i]);
        map_of_reads_rows(before, i);
        map_of_reads_rows(after, ai);
    }
    assert(map_of(after) =~= map_of(before).remove(key));
}

impl<K: Ranked, V: Copy> Clone for KeyedTable<K, V> {
    fn clone(&self) -> (copy: Self)
        ensures
            copy.entries() == self.entries(),
    {
        proof {
            use_type_invariant(self);
        }
        let mut rows: Vec<(K, V)> = Vec::new();
        let mut i: usize = 0;
        while i < self.rows.len()
            invariant
                i <= self.rows@.len(),
                rows@ == self.rows@.take(i as int),
            decreases self.rows@.len() - i,
        {
            rows.push(self.rows[i]);
            assert(rows@ =~= self.rows@.take(i + 1));
            i += 1;
        }
        assert(rows@ =~= self.rows@);
        KeyedTable { rows }
    }
}

/// The value of a key that is in a set.
#[derive(Clone, Copy, Debug)]
struct Member;

/// A set of keys.
#[derive(Debug)]
pub struct KeySet<K: Ranked> {
    table: KeyedTable<K, Member>,
}

impl<K: Ranked> View for KeySet<K> {
    type V = Set<K>;

    closed spec fn view(&self) -> Set<K> {
        self.table@.dom()
    }
}

impl<K: Ranked> KeySet<K> {
    /// The empty set.
    pub fn new() -> (set: Self)
        ensures
            set@ == Set::<K>::empty(),
    {
        let set = KeySet { table: KeyedTable::new() };
        assert(set@ =~= Set::<K>::empty());
        set
    }

    /// The number of keys.
    pub fn len(&self) -> (n: usize)
        ensures
            self@.finite(),
            n == self@.len(),
    {
        self.table.len()
    }

    /// Whether the set holds `key`.
    pub fn contains(&self, key: &K) -> (r: bool)
        ensures
            r == self@.contains(*key),
    {
        self.table.contains_key(key)
    }

    /// Adds `key`; `true` when it was not in the set.
    pub fn insert(&mut self, key: K) -> (added: bool)
        ensures
            final(self)@ == old(self)@.insert(key),
            added == !old(self)@.contains(key),
    {
        let previous = self.table.insert(key, Member);
        assert(self@ =~= old(self)@.insert(key));
        previous.is_none()
    }

    /// Removes `key`; `true` when it was in the set.
    pub fn remove(&mut self, key: &K) -> (removed: bool)
        ensures
            final(self)@ == old(self)@.remove(*key),
            removed == old(self)@.contains(*key),
    {
        let previous = self.table.remove(key);
        assert(self@ =~= old(self)@.remove(*key));
        previous.is_some()
    }

    /// The keys in ascending order.
    pub fn keys(&self) -> (keys: Vec<K>)
        ensures
            forall|k: K| #[trigger] keys@.contains(k) == self@.contains(k),
            forall|i: int, j: int|
                0 <= i < j < keys@.len() ==> (#[trigger] keys@[i]).rank() < (
                #[trigger] keys@[j]).rank(),
    {
        let rows = self.table.rows();
        let mut keys: Vec<K> = Vec::new();
        let mut i: usize = 0;
        while i < rows.len()
            invariant
                i <= rows@.len(),
                keys@.len() == i,
                forall|j: int| 0 <= j < i ==> #[trigger] keys@[j] == rows@[j].0,
            decreases rows@.len() - i,
        {
            keys.push(rows[i].0);
            i += 1;
        }
        assert forall|k: K| #[trigger] keys@.contains(k) == self@.contains(k) by {
            if self@.contains(k) {
                assert(has_key(rows@, k));
                let j = choose|j: int| 0 <= j < rows@.len() && (#[trigger] rows@[j]).0 == k;
                assert(keys@[j] == k);
            }
            if keys@.contains(k) {
                let j = choose|j: int| 0 <= j < keys@.len() && keys@[j] == k;
                assert(rows@[j].0 == k);
            }
        }
        keys
    }
}

impl<K: Ranked> Clone for KeySet<K> {
    fn clone(&self) -> (copy: Self)
        ensures
            copy@ == self@,
    {
        KeySet { table: self.table.clone() }
    }
}

} // verus!
