//! A string-keyed integer map with lookup-with-default, overwrite,
//! insert-if-absent and bump-or-init update semantics. Keys are unique; an
//! overwrite replaces the prior value, while insert-if-absent never does.
//! Iteration exposes the entries in insertion order (a documented
//! implementation choice; callers must not rely on any particular order).

use vstd::prelude::*;
use vstd::map::*;

verus! {

/// A mapping from unique string keys to signed integers, stored as parallel
/// key and value vectors in insertion order.
#[derive(Debug)]
pub struct StringKeyedIntMap {
    keys: Vec<String>,
    vals: Vec<i32>,
}

/// No key occurs twice in the sequence.
pub open spec fn distinct_keys(ks: Seq<Seq<char>>) -> bool {
    forall|i: int, j: int| 0 <= i < j < ks.len() ==> ks[i] != ks[j]
}

/// Some position of `ks` holds `k`.
pub open spec fn seq_contains_key(ks: Seq<Seq<char>>, k: Seq<char>) -> bool {
    exists|i: int| 0 <= i < ks.len() && ks[i] == k
}

/// The position of `ks` that holds `k`.
pub open spec fn key_index(ks: Seq<Seq<char>>, k: Seq<char>) -> int {
    choose|i: int| 0 <= i < ks.len() && ks[i] == k
}

/// With distinct keys, the key at position `i` is found at exactly that
/// position.
proof fn lemma_key_index_unique(ks: Seq<Seq<char>>, i: int)
    requires
        distinct_keys(ks),
        0 <= i < ks.len(),
    ensures
        seq_contains_key(ks, ks[i]),
        key_index(ks, ks[i]) == i,
{
    assert(seq_contains_key(ks, ks[i]));
    let j = key_index(ks, ks[i]);
    assert(0 <= j < ks.len() && ks[j] == ks[i]);
}

/// Insert-if-absent on the abstract map: a present key keeps its value, an
/// absent key is bound to `default`.
pub open spec fn upsert_if_absent_map(
    m: Map<Seq<char>, int>,
    k: Seq<char>,
    default: int,
) -> Map<Seq<char>, int> {
    if m.contains_key(k) {
        m
    } else {
        m.insert(k, default)
    }
}

/// Bump-or-init on the abstract map: a present key's value grows by one, an
/// absent key is bound to `1`.
pub open spec fn bump_or_init_map(m: Map<Seq<char>, int>, k: Seq<char>) -> Map<Seq<char>, int> {
    if m.contains_key(k) {
        m.insert(k, m[k] + 1)
    } else {
        m.insert(k, 1)
    }
}

/// `bump_or_init_map` applied `n` times to the same key.
pub open spec fn bump_n_times(m: Map<Seq<char>, int>, k: Seq<char>, n: nat) -> Map<
    Seq<char>,
    int,
>
    decreases n,
{
    if n == 0 {
        m
    } else {
        bump_or_init_map(bump_n_times(m, k, (n - 1) as nat), k)
    }
}

impl StringKeyedIntMap {
    /// The stored keys, as character sequences, in insertion order.
    pub closed spec fn key_views(self) -> Seq<Seq<char>> {
        self.keys@.map_values(|s: String| s@)
    }

    /// Number of stored entries.
    pub closed spec fn num_entries(self) -> nat {
        self.keys@.len()
    }

    /// Well-formed: one value per key, and no key occurs twice.
    pub closed spec fn wf(self) -> bool {
        &&& self.keys@.len() == self.vals@.len()
        &&& distinct_keys(self.key_views())
    }

    /// Find the index of `key`, or report that it is absent.
    fn find_index(&self, key: &String) -> (r: Option<usize>)
        requires
            self.wf(),
        ensures
            match r {
                Some(i) => {
                    &&& i < self.key_views().len()
                    &&& self.key_views()[i as int] == key@
                    &&& key_index(self.key_views(), key@) == i
                    &&& self@.contains_key(key@)
                    &&& self@[key@] == self.vals@[i as int] as int
                },
                None => !self@.contains_key(key@),
            },
    {
        let n = self.keys.len();
        let mut i: usize = 0;
        while i < n
            invariant
                n == self.keys@.len(),
                i <= n,
                self.wf(),
                forall|j: int| 0 <= j < i ==> self.key_views()[j] != key@,
            decreases n - i,
        {
            if self.keys[i] == *key {
                proof {
                    lemma_key_index_unique(self.key_views(), i as int);
                }
                return Some(i);
            }
            i += 1;
        }
        None
    }
}

impl View for StringKeyedIntMap {
    type V = Map<Seq<char>, int>;

    closed spec fn view(&self) -> Map<Seq<char>, int> {
        Map::new(
            |k: Seq<char>| seq_contains_key(self.key_views(), k),
            |k: Seq<char>| self.vals@[key_index(self.key_views(), k)] as int,
        )
    }
}

/// The deterministic example map `{a: 10, b: 20, c: 30}`.
pub fn create_map() -> (r: StringKeyedIntMap)
    ensures
        r.wf(),
        r@ == map!["a"@ => 10int, "b"@ => 20int, "c"@ => 30int],
{
    let mut keys: Vec<String> = Vec::new();
    let mut vals: Vec<i32> = Vec::new();
    keys.push("a".to_owned());
    vals.push(10);
    keys.push("b".to_owned());
    vals.push(20);
    keys.push("c".to_owned());
    vals.push(30);
    let r = StringKeyedIntMap { keys, vals };
    proof {
        reveal_strlit("a");
        reveal_strlit("b");
        reveal_strlit("c");
        assert("a"@[0] == 'a' && "b"@[0] == 'b' && "c"@[0] == 'c');
        assert(r.key_views() =~= seq!["a"@, "b"@, "c"@]);
        assert(r.wf());
        lemma_key_index_unique(r.key_views(), 0);
        lemma_key_index_unique(r.key_views(), 1);
        lemma_key_index_unique(r.key_views(), 2);
        assert(r@ =~= map!["a"@ => 10int, "b"@ => 20int, "c"@ => 30int]);
    }
    r
}

/// Lookup-with-default: the stored value, or `0` when the key is absent;
/// this read never fails.
pub fn access_map(map: &StringKeyedIntMap, key: &str) -> (r: i32)
    requires
        map.wf(),
    ensures
        map@.contains_key(key@) ==> r as int == map@[key@],
        !map@.contains_key(key@) ==> r == 0,
{
    let key_string = key.to_owned();
    match map.find_index(&key_string) {
        Some(i) => map.vals[i],
        None => 0,
    }
}

impl StringKeyedIntMap {
    /// Unconditionally binds `key` to `value`, overwriting any prior value.
    pub fn upsert_overwrite(&mut self, key: &str, value: i32)
        requires
            old(self).wf(),
        ensures
            final(self).wf(),
            final(self)@ == old(self)@.insert(key@, value as int),
    {
        let key_string = key.to_owned();
        match self.find_index(&key_string) {
            Some(i) => {
                self.vals[i] = value;
                proof {
                    let ks = old(self).key_views();
                    assert(final(self).key_views() == ks);
                    assert forall|j: int| 0 <= j < ks.len() && j != i implies ks[j] != key@ by {
                        lemma_key_index_unique(ks, j);
                    }
                    assert forall|k: Seq<char>|
                        seq_contains_key(ks, k) && k != key@ implies #[trigger] final(self)@[k]
                        == old(self)@[k] by {
                        let j = key_index(ks, k);
                    }
                    assert(final(self)@ =~= old(self)@.insert(key@, value as int));
                }
            },
            None => {
                self.keys.push(key_string);
                self.vals.push(value);
                proof {
                    let ks = old(self).key_views();
                    let ks2 = final(self).key_views();
                    let n = ks.len() as int;
                    assert(ks2 =~= ks.push(key@));
                    assert forall|j: int| 0 <= j < n implies ks[j] != key@ by {
                        lemma_key_index_unique(ks, j);
                    }
                    assert(final(self).wf());
                    assert forall|k: Seq<char>| seq_contains_key(ks, k) implies seq_contains_key(
                        ks2,
                        k,
                    ) && #[trigger] final(self)@[k] == old(self)@[k] by {
                        let j = key_index(ks, k);
                        assert(ks2[j] == k);
                        lemma_key_index_unique(ks2, j);
                        lemma_key_index_unique(ks, j);
                    }
                    assert(ks2[n] == key@);
                    lemma_key_index_unique(ks2, n);
                    assert(final(self)@[key@] == value as int);
                    assert_maps_equal!(
                        final(self)@,
                        old(self)@.insert(key@, value as int),
                        k => {
                            if k == key@ {
                                assert(ks2[n] == key@);
                                assert(seq_contains_key(ks2, k));
                                assert(final(self)@[k] == value as int);
                            } else {
                                if seq_contains_key(ks2, k) {
                                    let j = key_index(ks2, k);
                                    assert(ks2[j] == k);
                                    assert(ks[j] == k);
                                    assert(seq_contains_key(ks, k));
                                    lemma_key_index_unique(ks, j);
                                    lemma_key_index_unique(ks2, j);
                                    assert(final(self)@[k] == final(self).vals@[j] as int);
                                    assert(old(self)@[k] == old(self).vals@[j] as int);
                                }
                                if seq_contains_key(ks, k) {
                                    let j2 = key_index(ks, k);
                                    assert(ks[j2] == k);
                                    assert(ks2[j2] == k);
                                    assert(seq_contains_key(ks2, k));
                                }
                            }
                        }
                    );
                }
            },
        }
    }

    /// Insert-if-absent: a present key keeps and returns its current value;
    /// an absent key is bound to `default`, which is returned. Never
    /// overwrites an existing value.
    pub fn upsert_if_absent(&mut self, key: &str, default: i32) -> (r: i32)
        requires
            old(self).wf(),
        ensures
            final(self).wf(),
            final(self)@ == upsert_if_absent_map(old(self)@, key@, default as int),
            final(self)@.contains_key(key@),
            r as int == final(self)@[key@],
    {
        let key_string = key.to_owned();
        match self.find_index(&key_string) {
            Some(i) => self.vals[i],
            None => {
                self.upsert_overwrite(key, default);
                default
            },
        }
    }

    /// Bump-or-init: a present key's value grows by one; an absent key is
    /// bound to `1`.
    pub fn bump_or_init(&mut self, key: &str)
        requires
            old(self).wf(),
            old(self)@.contains_key(key@) ==> old(self)@[key@] < i32::MAX,
        ensures
            final(self).wf(),
            final(self)@ == bump_or_init_map(old(self)@, key@),
    {
        let key_string = key.to_owned();
        match self.find_index(&key_string) {
            Some(i) => {
                let bumped = self.vals[i] + 1;
                self.upsert_overwrite(key, bumped);
            },
            None => {
                self.upsert_overwrite(key, 1);
            },
        }
    }

    /// The entries as key/value pairs, in insertion order: each pair is
    /// bound in the map, no key repeats, and every key of the map appears.
    pub fn entries(&self) -> (r: Vec<(String, i32)>)
        requires
            self.wf(),
        ensures
            r@.len() == self.num_entries(),
            forall|i: int|
                0 <= i < r@.len() ==> self@.contains_key(#[trigger] r@[i].0@) && self@[r@[i].0@]
                    == r@[i].1 as int,
            forall|i: int, j: int| 0 <= i < j < r@.len() ==> r@[i].0@ != r@[j].0@,
            forall|k: Seq<char>|
                self@.contains_key(k) ==> exists|i: int|
                    0 <= i < r@.len() && #[trigger] r@[i].0@ == k,
    {
        let n = self.keys.len();
        let mut r: Vec<(String, i32)> = Vec::new();
        let mut i: usize = 0;
        while i < n
            invariant
                n == self.keys@.len(),
                i <= n,
                self.wf(),
                r@.len() == i,
                forall|j: int| 0 <= j < i ==> #[trigger] r@[j].0@ == self.key_views()[j],
                forall|j: int| 0 <= j < i ==> #[trigger] r@[j].1 == self.vals@[j],
            decreases n - i,
        {
            r.push((self.keys[i].clone(), self.vals[i]));
            i += 1;
        }
        proof {
            assert forall|j: int| 0 <= j < r@.len() implies self@.contains_key(#[trigger] r@[j].0@)
                && self@[r@[j].0@] == r@[j].1 as int by {
                lemma_key_index_unique(self.key_views(), j);
            }
            assert forall|k: Seq<char>| self@.contains_key(k) implies exists|j: int|
                0 <= j < r@.len() && #[trigger] r@[j].0@ == k by {
                let j = key_index(self.key_views(), k);
                assert(r@[j].0@ == k);
            }
        }
        r
    }
}

/// The worked update sequence: start from `create_map()`, overwrite
/// `a -> 100`, insert-if-absent `b -> 200` (a no-op, `b` is present) and
/// `d -> 400` (inserted), then bump each of `a`, `b`, `c`, `d` once.
pub fn update_map() -> (r: StringKeyedIntMap)
    ensures
        r.wf(),
        r@ == map!["a"@ => 101int, "b"@ => 21int, "c"@ => 31int, "d"@ => 401int],
{
    proof {
        reveal_strlit("a");
        reveal_strlit("b");
        reveal_strlit("c");
        reveal_strlit("d");
        assert("a"@[0] == 'a' && "b"@[0] == 'b' && "c"@[0] == 'c' && "d"@[0] == 'd');
    }
    let mut map = create_map();
    map.upsert_overwrite("a", 100);
    map.upsert_if_absent("b", 200);
    map.upsert_if_absent("d", 400);
    map.bump_or_init("a");
    map.bump_or_init("b");
    map.bump_or_init("c");
    map.bump_or_init("d");
    proof {
        assert_maps_equal!(
            map@,
            map!["a"@ => 101int, "b"@ => 21int, "c"@ => 31int, "d"@ => 401int],
        );
    }
    map
}

/// Insert-if-absent is idempotent: a second application with the same key
/// and default leaves the map exactly as the first left it.
pub proof fn lemma_upsert_if_absent_idempotent(m: Map<Seq<char>, int>, k: Seq<char>, default: int)
    ensures
        upsert_if_absent_map(upsert_if_absent_map(m, k, default), k, default)
            == upsert_if_absent_map(m, k, default),
{
}

/// Bump-or-init applied `n >= 1` times to a key absent from the map leaves
/// that key bound to exactly `n`.
pub proof fn lemma_bump_n_times_fresh(m: Map<Seq<char>, int>, k: Seq<char>, n: nat)
    requires
        !m.contains_key(k),
        n >= 1,
    ensures
        bump_n_times(m, k, n).contains_key(k),
        bump_n_times(m, k, n)[k] == n,
    decreases n,
{
    if n == 1 {
        assert(bump_n_times(m, k, 0) == m);
    } else {
        lemma_bump_n_times_fresh(m, k, (n - 1) as nat);
    }
}

} // verus!
