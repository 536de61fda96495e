//! The versioned key-value store that holds the limiters' per-client state.
//!
//! Every value is paired with a version taken from one counter that only
//! grows; a compare-and-swap succeeds only against the version it was read
//! at, so two replicas that read the same state cannot both write over it.

use vstd::prelude::*;

verus! {

/// Outcome of a compare-and-swap.
#[derive(Debug)]
pub struct CasResult {
    pub success: bool,
    /// Version after a successful write, or the current version on conflict
    /// (0 when the key is absent).
    pub version: i64,
}

struct Entry {
    key: String,
    value: Vec<u8>,
    version: i64,
}

/// In-process versioned store, used for single-node deployments.
pub struct LocalStore {
    entries: Vec<Entry>,
    counter: i64,
    contents: Ghost<Map<Seq<char>, (Seq<u8>, i64)>>,
    issued: Ghost<Set<i64>>,
    wrapped: Ghost<bool>,
}

/// Whether a compare-and-swap guarded by `expected` may write over the
/// entry `current` (`None` when the key is absent).
pub open spec fn cas_matches(expected: Option<i64>, current: Option<(Seq<u8>, i64)>) -> bool {
    match (expected, current) {
        (None, None) => true,
        (Some(ev), Some(cur)) => ev == cur.1,
        _ => false,
    }
}

/// The successor of a version counter, wrapping at the top of the range as
/// an atomic fetch-and-add does.
pub open spec fn wrapped_successor(v: i64) -> i64 {
    if v == i64::MAX {
        i64::MIN
    } else {
        (v + 1) as i64
    }
}

/// The entry under `key`, if any.
pub open spec fn lookup(m: Map<Seq<char>, (Seq<u8>, i64)>, key: Seq<char>) -> Option<(Seq<u8>, i64)> {
    if m.contains_key(key) {
        Some(m[key])
    } else {
        None
    }
}

/// Every version in `m` is positive and below `next`, the version the next
/// write will receive.
pub open spec fn fresh_versions(m: Map<Seq<char>, (Seq<u8>, i64)>, next: i64) -> bool {
    &&& 1 <= next
    &&& forall|k: Seq<char>| #[trigger] m.contains_key(k) ==> 1 <= m[k].1 < next
}

impl View for LocalStore {
    type V = Map<Seq<char>, (Seq<u8>, i64)>;

    closed spec fn view(&self) -> Map<Seq<char>, (Seq<u8>, i64)> {
        self.contents@
    }
}

impl LocalStore {
    /// The version the next write will receive.
    pub closed spec fn next_version_value(&self) -> i64 {
        self.counter
    }

    /// Every version this store has handed out, by `put` or by a successful
    /// `cas`.
    pub closed spec fn issued_versions(&self) -> Set<i64> {
        self.issued@
    }

    /// Whether the version counter has passed the top of its range (which
    /// takes `i64::MAX` writes) and wrapped around.
    pub closed spec fn counter_wrapped(&self) -> bool {
        self.wrapped@
    }

    /// Until the counter wraps, every stored version and every version handed
    /// out lies in `[1, next)`.
    pub open spec fn versions_below_next(&self) -> bool {
        !self.counter_wrapped() ==> {
            &&& self.fresh()
            &&& forall|u: i64| #[trigger] self.issued_versions().contains(u) ==> 1 <= u < self.next_version_value()
        }
    }

    /// Internal consistency: one entry per key, mirrored exactly by the view,
    /// and versions below the counter until it wraps.
    pub closed spec fn wf(&self) -> bool {
        &&& self.versions_below_next()
        &&& self.entries_mirrored()
    }

    /// One entry per key, mirrored exactly by the view.
    closed spec fn entries_mirrored(&self) -> bool {
        &&& forall|i: int, j: int|
            0 <= i < j < self.entries@.len() ==> #[trigger] self.entries@[i].key@
                != #[trigger] self.entries@[j].key@
        &&& forall|i: int|
            0 <= i < self.entries@.len() ==> #[trigger] self.contents@.contains_key(
                self.entries@[i].key@,
            ) && self.contents@[self.entries@[i].key@] == (
                self.entries@[i].value@,
                self.entries@[i].version,
            )
        &&& forall|k: Seq<char>|
            #[trigger] self.contents@.contains_key(k) ==> exists|i: int|
                0 <= i < self.entries@.len() && #[trigger] self.entries@[i].key@ == k
    }

    /// Every stored version is positive and below the next version to be
    /// handed out.
    pub open spec fn fresh(&self) -> bool {
        fresh_versions(self@, self.next_version_value())
    }

    /// An empty store whose first write gets version 1.
    pub fn new() -> (s: Self)
        ensures
            s.wf(),
            s.fresh(),
            s@ == Map::<Seq<char>, (Seq<u8>, i64)>::empty(),
            s.next_version_value() == 1,
            s.issued_versions() == Set::<i64>::empty(),
            !s.counter_wrapped(),
    {
        LocalStore {
            entries: Vec::new(),
            counter: 1,
            contents: Ghost(Map::empty()),
            issued: Ghost(Set::empty()),
            wrapped: Ghost(false),
        }
    }

    /// Hands out the current counter value and advances the counter, wrapping
    /// as an atomic fetch-and-add does.
    fn next_version(&mut self) -> (v: i64)
        requires
            old(self).wf(),
        ensures
            final(self).wf(),
            v == old(self).next_version_value(),
            final(self).next_version_value() == wrapped_successor(old(self).next_version_value()),
            final(self).entries == old(self).entries,
            final(self).contents == old(self).contents,
            final(self).issued_versions() == old(self).issued_versions().insert(v),
            final(self).counter_wrapped() == (old(self).counter_wrapped() || v == i64::MAX),
            !final(self).counter_wrapped() ==> 1 <= v < final(self).next_version_value(),
    {
        let v = self.counter;
        self.counter = if v == i64::MAX { i64::MIN } else { v + 1 };
        assert(old(self).entries_mirrored());
        let ghost issued = self.issued@.insert(v);
        let ghost wrapped = self.wrapped@ || v == i64::MAX;
        self.issued = Ghost(issued);
        self.wrapped = Ghost(wrapped);
        proof {
            if !self.wrapped@ {
                assert(old(self).versions_below_next());
                assert(!old(self).counter_wrapped());
                assert(old(self).fresh());
                assert(1 <= v);
                assert forall|u: i64| #[trigger] self.issued_versions().contains(u) implies 1 <= u < self.counter by {
                    if u != v {
                        assert(old(self).issued_versions().contains(u));
                    }
                }
                assert forall|k: Seq<char>| #[trigger] self@.contains_key(k) implies 1 <= self@[k].1 < self.counter by {
                    assert(old(self)@.contains_key(k));
                }
            }
            assert(self.entries@ == old(self).entries@);
            assert(self.contents@ == old(self).contents@);
            assert(self.entries_mirrored());
        }
        v
    }

    fn find(&self, key: &String) -> (r: Option<usize>)
        requires
            self.wf(),
        ensures
            match r {
                Some(i) => i < self.entries@.len() && self.entries@[i as int].key@ == key@,
                None => !self@.contains_key(key@),
            },
    {
        let n = self.entries.len();
        let mut i: usize = 0;
        while i < n
            invariant
                n == self.entries@.len(),
                i <= n,
                forall|j: int| 0 <= j < i ==> #[trigger] self.entries@[j].key@ != key@,
            decreases n - i,
        {
            if self.entries[i].key == *key {
                return Some(i);
            }
            i = i + 1;
        }
        None
    }

    /// The value and version stored under `key`, if any.
    pub fn get(&self, key: &str) -> (r: Option<(Vec<u8>, i64)>)
        requires
            self.wf(),
        ensures
            lookup(self@, key@) == (match r {
                Some((value, version)) => Some((value@, version)),
                None => None,
            }),
    {
        let k = key.to_owned();
        match self.find(&k) {
            Some(i) => {
                let value = copy_bytes(&self.entries[i].value);
                assert(self.contents@.contains_key(self.entries@[i as int].key@));
                Some((value, self.entries[i].version))
            },
            None => None,
        }
    }

    fn write(&mut self, key: String, value: Vec<u8>, version: i64)
        requires
            old(self).wf(),
            !old(self).counter_wrapped() ==> 1 <= version < old(self).next_version_value(),
        ensures
            final(self).wf(),
            final(self)@ == old(self)@.insert(key@, (value@, version)),
            final(self).next_version_value() == old(self).next_version_value(),
            final(self).issued_versions() == old(self).issued_versions(),
            final(self).counter_wrapped() == old(self).counter_wrapped(),
    {
        let ghost new_contents = self.contents@.insert(key@, (value@, version));
        match self.find(&key) {
            Some(i) => {
                let ghost k = key@;
                self.entries.set(i, Entry { key, value, version });
                self.contents = Ghost(new_contents);
                assert forall|a: int, b: int|
                    0 <= a < b < self.entries@.len() implies #[trigger] self.entries@[a].key@
                    != #[trigger] self.entries@[b].key@ by {
                    assert(old(self).entries@[a].key@ != old(self).entries@[b].key@);
                }
                assert forall|a: int| 0 <= a < self.entries@.len() implies #[trigger] self.contents@.contains_key(
                    self.entries@[a].key@,
                ) && self.contents@[self.entries@[a].key@] == (
                    self.entries@[a].value@,
                    self.entries@[a].version,
                ) by {
                    if a != i {
                        assert(old(self).contents@.contains_key(old(self).entries@[a].key@));
                        assert(old(self).entries@[a].key@ != old(self).entries@[i as int].key@);
                    }
                }
                assert forall|k2: Seq<char>| #[trigger] self.contents@.contains_key(k2) implies exists|
                    j: int,
                | 0 <= j < self.entries@.len() && #[trigger] self.entries@[j].key@ == k2 by {
                    if k2 != k {
                        let j = choose|j: int|
                            0 <= j < old(self).entries@.len() && #[trigger] old(
                                self,
                            ).entries@[j].key@ == k2;
                        assert(self.entries@[j].key@ == k2);
                    } else {
                        assert(self.entries@[i as int].key@ == k2);
                    }
                }
            },
            None => {
                let ghost k = key@;
                self.entries.push(Entry { key, value, version });
                self.contents = Ghost(new_contents);
                let ghost last = self.entries@.len() - 1;
                assert forall|a: int, b: int|
                    0 <= a < b < self.entries@.len() implies #[trigger] self.entries@[a].key@
                    != #[trigger] self.entries@[b].key@ by {
                    if b == last {
                        assert(old(self).contents@.contains_key(old(self).entries@[a].key@));
                    } else {
                        assert(old(self).entries@[a].key@ != old(self).entries@[b].key@);
                    }
                }
                assert forall|a: int| 0 <= a < self.entries@.len() implies #[trigger] self.contents@.contains_key(
                    self.entries@[a].key@,
                ) && self.contents@[self.entries@[a].key@] == (
                    self.entries@[a].value@,
                    self.entries@[a].version,
                ) by {
                    if a != last {
                        assert(old(self).contents@.contains_key(old(self).entries@[a].key@));
                    }
                }
                assert(self.entries@[last].key@ == k);
                assert forall|k2: Seq<char>| #[trigger] self.contents@.contains_key(k2) implies exists|
                    j: int,
                | 0 <= j < self.entries@.len() && #[trigger] self.entries@[j].key@ == k2 by {
                    if k2 != k {
                        let j = choose|j: int|
                            0 <= j < old(self).entries@.len() && #[trigger] old(
                                self,
                            ).entries@[j].key@ == k2;
                        assert(self.entries@[j].key@ == k2);
                    } else {
                        assert(self.entries@[last].key@ == k2);
                    }
                }
            },
        }
        assert(self.contents@ =~= new_contents);
        proof {
            if !self.wrapped@ {
                assert(old(self).versions_below_next());
                assert forall|u: i64| #[trigger] self.issued_versions().contains(u) implies 1 <= u < self.next_version_value() by {
                    assert(old(self).issued_versions().contains(u));
                }
                assert forall|k: Seq<char>| #[trigger] self@.contains_key(k) implies 1 <= self@[k].1 < self.counter by {
                    if k != key@ {
                        assert(old(self)@.contains_key(k));
                    }
                }
            }
        }
    }

    /// Unconditional write; returns the version the value was stored at.
    pub fn put(&mut self, key: &str, value: Vec<u8>) -> (v: i64)
        requires
            old(self).wf(),
        ensures
            final(self).wf(),
            final(self).versions_below_next(),
            v == old(self).next_version_value(),
            final(self).issued_versions() == old(self).issued_versions().insert(v),
            final(self).counter_wrapped() == (old(self).counter_wrapped() || v == i64::MAX),
            !final(self).counter_wrapped() ==> 1 <= v && forall|u: i64|
                #[trigger] old(self).issued_versions().contains(u) ==> u < v,
            final(self)@ == old(self)@.insert(key@, (value@, v)),
            final(self).next_version_value() == wrapped_successor(old(self).next_version_value()),
    {
        let v = self.next_version();
        self.write(key.to_owned(), value, v);
        v
    }

    /// Atomic compare-and-swap: with `expected == None` the write succeeds
    /// only when the key is absent, with `Some(v)` only when the key's
    /// current version is `v`. A refused write changes nothing.
    pub fn cas(&mut self, key: &str, expected: Option<i64>, value: Vec<u8>) -> (r: CasResult)
        requires
            old(self).wf(),
        ensures
            final(self).wf(),
            final(self).versions_below_next(),
            r.success == cas_matches(expected, lookup(old(self)@, key@)),
            r.success ==> {
                &&& r.version == old(self).next_version_value()
                &&& final(self).issued_versions() == old(self).issued_versions().insert(r.version)
                &&& final(self).counter_wrapped() == (old(self).counter_wrapped() || r.version == i64::MAX)
                &&& !final(self).counter_wrapped() ==> 1 <= r.version && forall|u: i64|
                    #[trigger] old(self).issued_versions().contains(u) ==> u < r.version
                &&& final(self)@ == old(self)@.insert(key@, (value@, r.version))
                &&& final(self).next_version_value() == wrapped_successor(old(self).next_version_value())
            },
            !r.success ==> {
                &&& r.version == (match lookup(old(self)@, key@) {
                    Some(entry) => entry.1,
                    None => 0,
                })
                &&& final(self)@ == old(self)@
                &&& final(self).next_version_value() == old(self).next_version_value()
                &&& final(self).issued_versions() == old(self).issued_versions()
                &&& final(self).counter_wrapped() == old(self).counter_wrapped()
            },
    {
        let k = key.to_owned();
        let found = self.find(&k);
        let current: Option<i64> = match found {
            Some(i) => Some(self.entries[i].version),
            None => None,
        };
        let matches = match (expected, current) {
            (None, None) => true,
            (Some(ev), Some(cv)) => ev == cv,
            _ => false,
        };
        if matches {
            let v = self.next_version();
            self.write(k, value, v);
            CasResult { success: true, version: v }
        } else {
            let current_version = match current {
                Some(cv) => cv,
                None => 0,
            };
            CasResult { success: false, version: current_version }
        }
    }
}

/// Law (read your write): after a write of `value` at `version` under
/// `key`, reading `key` gives back exactly that value and version.
pub proof fn law_read_after_write(
    m: Map<Seq<char>, (Seq<u8>, i64)>,
    key: Seq<char>,
    value: Seq<u8>,
    version: i64,
)
    ensures
        lookup(m.insert(key, (value, version)), key) == Some((value, version)),
{
}

/// Law (isolation): a write under one key leaves every other key's entry
/// as it was.
pub proof fn law_write_isolated(
    m: Map<Seq<char>, (Seq<u8>, i64)>,
    key: Seq<char>,
    other: Seq<char>,
    entry: (Seq<u8>, i64),
)
    requires
        key != other,
    ensures
        lookup(m.insert(key, entry), other) == lookup(m, other),
{
}

/// Law (versions only grow): a write at the next version keeps every stored
/// version below the next one, unless the counter has reached the top of
/// its range.
pub proof fn law_write_keeps_versions_fresh(
    m: Map<Seq<char>, (Seq<u8>, i64)>,
    next: i64,
    key: Seq<char>,
    value: Seq<u8>,
)
    requires
        fresh_versions(m, next),
        next < i64::MAX,
    ensures
        fresh_versions(m.insert(key, (value, next)), wrapped_successor(next)),
        wrapped_successor(next) == next + 1,
{
    assert forall|k: Seq<char>| #[trigger] m.insert(key, (value, next)).contains_key(k) implies 1
        <= m.insert(key, (value, next))[k].1 < wrapped_successor(next) by {
        if k != key {
            assert(m.contains_key(k));
        }
    }
}

/// Law (no lost update): two writers that read the same version `v` of a
/// key cannot both commit. Once the first compare-and-swap guarded by `v`
/// has written at the next version, a second one guarded by `v` is refused.
pub proof fn law_stale_version_refused(
    m: Map<Seq<char>, (Seq<u8>, i64)>,
    next: i64,
    key: Seq<char>,
    v: i64,
    value: Seq<u8>,
)
    requires
        fresh_versions(m, next),
        cas_matches(Some(v), lookup(m, key)),
    ensures
        !cas_matches(Some(v), lookup(m.insert(key, (value, next)), key)),
{
    assert(m.contains_key(key));
}

/// Law (create once): once a compare-and-swap guarded by "absent" has
/// created a key, a second one guarded by "absent" is refused.
pub proof fn law_second_create_refused(
    m: Map<Seq<char>, (Seq<u8>, i64)>,
    key: Seq<char>,
    entry: (Seq<u8>, i64),
)
    ensures
        !cas_matches(None, lookup(m.insert(key, entry), key)),
{
}

/// A fresh copy of a byte vector.
fn copy_bytes(src: &Vec<u8>) -> (dst: Vec<u8>)
    ensures
        dst@ == src@,
{
    let mut dst: Vec<u8> = Vec::new();
    let n = src.len();
    let mut i: usize = 0;
    while i < n
        invariant
            n == src@.len(),
            i <= n,
            dst@ == src@.subrange(0, i as int),
        decreases n - i,
    {
        dst.push(src[i]);
        i = i + 1;
        assert(dst@ =~= src@.subrange(0, i as int));
    }
    assert(src@.subrange(0, n as int) =~= src@);
    dst
}

} // verus!
