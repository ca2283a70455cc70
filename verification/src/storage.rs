//! Byte-keyed, byte-valued storage with lazy time-to-live expiration.
//!
//! Time is a plain millisecond count handed in by the caller; an entry whose
//! expiry lies strictly before that count behaves, to every operation, as if
//! it were absent, and is purged the moment such an operation touches it.

use vstd::prelude::*;

use crate::bytes::bytes_eq;

verus! {

/// What one key maps to: its value and its optional absolute expiry, in
/// milliseconds of the caller's clock.
pub type StoredV = (Seq<u8>, Option<u64>);

/// An absolute expiry instant, in milliseconds of the caller's clock.
#[derive(Debug, PartialEq)]
pub struct Expiry {
    pub millis: u64,
}

impl Expiry {
    /// Absolute expiry a whole number of seconds from `now`; `None` where the
    /// instant would not fit in the clock's range.
    pub fn new_from_secs(duration: u64, now: u64) -> (r: Option<Expiry>)
        ensures
            r == expiry_from_secs(duration, now),
    {
        let wide: u128 = now as u128 + duration as u128 * 1000;
        if wide > u64::MAX as u128 {
            None
        } else {
            Some(Expiry { millis: wide as u64 })
        }
    }

    /// Absolute expiry a number of milliseconds from `now`.
    pub fn new_from_millis(duration: u64, now: u64) -> (r: Option<Expiry>)
        ensures
            r == expiry_from_millis(duration, now),
    {
        let wide: u128 = now as u128 + duration as u128;
        if wide > u64::MAX as u128 {
            None
        } else {
            Some(Expiry { millis: wide as u64 })
        }
    }
}

pub open spec fn expiry_from_secs(duration: u64, now: u64) -> Option<Expiry> {
    if now + duration * 1000 <= u64::MAX {
        Some(Expiry { millis: (now + duration * 1000) as u64 })
    } else {
        None
    }
}

pub open spec fn expiry_from_millis(duration: u64, now: u64) -> Option<Expiry> {
    if now + duration <= u64::MAX {
        Some(Expiry { millis: (now + duration) as u64 })
    } else {
        None
    }
}

/// An entry is still live at `now`: it has no expiry, or its expiry instant
/// has not yet passed.
pub open spec fn entry_live(e: StoredV, now: u64) -> bool {
    match e.1 {
        Some(t) => now <= t,
        None => true,
    }
}

/// The key is present and its entry is live: what every read sees.
pub open spec fn visible_at(m: Map<Seq<u8>, StoredV>, k: Seq<u8>, now: u64) -> bool {
    m.contains_key(k) && entry_live(m[k], now)
}

/// The value a read of `k` sees; meaningful only where `visible_at` holds.
pub open spec fn value_at(m: Map<Seq<u8>, StoredV>, k: Seq<u8>, now: u64) -> Seq<u8> {
    m[k].0
}

/// Lazy expiration at one key: an elapsed entry is dropped, all else stays.
pub open spec fn purge_effect(m: Map<Seq<u8>, StoredV>, k: Seq<u8>, now: u64) -> Map<
    Seq<u8>,
    StoredV,
> {
    if m.contains_key(k) && !entry_live(m[k], now) {
        m.remove(k)
    } else {
        m
    }
}

/// Insert or overwrite a value. A live entry keeps its expiry — expiry is
/// independent of the value and is only set by an explicit expire call; an
/// elapsed or absent entry is written fresh, without an expiry.
pub open spec fn write_effect(m: Map<Seq<u8>, StoredV>, k: Seq<u8>, v: Seq<u8>, now: u64) -> Map<
    Seq<u8>,
    StoredV,
> {
    if visible_at(m, k, now) {
        m.insert(k, (v, m[k].1))
    } else {
        m.insert(k, (v, None))
    }
}

/// Attach an expiry to a live entry; an elapsed entry is purged instead.
pub open spec fn expire_effect(m: Map<Seq<u8>, StoredV>, k: Seq<u8>, t: u64, now: u64) -> Map<
    Seq<u8>,
    StoredV,
> {
    if visible_at(m, k, now) {
        m.insert(k, (m[k].0, Some(t)))
    } else {
        purge_effect(m, k, now)
    }
}

/// Deletion drops the key whether live or elapsed; only a live deletion
/// counts as one.
pub open spec fn remove_effect(m: Map<Seq<u8>, StoredV>, k: Seq<u8>, now: u64) -> Map<
    Seq<u8>,
    StoredV,
> {
    if m.contains_key(k) {
        m.remove(k)
    } else {
        m
    }
}

/// The storage capability the execution engine drives: five operations over
/// a mapping from byte keys to values with optional expiry, every one of
/// them expiry-aware as the effect functions above state.
pub trait Storage: Sized {
    spec fn contents(&self) -> Map<Seq<u8>, StoredV>;

    spec fn inv(&self) -> bool;

    fn write(&mut self, key: &[u8], value: &[u8], now: u64)
        requires
            old(self).inv(),
        ensures
            final(self).inv(),
            final(self).contents() == write_effect(old(self).contents(), key@, value@, now),
    ;

    fn expire(&mut self, key: &[u8], expiry: Expiry, now: u64) -> (r: u32)
        requires
            old(self).inv(),
        ensures
            final(self).inv(),
            final(self).contents() == expire_effect(
                old(self).contents(),
                key@,
                expiry.millis,
                now,
            ),
            r == (if visible_at(old(self).contents(), key@, now) {
                1u32
            } else {
                0u32
            }),
    ;

    fn read(&mut self, key: &[u8], now: u64) -> (r: Option<Vec<u8>>)
        requires
            old(self).inv(),
        ensures
            final(self).inv(),
            final(self).contents() == purge_effect(old(self).contents(), key@, now),
            match r {
                Some(v) => visible_at(old(self).contents(), key@, now) && v@ == value_at(
                    old(self).contents(),
                    key@,
                    now,
                ),
                None => !visible_at(old(self).contents(), key@, now),
            },
    ;

    fn remove(&mut self, key: &[u8], now: u64) -> (r: u32)
        requires
            old(self).inv(),
        ensures
            final(self).inv(),
            final(self).contents() == remove_effect(old(self).contents(), key@, now),
            r == (if visible_at(old(self).contents(), key@, now) {
                1u32
            } else {
                0u32
            }),
    ;

    fn contains(&mut self, key: &[u8], now: u64) -> (r: bool)
        requires
            old(self).inv(),
        ensures
            final(self).inv(),
            final(self).contents() == purge_effect(old(self).contents(), key@, now),
            r == visible_at(old(self).contents(), key@, now),
    ;
}

/// One stored pair of the in-memory backend.
pub struct StoredEntry {
    pub key: Vec<u8>,
    pub value: Vec<u8>,
    pub expiry: Option<u64>,
}

pub open spec fn seq_has_key(s: Seq<StoredEntry>, k: Seq<u8>) -> bool {
    exists|i: int| 0 <= i < s.len() && s[i].key@ == k
}

pub open spec fn seq_index_of(s: Seq<StoredEntry>, k: Seq<u8>) -> int {
    choose|i: int| 0 <= i < s.len() && s[i].key@ == k
}

pub open spec fn map_of(s: Seq<StoredEntry>) -> Map<Seq<u8>, StoredV> {
    Map::new(
        |k: Seq<u8>| seq_has_key(s, k),
        |k: Seq<u8>| (s[seq_index_of(s, k)].value@, s[seq_index_of(s, k)].expiry),
    )
}

pub open spec fn unique_keys(s: Seq<StoredEntry>) -> bool {
    forall|i: int, j: int| 0 <= i < j < s.len() ==> s[i].key@ != s[j].key@
}

/// The in-memory backend: a flat list of entries with pairwise distinct keys.
pub struct InMemoryStorage {
    entries: Vec<StoredEntry>,
}

impl InMemoryStorage {
    pub fn new() -> (r: Self)
        ensures
            r.inv(),
            r.contents() == Map::<Seq<u8>, StoredV>::empty(),
    {
        let r = InMemoryStorage { entries: Vec::new() };
        proof {
            assert(r.contents() =~= Map::<Seq<u8>, StoredV>::empty());
        }
        r
    }

    fn find_index(&self, key: &[u8]) -> (r: Option<usize>)
        ensures
            match r {
                Some(i) => i < self.entries@.len() && self.entries@[i as int].key@ == key@,
                None => !seq_has_key(self.entries@, key@),
            },
    {
        let mut i: usize = 0;
        while i < self.entries.len()
            invariant
                i <= self.entries@.len(),
                forall|j: int| 0 <= j < i ==> self.entries@[j].key@ != key@,
            decreases self.entries@.len() - i,
        {
            if bytes_eq(self.entries[i].key.as_slice(), key) {
                return Some(i);
            }
            i += 1;
        }
        None
    }
}

/// Replacing the entry at a matching index is, at the map level, an insert
/// of the same key.
proof fn lemma_map_of_update(s: Seq<StoredEntry>, i: int, e: StoredEntry)
    requires
        unique_keys(s),
        0 <= i < s.len(),
        e.key@ == s[i].key@,
    ensures
        unique_keys(s.update(i, e)),
        map_of(s.update(i, e)) == map_of(s).insert(e.key@, (e.value@, e.expiry)),
{
    let s2 = s.update(i, e);
    assert forall|k: Seq<u8>| seq_has_key(s2, k) implies map_of(s).insert(
        e.key@,
        (e.value@, e.expiry),
    ).contains_key(k) && map_of(s2)[k] == map_of(s).insert(e.key@, (e.value@, e.expiry))[k] by {
        let j = seq_index_of(s2, k);
        if k == e.key@ {
            assert(j == i);
            assert(map_of(s2)[k] == (e.value@, e.expiry));
        } else {
            assert(j != i);
            assert(s[j].key@ == k);
            assert(seq_has_key(s, k));
            let j0 = seq_index_of(s, k);
            assert(j0 == j);
        }
    }
    assert forall|k: Seq<u8>| map_of(s).insert(e.key@, (e.value@, e.expiry)).contains_key(
        k,
    ) implies seq_has_key(s2, k) by {
        if k == e.key@ {
            assert(s2[i].key@ == k);
        } else {
            let j0 = seq_index_of(s, k);
            assert(s2[j0].key@ == k);
        }
    }
    assert(map_of(s2) =~= map_of(s).insert(e.key@, (e.value@, e.expiry)));
}

/// Appending an entry under a fresh key is, at the map level, an insert.
proof fn lemma_map_of_push(s: Seq<StoredEntry>, e: StoredEntry)
    requires
        unique_keys(s),
        !seq_has_key(s, e.key@),
    ensures
        unique_keys(s.push(e)),
        map_of(s.push(e)) == map_of(s).insert(e.key@, (e.value@, e.expiry)),
{
    let s2 = s.push(e);
    assert(s2.len() == s.len() + 1);
    assert(forall|j: int| 0 <= j < s.len() ==> s2[j] == s[j]);
    assert(s2[s.len() as int] == e);
    assert forall|k: Seq<u8>| seq_has_key(s2, k) implies map_of(s).insert(
        e.key@,
        (e.value@, e.expiry),
    ).contains_key(k) && map_of(s2)[k] == map_of(s).insert(e.key@, (e.value@, e.expiry))[k] by {
        let j = seq_index_of(s2, k);
        if k == e.key@ {
            assert(j == s.len());
        } else {
            assert(j < s.len());
            assert(seq_has_key(s, k));
            let j0 = seq_index_of(s, k);
            assert(j0 == j);
        }
    }
    assert forall|k: Seq<u8>| map_of(s).insert(e.key@, (e.value@, e.expiry)).contains_key(
        k,
    ) implies seq_has_key(s2, k) by {
        if k == e.key@ {
            assert(s2[s.len() as int].key@ == k);
        } else {
            let j0 = seq_index_of(s, k);
            assert(s2[j0].key@ == k);
        }
    }
    assert(map_of(s2) =~= map_of(s).insert(e.key@, (e.value@, e.expiry)));
}

/// Taking out the entry at a matching index is, at the map level, a remove.
proof fn lemma_map_of_remove(s: Seq<StoredEntry>, i: int)
    requires
        unique_keys(s),
        0 <= i < s.len(),
    ensures
        unique_keys(s.remove(i)),
        map_of(s.remove(i)) == map_of(s).remove(s[i].key@),
{
    let k0 = s[i].key@;
    let s2 = s.remove(i);
    assert(s2.len() == s.len() - 1);
    assert(forall|j: int| 0 <= j < i ==> s2[j] == s[j]);
    assert(forall|j: int| i <= j < s2.len() ==> s2[j] == s[j + 1]);
    assert forall|a: int, b: int| 0 <= a < b < s2.len() implies s2[a].key@ != s2[b].key@ by {
        let a0 = if a < i {
            a
        } else {
            a + 1
        };
        let b0 = if b < i {
            b
        } else {
            b + 1
        };
        assert(s2[a] == s[a0] && s2[b] == s[b0]);
    }
    assert forall|k: Seq<u8>| seq_has_key(s2, k) implies k != k0 && map_of(s).remove(
        k0,
    ).contains_key(k) && map_of(s2)[k] == map_of(s).remove(k0)[k] by {
        let j = seq_index_of(s2, k);
        let j0 = if j < i {
            j
        } else {
            j + 1
        };
        assert(s2[j] == s[j0]);
        assert(s[j0].key@ == k);
        assert(j0 != i);
        assert(k != k0);
        assert(seq_has_key(s, k));
        let ja = seq_index_of(s, k);
        assert(ja == j0);
    }
    assert forall|k: Seq<u8>| map_of(s).remove(k0).contains_key(k) implies seq_has_key(s2, k) by {
        let ja = seq_index_of(s, k);
        assert(ja != i);
        let j = if ja < i {
            ja
        } else {
            ja - 1
        };
        assert(s2[j] == s[ja]);
    }
    assert(map_of(s2) =~= map_of(s).remove(k0));
}

impl Storage for InMemoryStorage {
    closed spec fn contents(&self) -> Map<Seq<u8>, StoredV> {
        map_of(self.entries@)
    }

    closed spec fn inv(&self) -> bool {
        unique_keys(self.entries@)
    }

    fn write(&mut self, key: &[u8], value: &[u8], now: u64) {
        match self.find_index(key) {
            Some(i) => {
                proof {
                    assert(seq_has_key(self.entries@, key@));
                    assert(seq_index_of(self.entries@, key@) == i);
                }
                let live: bool = match self.entries[i].expiry {
                    Some(t) => now <= t,
                    None => true,
                };
                if live {
                    let e = StoredEntry {
                        key: crate::bytes::copy_bytes(key),
                        value: crate::bytes::copy_bytes(value),
                        expiry: self.entries[i].expiry,
                    };
                    proof {
                        lemma_map_of_update(self.entries@, i as int, e);
                    }
                    self.entries.set(i, e);
                } else {
                    let e = StoredEntry {
                        key: crate::bytes::copy_bytes(key),
                        value: crate::bytes::copy_bytes(value),
                        expiry: None,
                    };
                    proof {
                        lemma_map_of_update(self.entries@, i as int, e);
                    }
                    self.entries.set(i, e);
                }
            },
            None => {
                let e = StoredEntry {
                    key: crate::bytes::copy_bytes(key),
                    value: crate::bytes::copy_bytes(value),
                    expiry: None,
                };
                proof {
                    lemma_map_of_push(self.entries@, e);
                }
                self.entries.push(e);
            },
        }
    }

    fn expire(&mut self, key: &[u8], expiry: Expiry, now: u64) -> (r: u32) {
        match self.find_index(key) {
            Some(i) => {
                proof {
                    assert(seq_index_of(self.entries@, key@) == i);
                }
                let live: bool = match self.entries[i].expiry {
                    Some(t) => now <= t,
                    None => true,
                };
                if live {
                    let e = StoredEntry {
                        key: crate::bytes::copy_bytes(key),
                        value: crate::bytes::copy_bytes(self.entries[i].value.as_slice()),
                        expiry: Some(expiry.millis),
                    };
                    proof {
                        lemma_map_of_update(self.entries@, i as int, e);
                    }
                    self.entries.set(i, e);
                    1
                } else {
                    proof {
                        lemma_map_of_remove(self.entries@, i as int);
                    }
                    self.entries.remove(i);
                    0
                }
            },
            None => 0,
        }
    }

    fn read(&mut self, key: &[u8], now: u64) -> (r: Option<Vec<u8>>) {
        match self.find_index(key) {
            Some(i) => {
                proof {
                    assert(seq_index_of(self.entries@, key@) == i);
                }
                let live: bool = match self.entries[i].expiry {
                    Some(t) => now <= t,
                    None => true,
                };
                if live {
                    Some(crate::bytes::copy_bytes(self.entries[i].value.as_slice()))
                } else {
                    proof {
                        lemma_map_of_remove(self.entries@, i as int);
                    }
                    self.entries.remove(i);
                    None
                }
            },
            None => None,
        }
    }

    fn remove(&mut self, key: &[u8], now: u64) -> (r: u32) {
        match self.find_index(key) {
            Some(i) => {
                proof {
                    assert(seq_index_of(self.entries@, key@) == i);
                }
                let live: bool = match self.entries[i].expiry {
                    Some(t) => now <= t,
                    None => true,
                };
                proof {
                    lemma_map_of_remove(self.entries@, i as int);
                }
                self.entries.remove(i);
                if live {
                    1
                } else {
                    0
                }
            },
            None => 0,
        }
    }

    fn contains(&mut self, key: &[u8], now: u64) -> (r: bool) {
        match self.find_index(key) {
            Some(i) => {
                proof {
                    assert(seq_index_of(self.entries@, key@) == i);
                }
                let live: bool = match self.entries[i].expiry {
                    Some(t) => now <= t,
                    None => true,
                };
                if live {
                    true
                } else {
                    proof {
                        lemma_map_of_remove(self.entries@, i as int);
                    }
                    self.entries.remove(i);
                    false
                }
            },
            None => false,
        }
    }
}

} // verus!
