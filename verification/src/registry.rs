//! Session registry: a TTL key-value table mapping an opaque refresh handle
//! to the fingerprint of the access token it was issued with.
//!
//! The registry is the sole authority on refresh-handle liveness: a handle
//! that does not resolve here is a dead session. The table is modelled
//! in memory, one entry per handle, with an availability switch that stands
//! for the backing store being reachable or not — protocol code is verified
//! against both outcomes.

use vstd::prelude::*;

use crate::errors::CacheError;

verus! {

/// One registry entry: handle, access-token fingerprint, absolute expiry.
#[derive(Clone, Debug)]
pub struct SessionEntry {
    pub key: String,
    pub value: String,
    pub expires_at: u64,
}

/// The entries left after deleting a handle: every entry except those
/// stored under it, in their original order. This is the registry
/// transition behind deletion and logout.
pub open spec fn entries_without(entries: Seq<SessionEntry>, k: Seq<char>) -> Seq<SessionEntry>
    decreases entries.len(),
{
    if entries.len() == 0 {
        entries
    } else if entries.last().key@ == k {
        entries_without(entries.drop_last(), k)
    } else {
        entries_without(entries.drop_last(), k).push(entries.last())
    }
}

/// Deleting a handle that no entry carries changes nothing.
pub proof fn lemma_without_absent_key(s: Seq<SessionEntry>, k: Seq<char>)
    requires
        forall|i: int| 0 <= i < s.len() ==> s[i].key@ != k,
    ensures
        entries_without(s, k) == s,
    decreases s.len(),
{
    if s.len() > 0 {
        assert forall|i: int| 0 <= i < s.drop_last().len() implies s.drop_last()[i].key@
            != k by {
            assert(s.drop_last()[i] == s[i]);
        }
        lemma_without_absent_key(s.drop_last(), k);
        assert(s.last().key@ != k);
        assert(s.drop_last().push(s.last()) =~= s);
    }
}

/// No entry under the deleted handle survives the deletion.
pub proof fn lemma_without_is_clean(s: Seq<SessionEntry>, k: Seq<char>)
    ensures
        forall|i: int|
            0 <= i < entries_without(s, k).len() ==> #[trigger] entries_without(s, k)[i].key@ != k,
    decreases s.len(),
{
    if s.len() > 0 {
        lemma_without_is_clean(s.drop_last(), k);
        if s.last().key@ != k {
            let prev = entries_without(s.drop_last(), k);
            assert forall|i: int|
                0 <= i < entries_without(s, k).len() implies #[trigger] entries_without(
                s,
                k,
            )[i].key@ != k by {
                if i < prev.len() {
                    assert(entries_without(s, k)[i] == prev[i]);
                } else {
                    assert(entries_without(s, k)[i] == s.last());
                }
            }
        }
    }
}

/// Idempotent deletion: deleting the same handle twice leaves exactly the
/// entries that one deletion leaves. Together with `Cache::remove` and
/// `AuthService::logout` succeeding unconditionally, a second logout with
/// the same handle is as successful — and as final — as the first.
pub proof fn lemma_logout_idempotent(entries: Seq<SessionEntry>, k: Seq<char>)
    ensures
        entries_without(entries_without(entries, k), k) == entries_without(entries, k),
{
    lemma_without_is_clean(entries, k);
    lemma_without_absent_key(entries_without(entries, k), k);
}

/// Removing the only entry at index `i` that carries the handle is the
/// same as the deletion transition.
proof fn lemma_remove_is_without(s: Seq<SessionEntry>, i: int, k: Seq<char>)
    requires
        0 <= i < s.len(),
        s[i].key@ == k,
        forall|j: int| 0 <= j < s.len() && j != i ==> s[j].key@ != k,
    ensures
        s.remove(i) == entries_without(s, k),
    decreases s.len(),
{
    if i == s.len() - 1 {
        assert(s.remove(i) =~= s.drop_last());
        assert forall|j: int| 0 <= j < s.drop_last().len() implies s.drop_last()[j].key@
            != k by {
            assert(s.drop_last()[j] == s[j]);
        }
        lemma_without_absent_key(s.drop_last(), k);
    } else {
        assert(s.last().key@ != k);
        assert forall|j: int|
            0 <= j < s.drop_last().len() && j != i implies s.drop_last()[j].key@ != k by {
            assert(s.drop_last()[j] == s[j]);
        }
        assert(s.drop_last()[i] == s[i]);
        lemma_remove_is_without(s.drop_last(), i, k);
        assert(s.remove(i) =~= s.drop_last().remove(i).push(s.last()));
    }
}

/// The session registry.
pub struct Cache {
    entries: Vec<SessionEntry>,
    available: bool,
}

impl Cache {
    /// The entries currently stored, in insertion order.
    pub closed spec fn spec_entries(self) -> Seq<SessionEntry> {
        self.entries@
    }

    /// Whether the backing store is reachable.
    pub closed spec fn spec_available(self) -> bool {
        self.available
    }

    /// Well-formed: no two entries share a handle.
    pub open spec fn wf(self) -> bool {
        forall|i: int, j: int|
            0 <= i < j < self.spec_entries().len() ==> self.spec_entries()[i].key@
                != self.spec_entries()[j].key@
    }

    /// Whether some entry is stored under this handle.
    pub open spec fn has_key(self, k: Seq<char>) -> bool {
        exists|i: int|
            0 <= i < self.spec_entries().len() && self.spec_entries()[i].key@ == k
    }

    /// Index of the entry stored under this handle.
    pub closed spec fn key_index(self, k: Seq<char>) -> int {
        choose|i: int| 0 <= i < self.spec_entries().len() && self.spec_entries()[i].key@ == k
    }

    /// The entry stored under this handle.
    pub open spec fn entry_at(self, k: Seq<char>) -> SessionEntry
        recommends
            self.has_key(k),
    {
        self.spec_entries()[self.key_index(k)]
    }

    /// Fingerprint stored under this handle.
    pub open spec fn value_of(self, k: Seq<char>) -> Seq<char> {
        self.entry_at(k).value@
    }

    /// Absolute expiry of this handle.
    pub open spec fn expiry_of(self, k: Seq<char>) -> u64 {
        self.entry_at(k).expires_at
    }

    /// A handle resolves at time `now` when it is stored and not yet expired.
    pub open spec fn live(self, k: Seq<char>, now: u64) -> bool {
        self.has_key(k) && self.expiry_of(k) > now
    }

    /// In a well-formed registry, the entry stored under the handle of the
    /// entry at index `i` is that entry itself.
    pub proof fn lemma_key_index(self, i: int)
        requires
            self.wf(),
            0 <= i < self.spec_entries().len(),
        ensures
            self.key_index(self.spec_entries()[i].key@) == i,
            self.has_key(self.spec_entries()[i].key@),
            self.entry_at(self.spec_entries()[i].key@) == self.spec_entries()[i],
    {
        let k = self.spec_entries()[i].key@;
        assert(0 <= i < self.spec_entries().len() && self.spec_entries()[i].key@ == k);
        assert(self.has_key(k));
        let j = self.key_index(k);
        assert(0 <= j < self.spec_entries().len() && self.spec_entries()[j].key@ == k);
        if i != j {
            assert(self.spec_entries()[i].key@ != self.spec_entries()[j].key@);
        }
    }

    /// An empty, reachable registry.
    pub fn new() -> (r: Cache)
        ensures
            r.wf(),
            r.spec_available(),
            r.spec_entries() == Seq::<SessionEntry>::empty(),
    {
        Cache { entries: Vec::new(), available: true }
    }

    /// Switches the modelled reachability of the backing store; entries are
    /// untouched. Protocol contracts are stated for both positions.
    pub fn set_available(&mut self, available: bool)
        ensures
            final(self).spec_available() == available,
            final(self).spec_entries() == old(self).spec_entries(),
    {
        self.available = available;
    }

    /// Whether the backing store is currently reachable.
    pub fn available(&self) -> (r: bool)
        ensures
            r == self.spec_available(),
    {
        self.available
    }

    /// Number of entries stored.
    pub fn len(&self) -> (r: usize)
        ensures
            r == self.spec_entries().len(),
    {
        self.entries.len()
    }

    fn find_index(&self, key: &str) -> (r: Option<usize>)
        ensures
            r matches Some(i) ==> 0 <= i < self.spec_entries().len() && self.spec_entries()[
                i as int
            ].key@ == key@,
            r is None ==> !self.has_key(key@),
    {
        let k = key.to_owned();
        let mut i: usize = 0;
        while i < self.entries.len()
            invariant
                i <= self.spec_entries().len(),
                k@ == key@,
                forall|j: int| 0 <= j < i ==> self.spec_entries()[j].key@ != key@,
            decreases self.spec_entries().len() - i,
        {
            if self.entries[i].key == k {
                return Some(i);
            }
            i = i + 1;
        }
        None
    }

    /// Inserts or replaces the entry under `key` (an upsert, as the backing
    /// store's SET is). Fails only when the store is unreachable, and then
    /// changes nothing.
    pub fn add_pair(&mut self, key: &str, value: &str, expires_at: u64) -> (r: Result<
        bool,
        CacheError<()>,
    >)
        requires
            old(self).wf(),
        ensures
            final(self).wf(),
            final(self).spec_available() == old(self).spec_available(),
            !old(self).spec_available() ==> r == Err::<bool, CacheError<()>>(
                CacheError::ConnectionGet,
            ) && final(self).spec_entries() == old(self).spec_entries(),
            old(self).spec_available() ==> r == Ok::<bool, CacheError<()>>(true),
            old(self).spec_available() ==> final(self).has_key(key@) && final(self).value_of(key@)
                == value@ && final(self).expiry_of(key@) == expires_at,
            forall|k: Seq<char>|
                k != key@ ==> #[trigger] final(self).has_key(k) == old(self).has_key(k),
            forall|k: Seq<char>|
                k != key@ && old(self).has_key(k) ==> #[trigger] final(self).entry_at(k) == old(
                    self,
                ).entry_at(k),
    {
        if !self.available {
            return Err(CacheError::ConnectionGet);
        }
        let entry = SessionEntry { key: key.to_owned(), value: value.to_owned(), expires_at };
        let found = self.find_index(key);
        match found {
            Some(i) => {
                let ghost old_entries = self.entries@;
                self.entries[i] = entry;
                proof {
                    let entries = self.entries@;
                    assert(entries == old_entries.update(i as int, entries[i as int]));
                    assert forall|a: int, b: int|
                        0 <= a < b < entries.len() implies entries[a].key@ != entries[b].key@ by {
                        assert(old_entries[a].key@ != old_entries[b].key@);
                    }
                    self.lemma_key_index(i as int);
                    assert forall|k: Seq<char>| k != key@ implies #[trigger] self.has_key(k) == old(
                        self,
                    ).has_key(k) by {
                        if self.has_key(k) {
                            let a = choose|a: int|
                                0 <= a < entries.len() && entries[a].key@ == k;
                            assert(old_entries[a].key@ == k);
                            assert(old(self).has_key(k));
                        }
                        if old(self).has_key(k) {
                            let a = choose|a: int|
                                0 <= a < old_entries.len() && old_entries[a].key@ == k;
                            assert(a != i);
                            assert(entries[a].key@ == k);
                            assert(self.has_key(k));
                        }
                    }
                    assert forall|k: Seq<char>| k != key@ && old(self).has_key(k) implies #[trigger]
                        self.entry_at(k) == old(self).entry_at(k) by {
                        let a = choose|a: int|
                            0 <= a < old_entries.len() && old_entries[a].key@ == k;
                        assert(a != i);
                        assert(entries[a].key@ == k);
                        self.lemma_key_index(a);
                        old(self).lemma_key_index(a);
                    }
                }
                Ok(true)
            },
            None => {
                let ghost old_entries = self.entries@;
                self.entries.push(entry);
                proof {
                    let entries = self.entries@;
                    assert forall|a: int, b: int|
                        0 <= a < b < entries.len() implies entries[a].key@ != entries[b].key@ by {
                        if b < old_entries.len() {
                            assert(old_entries[a].key@ != old_entries[b].key@);
                        } else {
                            assert(entries[b].key@ == key@);
                            assert(old_entries[a].key@ != key@) by {
                                if old_entries[a].key@ == key@ {
                                    assert(old(self).has_key(key@));
                                }
                            }
                        }
                    }
                    self.lemma_key_index(entries.len() - 1);
                    assert forall|k: Seq<char>| k != key@ implies #[trigger] self.has_key(k) == old(
                        self,
                    ).has_key(k) by {
                        if self.has_key(k) {
                            let a = choose|a: int|
                                0 <= a < entries.len() && entries[a].key@ == k;
                            assert(a < old_entries.len());
                            assert(old(self).has_key(k));
                        }
                        if old(self).has_key(k) {
                            let a = choose|a: int|
                                0 <= a < old_entries.len() && old_entries[a].key@ == k;
                            assert(entries[a].key@ == k);
                            assert(self.has_key(k));
                        }
                    }
                    assert forall|k: Seq<char>| k != key@ && old(self).has_key(k) implies #[trigger]
                        self.entry_at(k) == old(self).entry_at(k) by {
                        let a = choose|a: int|
                            0 <= a < old_entries.len() && old_entries[a].key@ == k;
                        assert(entries[a].key@ == k);
                        self.lemma_key_index(a);
                        old(self).lemma_key_index(a);
                    }
                }
                Ok(true)
            },
        }
    }

    /// Looks up a handle at time `now`. An expired or absent entry is
    /// `Ok(None)`; an unreachable store is an error.
    pub fn get_pair(&self, key: &str, now: u64) -> (r: Result<Option<String>, CacheError<()>>)
        requires
            self.wf(),
        ensures
            !self.spec_available() ==> r == Err::<Option<String>, CacheError<()>>(
                CacheError::ConnectionGet,
            ),
            self.spec_available() && self.live(key@, now) ==> (r matches Ok(v) && v matches Some(f)
                && f@ == self.value_of(key@)),
            self.spec_available() && !self.live(key@, now) ==> r == Ok::<
                Option<String>,
                CacheError<()>,
            >(None),
    {
        if !self.available {
            return Err(CacheError::ConnectionGet);
        }
        match self.find_index(key) {
            Some(i) => {
                proof {
                    self.lemma_key_index(i as int);
                }
                if self.entries[i].expires_at > now {
                    Ok(Some(self.entries[i].value.clone()))
                } else {
                    Ok(None)
                }
            },
            None => Ok(None),
        }
    }

    /// Deletes the entry under `key` if there is one. Deleting an absent
    /// handle succeeds: removal is idempotent. Fails only when the store is
    /// unreachable, and then changes nothing.
    pub fn remove(&mut self, key: &str) -> (r: Result<(), CacheError<()>>)
        requires
            old(self).wf(),
        ensures
            final(self).wf(),
            final(self).spec_available() == old(self).spec_available(),
            !old(self).spec_available() ==> r == Err::<(), CacheError<()>>(
                CacheError::ConnectionGet,
            ) && final(self).spec_entries() == old(self).spec_entries(),
            old(self).spec_available() ==> r == Ok::<(), CacheError<()>>(()),
            old(self).spec_available() ==> !final(self).has_key(key@),
            old(self).spec_available() ==> final(self).spec_entries() == entries_without(
                old(self).spec_entries(),
                key@,
            ),
            forall|k: Seq<char>|
                k != key@ ==> #[trigger] final(self).has_key(k) == old(self).has_key(k),
            forall|k: Seq<char>|
                k != key@ && old(self).has_key(k) ==> #[trigger] final(self).entry_at(k) == old(
                    self,
                ).entry_at(k),
    {
        if !self.available {
            return Err(CacheError::ConnectionGet);
        }
        match self.find_index(key) {
            Some(i) => {
                let ghost old_entries = self.entries@;
                self.entries.remove(i);
                proof {
                    let entries = self.entries@;
                    assert(entries == old_entries.remove(i as int));
                    assert forall|j: int|
                        0 <= j < old_entries.len() && j != i implies old_entries[j].key@
                        != key@ by {
                        if j < i {
                            assert(old_entries[j].key@ != old_entries[i as int].key@);
                        } else {
                            assert(old_entries[i as int].key@ != old_entries[j].key@);
                        }
                    }
                    lemma_remove_is_without(old_entries, i as int, key@);
                    assert forall|a: int, b: int|
                        0 <= a < b < entries.len() implies entries[a].key@ != entries[b].key@ by {
                        let oa: int = if a < i { a } else { a + 1 };
                        let ob: int = if b < i { b } else { b + 1 };
                        assert(entries[a] == old_entries[oa]);
                        assert(entries[b] == old_entries[ob]);
                        assert(old_entries[oa].key@ != old_entries[ob].key@);
                    }
                    assert(!self.has_key(key@)) by {
                        if self.has_key(key@) {
                            let a = choose|a: int|
                                0 <= a < entries.len() && entries[a].key@ == key@;
                            let oa: int = if a < i { a } else { a + 1 };
                            assert(old_entries[oa].key@ == key@);
                            assert(old_entries[i as int].key@ == key@);
                            assert(oa != i);
                        }
                    }
                    assert forall|k: Seq<char>| k != key@ implies #[trigger] self.has_key(k) == old(
                        self,
                    ).has_key(k) by {
                        if self.has_key(k) {
                            let a = choose|a: int|
                                0 <= a < entries.len() && entries[a].key@ == k;
                            let oa: int = if a < i { a } else { a + 1 };
                            assert(old_entries[oa].key@ == k);
                            assert(old(self).has_key(k));
                        }
                        if old(self).has_key(k) {
                            let a = choose|a: int|
                                0 <= a < old_entries.len() && old_entries[a].key@ == k;
                            assert(a != i);
                            let na: int = if a < i { a } else { a - 1 };
                            assert(entries[na] == old_entries[a]);
                            assert(self.has_key(k));
                        }
                    }
                    assert forall|k: Seq<char>| k != key@ && old(self).has_key(k) implies #[trigger]
                        self.entry_at(k) == old(self).entry_at(k) by {
                        let a = choose|a: int|
                            0 <= a < old_entries.len() && old_entries[a].key@ == k;
                        assert(a != i);
                        let na: int = if a < i { a } else { a - 1 };
                        assert(entries[na] == old_entries[a]);
                        self.lemma_key_index(na);
                        old(self).lemma_key_index(a);
                    }
                }
                Ok(())
            },
            None => {
                proof {
                    assert forall|j: int|
                        0 <= j < self.spec_entries().len() implies self.spec_entries()[j].key@
                        != key@ by {
                        if self.spec_entries()[j].key@ == key@ {
                            assert(self.has_key(key@));
                        }
                    }
                    lemma_without_absent_key(self.spec_entries(), key@);
                }
                Ok(())
            },
        }
    }
}

} // verus!
