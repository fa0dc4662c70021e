use vstd::prelude::*;
use vstd::pervasive::VecAdditionalExecFns;
use vstd::string::StrSliceExecFns;
use crate::kv::storage::StorageError;

verus! {

/// What the optimistic-concurrency rule prescribes for a put.
pub enum PutOutcome {
    /// The write goes through and the key ends at this version.
    Accepted(u64),
    /// An update was asked of a key that does not exist.
    MissingKey,
    /// A create was asked of a key that already exists.
    ExistingKey,
    /// An update named a version other than the stored one.
    WrongVersion(u64),
}

/// The outcome the optimistic-concurrency rule prescribes for a put, given
/// only what the backend found: the stored version of the key, if any, and
/// the version the caller expects. Version zero means "create".
pub open spec fn put_outcome(existing_version: Option<u64>, expected_version: u64) -> PutOutcome {
    match existing_version {
        None => if expected_version == 0 {
            PutOutcome::Accepted(1)
        } else {
            PutOutcome::MissingKey
        },
        Some(actual) => if expected_version == 0 {
            PutOutcome::ExistingKey
        } else if actual == expected_version {
            PutOutcome::Accepted((expected_version + 1) as u64)
        } else {
            PutOutcome::WrongVersion(actual)
        },
    }
}

/// The version rule every `Storage` backend follows, as one decision from
/// plain values: a create (`expected_version == 0`) needs an absent key and
/// yields version one; an update needs the exact stored version and bumps
/// it by one; anything else is refused with the matching error.
pub fn decide_put(
    key: &str,
    existing_version: Option<u64>,
    expected_version: u64,
) -> (r: Result<u64, StorageError>)
    requires
        expected_version < u64::MAX,
    ensures
        match put_outcome(existing_version, expected_version) {
            PutOutcome::Accepted(v) => r matches Ok(got) && got == v,
            PutOutcome::MissingKey => r matches Err(StorageError::KeyNotFound(k)) && k@ == key@,
            PutOutcome::ExistingKey => r matches Err(StorageError::KeyAlreadyExists(k)) && k@
                == key@,
            PutOutcome::WrongVersion(actual_stored) => r matches Err(
                StorageError::VersionMismatch { expected, actual },
            ) && expected == expected_version && actual == actual_stored,
        },
{
    match existing_version {
        None => {
            if expected_version == 0 {
                Ok(1)
            } else {
                Err(StorageError::KeyNotFound(key.to_owned()))
            }
        },
        Some(actual) => {
            if expected_version == 0 {
                Err(StorageError::KeyAlreadyExists(key.to_owned()))
            } else if actual == expected_version {
                Ok(expected_version + 1)
            } else {
                Err(StorageError::VersionMismatch { expected: expected_version, actual })
            }
        },
    }
}

/// Character-for-character string comparison.
fn eq_str(a: &str, b: &str) -> (r: bool)
    ensures
        r == (a@ == b@),
{
    let alen = a.unicode_len();
    let blen = b.unicode_len();
    if alen != blen {
        proof {
            assert(a@ != b@);
        }
        return false;
    }
    let mut i: usize = 0;
    while i < alen
        invariant
            alen == a@.len(),
            alen == b@.len(),
            i <= alen,
            forall|j: int| 0 <= j < i ==> a@[j] == b@[j],
        decreases alen - i,
    {
        if a.get_char(i) != b.get_char(i) {
            return false;
        }
        i = i + 1;
    }
    proof {
        assert(a@ =~= b@);
    }
    true
}

/// One stored binding.
pub struct KvEntry {
    pub key: String,
    pub value: String,
    pub version: u64,
}

/// The stored version of `key`, scanning from the front.
pub open spec fn stored_version(s: Seq<KvEntry>, key: Seq<char>) -> Option<u64>
    decreases s.len(),
{
    if s.len() == 0 {
        None
    } else if s[0].key@ == key {
        Some(s[0].version)
    } else {
        stored_version(s.drop_first(), key)
    }
}

/// The stored value of `key`, scanning from the front.
pub open spec fn stored_value(s: Seq<KvEntry>, key: Seq<char>) -> Option<Seq<char>>
    decreases s.len(),
{
    if s.len() == 0 {
        None
    } else if s[0].key@ == key {
        Some(s[0].value@)
    } else {
        stored_value(s.drop_first(), key)
    }
}

/// The in-memory versioned store: the reference implementation of the
/// optimistic-concurrency rule, with exclusive access (a server wraps it in
/// its own synchronization).
pub struct VersionedStore {
    entries: Vec<KvEntry>,
}

impl VersionedStore {
    pub closed spec fn view_entries(&self) -> Seq<KvEntry> {
        self.entries@
    }

    pub fn new() -> (r: Self)
        ensures
            r.view_entries() == Seq::<KvEntry>::empty(),
    {
        let r = VersionedStore { entries: Vec::new() };
        proof {
            assert(r.entries@ =~= Seq::<KvEntry>::empty());
        }
        r
    }

    /// Position of the first binding of `key`, if any.
    fn find(&self, key: &str) -> (r: Option<usize>)
        ensures
            match r {
                Some(i) => i < self.view_entries().len() && self.view_entries()[i as int].key@
                    == key@ && forall|j: int|
                    0 <= j < i ==> (#[trigger] self.view_entries()[j]).key@ != key@,
                None => forall|j: int|
                    0 <= j < self.view_entries().len() ==> (
                    #[trigger] self.view_entries()[j]).key@ != key@,
            },
    {
        let n = self.entries.len();
        let mut i: usize = 0;
        while i < n
            invariant
                n == self.entries@.len(),
                i <= n,
                forall|j: int| 0 <= j < i ==> (#[trigger] self.entries@[j]).key@ != key@,
            decreases n - i,
        {
            if eq_str(self.entries[i].key.as_str(), key) {
                return Some(i);
            }
            i = i + 1;
        }
        None
    }

    /// A first binding at position `i` (with none earlier) is what the
    /// scanning specs report.
    proof fn lemma_stored_at(s: Seq<KvEntry>, key: Seq<char>, i: int)
        requires
            0 <= i < s.len(),
            s[i].key@ == key,
            forall|j: int| 0 <= j < i ==> (#[trigger] s[j]).key@ != key,
        ensures
            stored_version(s, key) == Some(s[i].version),
            stored_value(s, key) == Some(s[i].value@),
        decreases i,
    {
        if i > 0 {
            assert(forall|j: int| 0 <= j < s.drop_first().len() ==> #[trigger] s.drop_first()[j] == s[j
                + 1]);
            Self::lemma_stored_at(s.drop_first(), key, i - 1);
        }
    }

    /// A key bound nowhere is absent for the scanning specs.
    proof fn lemma_stored_absent(s: Seq<KvEntry>, key: Seq<char>)
        requires
            forall|j: int| 0 <= j < s.len() ==> (#[trigger] s[j]).key@ != key,
        ensures
            stored_version(s, key) is None,
            stored_value(s, key) is None,
        decreases s.len(),
    {
        if s.len() > 0 {
            assert(forall|j: int| 0 <= j < s.drop_first().len() ==> #[trigger] s.drop_first()[j] == s[j
                + 1]);
            Self::lemma_stored_absent(s.drop_first(), key);
        }
    }

    /// Replacing the binding at the first occurrence of one key leaves
    /// every other key's binding as it was.
    proof fn lemma_stored_update_other(s: Seq<KvEntry>, i: int, e: KvEntry, key: Seq<char>)
        requires
            0 <= i < s.len(),
            s[i].key@ == e.key@,
            key != e.key@,
        ensures
            stored_version(s.update(i, e), key) == stored_version(s, key),
            stored_value(s.update(i, e), key) == stored_value(s, key),
        decreases i,
    {
        let t = s.update(i, e);
        if i == 0 {
            assert(t[0] == e);
            assert(t.drop_first() =~= s.drop_first());
        } else {
            assert(t[0] == s[0]);
            if s[0].key@ != key {
                assert(t.drop_first() =~= s.drop_first().update(i - 1, e));
                assert(forall|j: int|
                    0 <= j < s.drop_first().len() ==> #[trigger] s.drop_first()[j] == s[j + 1]);
                Self::lemma_stored_update_other(s.drop_first(), i - 1, e, key);
            }
        }
    }

    /// Appending a binding for one key leaves every other key's binding as
    /// it was.
    proof fn lemma_stored_push_other(s: Seq<KvEntry>, e: KvEntry, key: Seq<char>)
        requires
            key != e.key@,
        ensures
            stored_version(s.push(e), key) == stored_version(s, key),
            stored_value(s.push(e), key) == stored_value(s, key),
        decreases s.len(),
    {
        let t = s.push(e);
        if s.len() == 0 {
            assert(t[0] == e);
            assert(t.drop_first() =~= Seq::<KvEntry>::empty());
            assert(stored_version(t, key) == stored_version(t.drop_first(), key));
            assert(stored_value(t, key) == stored_value(t.drop_first(), key));
        } else {
            assert(t[0] == s[0]);
            if s[0].key@ == key {
                assert(stored_version(t, key) == Some(t[0].version));
                assert(stored_value(t, key) == Some(t[0].value@));
            } else {
                assert(t.drop_first() =~= s.drop_first().push(e));
                Self::lemma_stored_push_other(s.drop_first(), e, key);
                assert(stored_version(t, key) == stored_version(t.drop_first(), key));
                assert(stored_value(t, key) == stored_value(t.drop_first(), key));
            }
        }
    }

    /// Read one key: its value and version, or `KeyNotFound`.
    pub fn get(&self, key: &str) -> (r: Result<(String, u64), StorageError>)
        ensures
            match stored_version(self.view_entries(), key@) {
                Some(ver) => r matches Ok((v, got)) && got == ver && Some(v@) == stored_value(
                    self.view_entries(),
                    key@,
                ),
                None => r matches Err(StorageError::KeyNotFound(k)) && k@ == key@,
            },
    {
        match self.find(key) {
            Some(i) => {
                proof {
                    Self::lemma_stored_at(self.entries@, key@, i as int);
                }
                Ok((self.entries[i].value.clone(), self.entries[i].version))
            },
            None => {
                proof {
                    Self::lemma_stored_absent(self.entries@, key@);
                }
                Err(StorageError::KeyNotFound(key.to_owned()))
            },
        }
    }

    /// Write one key under the optimistic-concurrency rule: exactly
    /// `put_outcome` decides, and on success the binding is created with
    /// version one or replaced with the bumped version, leaving every other
    /// binding alone.
    pub fn put(&mut self, key: &str, value: String, expected_version: u64) -> (r: Result<
        u64,
        StorageError,
    >)
        requires
            expected_version < u64::MAX,
        ensures
            match put_outcome(stored_version(old(self).view_entries(), key@), expected_version) {
                PutOutcome::Accepted(v) => {
                    &&& r matches Ok(got) && got == v
                    &&& stored_version(final(self).view_entries(), key@) == Some(v)
                    &&& stored_value(final(self).view_entries(), key@) == Some(value@)
                    &&& forall|k: Seq<char>|
                        k != key@ ==> #[trigger] stored_version(final(self).view_entries(), k)
                            == stored_version(old(self).view_entries(), k) && stored_value(
                            final(self).view_entries(),
                            k,
                        ) == stored_value(old(self).view_entries(), k)
                },
                PutOutcome::MissingKey => r matches Err(StorageError::KeyNotFound(k)) && k@ == key@
                    && final(self).view_entries() == old(self).view_entries(),
                PutOutcome::ExistingKey => r matches Err(StorageError::KeyAlreadyExists(k)) && k@
                    == key@ && final(self).view_entries() == old(self).view_entries(),
                PutOutcome::WrongVersion(actual_stored) => r matches Err(
                    StorageError::VersionMismatch { expected, actual },
                ) && expected == expected_version && actual == actual_stored
                    && final(self).view_entries() == old(self).view_entries(),
            },
    {
        let found = self.find(key);
        let existing_version = match found {
            Some(i) => {
                proof {
                    Self::lemma_stored_at(self.entries@, key@, i as int);
                }
                Some(self.entries[i].version)
            },
            None => {
                proof {
                    Self::lemma_stored_absent(self.entries@, key@);
                }
                None
            },
        };
        let decision = decide_put(key, existing_version, expected_version);
        match decision {
            Ok(new_version) => {
                match found {
                    Some(i) => {
                        let ghost before = self.entries@;
                        let replacement = KvEntry { key: key.to_owned(), value, version: new_version };
                        proof {
                            assert forall|k: Seq<char>| k != key@ implies stored_version(
                                before.update(i as int, replacement),
                                k,
                            ) == stored_version(before, k) && stored_value(
                                before.update(i as int, replacement),
                                k,
                            ) == stored_value(before, k) by {
                                Self::lemma_stored_update_other(before, i as int, replacement, k);
                            }
                        }
                        self.entries.set(i, replacement);
                        proof {
                            Self::lemma_stored_at(self.entries@, key@, i as int);
                        }
                    },
                    None => {
                        let ghost before = self.entries@;
                        let addition = KvEntry { key: key.to_owned(), value, version: new_version };
                        proof {
                            assert forall|k: Seq<char>| k != key@ implies stored_version(
                                before.push(addition),
                                k,
                            ) == stored_version(before, k) && stored_value(
                                before.push(addition),
                                k,
                            ) == stored_value(before, k) by {
                                Self::lemma_stored_push_other(before, addition, k);
                            }
                        }
                        self.entries.push(addition);
                        proof {
                            assert(self.entries@.drop_last() =~= before);
                            assert(self.entries@ =~= before.push(addition));
                            Self::lemma_stored_at(
                                self.entries@,
                                key@,
                                self.entries@.len() - 1,
                            );
                        }
                    },
                }
                Ok(new_version)
            },
            Err(e) => Err(e),
        }
    }
}

} // verus!
