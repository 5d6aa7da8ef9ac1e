//! Configuration data: an ordered key/value store with a one-way
//! mutable-to-frozen lifecycle, guarded against mutation while it is read.
use vstd::prelude::*;

use crate::text::text_eq;

verus! {

/// A value held by configuration data, as the renderers read it.
pub enum ConfigValue {
    /// A string; `repr` is its quoted form in the embedded dialect.
    Text { text: String, repr: String },
    Integer(i64),
    Boolean(bool),
    /// A value of any other type; `text` is its string form.
    Other { text: String },
}

/// A key with its value and optional description.
pub struct ConfigEntry {
    pub key: String,
    pub value: ConfigValue,
    pub description: Option<String>,
}

/// The lifecycle of configuration data: it can only go from `Mutable` to
/// `Frozen`.
#[derive(Clone, Copy, PartialEq, Eq, Structural)]
pub enum Lifecycle {
    Mutable,
    Frozen,
}

/// The outstanding borrows of configuration data.
#[derive(Clone, Copy, PartialEq, Eq, Structural)]
pub enum BorrowState {
    Free,
    /// This many readers hold it.
    Shared(usize),
    /// A writer holds it.
    Exclusive,
}

/// Why an operation on configuration data was refused.
#[derive(Clone, Copy, Debug, PartialEq, Eq, Structural)]
pub enum ConfigError {
    /// A write was attempted while a borrow was outstanding, or a read while
    /// a write was.
    MutationDuringIteration,
    /// A write was attempted on frozen data.
    CannotMutateImmutableValue,
    /// This instance does not support freezing.
    FreezeUnsupported,
    /// Freezing was attempted while a borrow was outstanding.
    FreezeWhileBorrowed,
    /// The number of readers reached its limit.
    TooManyReaders,
}

/// Keys are unique.
pub open spec fn keys_unique(es: Seq<ConfigEntry>) -> bool {
    forall|i: int, j: int| 0 <= i < es.len() && 0 <= j < es.len() && i != j ==> es[i].key@ != es[j].key@
}

/// `k` is a key of the entries.
pub open spec fn has_key(es: Seq<ConfigEntry>, k: Seq<char>) -> bool {
    exists|i: int| 0 <= i < es.len() && es[i].key@ == k
}

/// The position of key `k`, when present.
pub open spec fn key_index(es: Seq<ConfigEntry>, k: Seq<char>) -> int {
    choose|i: int| 0 <= i < es.len() && es[i].key@ == k
}

/// The entries after `e` is set: an entry with its key is replaced where it
/// stands, otherwise `e` goes last.
pub open spec fn with_entry(es: Seq<ConfigEntry>, e: ConfigEntry) -> Seq<ConfigEntry> {
    if has_key(es, e.key@) {
        es.update(key_index(es, e.key@), e)
    } else {
        es.push(e)
    }
}

/// Configuration data of one script.
pub struct ConfigurationData {
    entries: Vec<ConfigEntry>,
    lifecycle: Lifecycle,
    borrow: BorrowState,
    freeze_supported: bool,
}

impl ConfigurationData {
    /// The entries, in insertion order.
    pub closed spec fn entries(&self) -> Seq<ConfigEntry> {
        self.entries@
    }

    pub closed spec fn lifecycle(&self) -> Lifecycle {
        self.lifecycle
    }

    pub closed spec fn borrow_state(&self) -> BorrowState {
        self.borrow
    }

    /// Whether this instance may be frozen.
    pub closed spec fn freeze_supported(&self) -> bool {
        self.freeze_supported
    }

    /// Keys are unique, and a shared borrow has at least one reader.
    pub open spec fn wf(&self) -> bool {
        &&& keys_unique(self.entries())
        &&& (self.borrow_state() matches BorrowState::Shared(n) ==> n > 0)
    }

    /// Empty, mutable, unborrowed data that cannot be frozen.
    pub fn new() -> (r: ConfigurationData)
        ensures
            r.wf(),
            r.entries() == Seq::<ConfigEntry>::empty(),
            r.lifecycle() == Lifecycle::Mutable,
            r.borrow_state() == BorrowState::Free,
            !r.freeze_supported(),
    {
        Self::with_freeze_support(false)
    }

    /// Empty, mutable, unborrowed data, which may be frozen when
    /// `freeze_supported`.
    pub fn with_freeze_support(freeze_supported: bool) -> (r: ConfigurationData)
        ensures
            r.wf(),
            r.entries() == Seq::<ConfigEntry>::empty(),
            r.lifecycle() == Lifecycle::Mutable,
            r.borrow_state() == BorrowState::Free,
            r.freeze_supported() == freeze_supported,
    {
        ConfigurationData {
            entries: Vec::new(),
            lifecycle: Lifecycle::Mutable,
            borrow: BorrowState::Free,
            freeze_supported,
        }
    }

    /// The number of entries.
    pub fn len(&self) -> (r: usize)
        ensures
            r == self.entries().len(),
    {
        self.entries.len()
    }

    /// The entry at position `i` in insertion order.
    pub fn entry_at(&self, i: usize) -> (r: &ConfigEntry)
        requires
            i < self.entries().len(),
        ensures
            *r == self.entries()[i as int],
    {
        &self.entries[i]
    }

    /// The position of `key`, when it is set.
    pub fn find(&self, key: &str) -> (r: Option<usize>)
        requires
            self.wf(),
        ensures
            match r {
                Some(i) => i < self.entries().len() && self.entries()[i as int].key@ == key@ && i
                    == key_index(self.entries(), key@),
                None => !has_key(self.entries(), key@),
            },
    {
        let mut i: usize = 0;
        while i < self.entries.len()
            invariant
                i <= self.entries@.len(),
                keys_unique(self.entries@),
                forall|j: int| 0 <= j < i ==> self.entries@[j].key@ != key@,
            decreases self.entries.len() - i,
        {
            if text_eq(self.entries[i].key.as_str(), key) {
                proof {
                    let k = key_index(self.entries@, key@);
                    assert(0 <= k < self.entries@.len() && self.entries@[k].key@ == key@);
                }
                return Some(i);
            }
            i = i + 1;
        }
        None
    }

    /// The value and description set for `key`, or `None` when it is not set.
    pub fn get(&self, key: &str) -> (r: Option<&ConfigEntry>)
        requires
            self.wf(),
        ensures
            match r {
                Some(e) => has_key(self.entries(), key@) && *e == self.entries()[key_index(
                    self.entries(),
                    key@,
                )],
                None => !has_key(self.entries(), key@),
            },
    {
        match self.find(key) {
            Some(i) => Some(&self.entries[i]),
            None => None,
        }
    }

    /// Sets `key` to `value`, with an optional description: an existing key
    /// keeps its place, a new one goes last. Frozen data refuses with
    /// `CannotMutateImmutableValue`; data with a borrow outstanding refuses
    /// with `MutationDuringIteration`.
    pub fn set(&mut self, key: String, value: ConfigValue, description: Option<String>) -> (r: Result<(), ConfigError>)
        requires
            old(self).wf(),
        ensures
            final(self).wf(),
            final(self).lifecycle() == old(self).lifecycle(),
            final(self).borrow_state() == old(self).borrow_state(),
            final(self).freeze_supported() == old(self).freeze_supported(),
            old(self).lifecycle() == Lifecycle::Frozen ==> r == Err::<(), ConfigError>(
                ConfigError::CannotMutateImmutableValue,
            ),
            old(self).lifecycle() == Lifecycle::Mutable && old(self).borrow_state() != BorrowState::Free
                ==> r == Err::<(), ConfigError>(ConfigError::MutationDuringIteration),
            old(self).lifecycle() == Lifecycle::Mutable && old(self).borrow_state() == BorrowState::Free
                ==> r is Ok,
            r is Ok ==> final(self).entries() == with_entry(
                old(self).entries(),
                ConfigEntry { key, value, description },
            ),
            r is Err ==> final(self).entries() == old(self).entries(),
    {
        if self.lifecycle == Lifecycle::Frozen {
            return Err(ConfigError::CannotMutateImmutableValue);
        }
        if self.borrow != BorrowState::Free {
            return Err(ConfigError::MutationDuringIteration);
        }
        let found = self.find(key.as_str());
        let ghost e = ConfigEntry { key, value, description };
        match found {
            Some(i) => {
                self.entries.set(i, ConfigEntry { key, value, description });
                assert forall|a: int, b: int|
                    0 <= a < self.entries@.len() && 0 <= b < self.entries@.len() && a != b implies self.entries@[a].key@
                    != self.entries@[b].key@ by {
                    if a != i && b != i {
                        assert(self.entries@[a] == old(self).entries@[a]);
                        assert(self.entries@[b] == old(self).entries@[b]);
                    } else if a == i {
                        assert(self.entries@[b] == old(self).entries@[b]);
                    } else {
                        assert(self.entries@[a] == old(self).entries@[a]);
                    }
                }
            },
            None => {
                self.entries.push(ConfigEntry { key, value, description });
                assert forall|a: int, b: int|
                    0 <= a < self.entries@.len() && 0 <= b < self.entries@.len() && a != b implies self.entries@[a].key@
                    != self.entries@[b].key@ by {
                    let n = old(self).entries@.len() as int;
                    if a < n && b < n {
                        assert(self.entries@[a] == old(self).entries@[a]);
                        assert(self.entries@[b] == old(self).entries@[b]);
                    } else if a == n {
                        assert(self.entries@[b] == old(self).entries@[b]);
                    } else {
                        assert(self.entries@[a] == old(self).entries@[a]);
                    }
                }
            },
        }
        assert(self.entries@ == with_entry(old(self).entries@, e));
        Ok(())
    }

    /// Sets `key` to the integer 1 when `flag` holds and 0 otherwise.
    pub fn set10(&mut self, key: String, flag: bool, description: Option<String>) -> (r: Result<(), ConfigError>)
        requires
            old(self).wf(),
        ensures
            final(self).wf(),
            final(self).lifecycle() == old(self).lifecycle(),
            final(self).borrow_state() == old(self).borrow_state(),
            final(self).freeze_supported() == old(self).freeze_supported(),
            old(self).lifecycle() == Lifecycle::Frozen ==> r == Err::<(), ConfigError>(
                ConfigError::CannotMutateImmutableValue,
            ),
            old(self).lifecycle() == Lifecycle::Mutable && old(self).borrow_state() != BorrowState::Free
                ==> r == Err::<(), ConfigError>(ConfigError::MutationDuringIteration),
            old(self).lifecycle() == Lifecycle::Mutable && old(self).borrow_state() == BorrowState::Free
                ==> r is Ok,
            r is Ok ==> final(self).entries() == with_entry(
                old(self).entries(),
                ConfigEntry {
                    key,
                    value: ConfigValue::Integer(if flag {
                        1
                    } else {
                        0
                    }),
                    description,
                },
            ),
            r is Err ==> final(self).entries() == old(self).entries(),
    {
        let n: i64 = if flag {
            1
        } else {
            0
        };
        self.set(key, ConfigValue::Integer(n), description)
    }

    /// Takes a shared borrow for reading. Refused with
    /// `MutationDuringIteration` while a writer holds the data.
    pub fn begin_read(&mut self) -> (r: Result<(), ConfigError>)
        requires
            old(self).wf(),
        ensures
            final(self).wf(),
            final(self).entries() == old(self).entries(),
            final(self).lifecycle() == old(self).lifecycle(),
            final(self).freeze_supported() == old(self).freeze_supported(),
            match old(self).borrow_state() {
                BorrowState::Free => r is Ok && final(self).borrow_state() == BorrowState::Shared(1),
                BorrowState::Shared(n) => if n < usize::MAX {
                    r is Ok && final(self).borrow_state() == BorrowState::Shared((n + 1) as usize)
                } else {
                    r == Err::<(), ConfigError>(ConfigError::TooManyReaders) && final(self).borrow_state()
                        == old(self).borrow_state()
                },
                BorrowState::Exclusive => r == Err::<(), ConfigError>(
                    ConfigError::MutationDuringIteration,
                ) && final(self).borrow_state() == old(self).borrow_state(),
            },
    {
        match self.borrow {
            BorrowState::Free => {
                self.borrow = BorrowState::Shared(1);
                Ok(())
            },
            BorrowState::Shared(n) => if n < usize::MAX {
                self.borrow = BorrowState::Shared(n + 1);
                Ok(())
            } else {
                Err(ConfigError::TooManyReaders)
            },
            BorrowState::Exclusive => Err(ConfigError::MutationDuringIteration),
        }
    }

    /// Gives back a shared borrow; without one outstanding nothing changes.
    pub fn end_read(&mut self)
        requires
            old(self).wf(),
        ensures
            final(self).wf(),
            final(self).entries() == old(self).entries(),
            final(self).lifecycle() == old(self).lifecycle(),
            final(self).freeze_supported() == old(self).freeze_supported(),
            final(self).borrow_state() == match old(self).borrow_state() {
                BorrowState::Shared(n) => if n == 1 {
                    BorrowState::Free
                } else {
                    BorrowState::Shared((n - 1) as usize)
                },
                other => other,
            },
    {
        match self.borrow {
            BorrowState::Shared(n) => if n == 1 {
                self.borrow = BorrowState::Free;
            } else {
                self.borrow = BorrowState::Shared(n - 1);
            },
            _ => {},
        }
    }

    /// Takes the exclusive borrow for writing. Frozen data refuses with
    /// `CannotMutateImmutableValue`; data with any borrow outstanding refuses
    /// with `MutationDuringIteration`.
    pub fn begin_write(&mut self) -> (r: Result<(), ConfigError>)
        requires
            old(self).wf(),
        ensures
            final(self).wf(),
            final(self).entries() == old(self).entries(),
            final(self).lifecycle() == old(self).lifecycle(),
            final(self).freeze_supported() == old(self).freeze_supported(),
            old(self).lifecycle() == Lifecycle::Frozen ==> r == Err::<(), ConfigError>(
                ConfigError::CannotMutateImmutableValue,
            ) && final(self).borrow_state() == old(self).borrow_state(),
            old(self).lifecycle() == Lifecycle::Mutable && old(self).borrow_state() != BorrowState::Free
                ==> r == Err::<(), ConfigError>(ConfigError::MutationDuringIteration)
                && final(self).borrow_state() == old(self).borrow_state(),
            old(self).lifecycle() == Lifecycle::Mutable && old(self).borrow_state() == BorrowState::Free
                ==> r is Ok && final(self).borrow_state() == BorrowState::Exclusive,
    {
        if self.lifecycle == Lifecycle::Frozen {
            return Err(ConfigError::CannotMutateImmutableValue);
        }
        if self.borrow != BorrowState::Free {
            return Err(ConfigError::MutationDuringIteration);
        }
        self.borrow = BorrowState::Exclusive;
        Ok(())
    }

    /// Gives back the exclusive borrow; without it nothing changes.
    pub fn end_write(&mut self)
        requires
            old(self).wf(),
        ensures
            final(self).wf(),
            final(self).entries() == old(self).entries(),
            final(self).lifecycle() == old(self).lifecycle(),
            final(self).freeze_supported() == old(self).freeze_supported(),
            final(self).borrow_state() == if old(self).borrow_state() == BorrowState::Exclusive {
                BorrowState::Free
            } else {
                old(self).borrow_state()
            },
    {
        if self.borrow == BorrowState::Exclusive {
            self.borrow = BorrowState::Free;
        }
    }

    /// Freezes the data. Refused with `FreezeUnsupported` where the instance
    /// does not support freezing, and with `FreezeWhileBorrowed` while any
    /// borrow is outstanding; frozen data stays frozen.
    pub fn freeze(&mut self) -> (r: Result<(), ConfigError>)
        requires
            old(self).wf(),
        ensures
            final(self).wf(),
            final(self).entries() == old(self).entries(),
            final(self).borrow_state() == old(self).borrow_state(),
            final(self).freeze_supported() == old(self).freeze_supported(),
            !old(self).freeze_supported() ==> r == Err::<(), ConfigError>(ConfigError::FreezeUnsupported)
                && final(self).lifecycle() == old(self).lifecycle(),
            old(self).freeze_supported() && old(self).borrow_state() != BorrowState::Free ==> r
                == Err::<(), ConfigError>(ConfigError::FreezeWhileBorrowed) && final(self).lifecycle()
                == old(self).lifecycle(),
            old(self).freeze_supported() && old(self).borrow_state() == BorrowState::Free ==> r is Ok
                && final(self).lifecycle() == Lifecycle::Frozen,
    {
        if !self.freeze_supported {
            return Err(ConfigError::FreezeUnsupported);
        }
        if self.borrow != BorrowState::Free {
            return Err(ConfigError::FreezeWhileBorrowed);
        }
        self.lifecycle = Lifecycle::Frozen;
        Ok(())
    }

    /// Whether the data is frozen.
    pub fn is_frozen(&self) -> (r: bool)
        ensures
            r == (self.lifecycle() == Lifecycle::Frozen),
    {
        self.lifecycle == Lifecycle::Frozen
    }
}

} // verus!
