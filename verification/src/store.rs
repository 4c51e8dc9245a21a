//! The key-value store the migration rewrites: a mapping from account
//! identifier to a record and its deposit.  The migration only ever reads
//! and overwrites entries in place; it never adds or removes keys.

use vstd::prelude::*;
use crate::record::{Record, RecordView, record_wf};

verus! {

/// Mathematical view of one store entry.
#[verifier::ext_equal]
pub ghost struct EntryView {
    pub key: u64,
    pub record: RecordView,
    pub deposit: u64,
}

/// One store entry: an account key, its nickname record, and the deposit
/// held for it.
pub struct Entry {
    pub key: u64,
    pub record: Record,
    pub deposit: u64,
}

impl View for Entry {
    type V = EntryView;

    open spec fn view(&self) -> EntryView {
        EntryView { key: self.key, record: self.record@, deposit: self.deposit }
    }
}

/// Keys are unique: no two entries share an account identifier.
pub open spec fn keys_unique(s: Seq<EntryView>) -> bool {
    forall|i: int, j: int| 0 <= i < j < s.len() ==> s[i].key != s[j].key
}

/// Every record respects the capacity bound, and keys are unique.
pub open spec fn entries_wf(s: Seq<EntryView>, max: int) -> bool {
    &&& keys_unique(s)
    &&& forall|i: int| 0 <= i < s.len() ==> record_wf(#[trigger] s[i].record, max)
}

/// The store: every entry, together with the configured capacity bound for
/// name segments.  Legacy data is assumed to already satisfy the bound.
pub struct Store {
    pub entries: Vec<Entry>,
    pub max_len: usize,
}

impl View for Store {
    type V = Seq<EntryView>;

    open spec fn view(&self) -> Seq<EntryView> {
        self.entries@.map_values(|e: Entry| e@)
    }
}

impl Store {
    /// The store's well-formedness: unique keys, records within the bound.
    pub open spec fn wf(&self) -> bool {
        entries_wf(self@, self.max_len as int)
    }

    /// An empty store with the given capacity bound for name segments.
    pub fn new(max_len: usize) -> (s: Store)
        ensures
            s@ == Seq::<EntryView>::empty(),
            s.max_len == max_len,
            s.wf(),
    {
        let s = Store { entries: Vec::new(), max_len };
        proof {
            assert(s@ =~= Seq::<EntryView>::empty());
        }
        s
    }

    /// How many entries the store holds.
    pub fn count(&self) -> (c: u64)
        ensures
            c == self@.len(),
    {
        self.entries.len() as u64
    }

    /// The entry at a position, for inspection.
    pub fn entry_at(&self, i: usize) -> (e: &Entry)
        requires
            i < self@.len(),
        ensures
            e@ == self@[i as int],
    {
        &self.entries[i]
    }

    /// Look up the entry stored under a key, if any.
    pub fn get(&self, key: u64) -> (r: Option<&Entry>)
        ensures
            match r {
                Some(e) => exists|i: int|
                    0 <= i < self@.len() && self@[i].key == key && e@ == self@[i],
                None => forall|i: int| 0 <= i < self@.len() ==> self@[i].key != key,
            },
    {
        let n = self.entries.len();
        let mut i: usize = 0;
        while i < n
            invariant
                i <= n,
                n == self@.len(),
                forall|j: int| 0 <= j < i ==> self@[j].key != key,
            decreases n - i,
        {
            if self.entries[i].key == key {
                let e = &self.entries[i];
                proof {
                    let w = i as int;
                    assert(0 <= w < self@.len() && self@[w].key == key && e@ == self@[w]);
                }
                return Some(e);
            }
            i = i + 1;
        }
        None
    }

    /// Add an entry under a key not yet present.  Only record creation
    /// (outside the migration's scope) adds keys; the migration itself
    /// never does.
    pub fn insert(&mut self, key: u64, record: Record, deposit: u64)
        requires
            forall|i: int| 0 <= i < old(self)@.len() ==> old(self)@[i].key != key,
        ensures
            final(self)@ == old(self)@.push(
                EntryView { key, record: record@, deposit },
            ),
            final(self).max_len == old(self).max_len,
    {
        let ghost prev = self@;
        let e = Entry { key, record, deposit };
        let ghost ev = e@;
        self.entries.push(e);
        proof {
            assert(self@ =~= prev.push(ev));
        }
    }
}

} // verus!
