//! Event context: a bounded key-value store threading intermediate state
//! between the events of a chain.
//!
//! Keys are short strings (at most `MAX_KEY_LEN` characters); values are
//! tagged scalars.  The store holds at most `MAX_ENTRIES` entries; an
//! insertion that would exceed either bound silently leaves the context
//! unchanged, and an overwrite of an existing key replaces its value.  The
//! abstract model of a context is a finite map from key strings to values.

use vstd::prelude::*;
use vstd::string::StrSliceExecFns;

verus! {

/// Maximum number of context entries
pub const MAX_ENTRIES: usize = 32;

/// Maximum key length, in characters
pub const MAX_KEY_LEN: usize = 32;

/// Typed context values.
///
/// The kernel has no dynamic typing, so the context stores an enum of the
/// scalar kinds its events exchange.  Pointer-valued entries carry the
/// address as a plain word.
#[derive(Clone, Copy, Debug, PartialEq, Eq, Structural)]
pub enum ContextValue {
    Bool(bool),
    U8(u8),
    U16(u16),
    U32(u32),
    U64(u64),
    I8(i8),
    I16(i16),
    I32(i32),
    I64(i64),
    Usize(usize),
    Isize(isize),
    Ptr(usize),
    MutPtr(usize),
}

/// One stored binding.
struct ContextEntry {
    key: String,
    value: ContextValue,
}

/// Compare two string slices character by character.
pub fn str_eq(a: &str, b: &str) -> (r: bool)
    ensures
        r == (a@ == b@),
{
    let alen = a.unicode_len();
    let blen = b.unicode_len();
    if alen != blen {
        return false;
    }
    let mut i: usize = 0;
    while i < alen
        invariant
            i <= alen,
            alen == a@.len(),
            blen == b@.len(),
            alen == blen,
            forall|j: int| 0 <= j < i ==> a@[j] == b@[j],
        decreases alen - i,
    {
        if a.get_char(i) != b.get_char(i) {
            return false;
        }
        i += 1;
    }
    proof {
        assert(a@ =~= b@);
    }
    true
}

/// The map denoted by a sequence of bindings: later bindings win.
pub open spec fn entries_map(s: Seq<(Seq<char>, ContextValue)>) -> Map<Seq<char>, ContextValue>
    decreases s.len(),
{
    if s.len() == 0 {
        Map::empty()
    } else {
        entries_map(s.drop_last()).insert(s.last().0, s.last().1)
    }
}

/// Pairwise-distinct keys in a binding sequence.
pub open spec fn keys_distinct(s: Seq<(Seq<char>, ContextValue)>) -> bool {
    forall|i: int, j: int| 0 <= i < j < s.len() ==> s[i].0 != s[j].0
}

/// With distinct keys, `entries_map` is the evident finite map: its domain
/// has one element per binding and each binding's key maps to its value.
pub proof fn lemma_entries_map(s: Seq<(Seq<char>, ContextValue)>)
    requires
        keys_distinct(s),
    ensures
        entries_map(s).dom().finite(),
        entries_map(s).dom().len() == s.len(),
        forall|k: Seq<char>|
            entries_map(s).contains_key(k) <==> (exists|i: int| 0 <= i < s.len() && s[i].0 == k),
        forall|i: int| 0 <= i < s.len() ==> entries_map(s)[s[i].0] == s[i].1,
    decreases s.len(),
{
    if s.len() > 0 {
        let dl = s.drop_last();
        lemma_entries_map(dl);
        assert(!entries_map(dl).contains_key(s.last().0)) by {
            if entries_map(dl).contains_key(s.last().0) {
                let i = choose|i: int| 0 <= i < dl.len() && dl[i].0 == s.last().0;
                assert(s[i].0 == s[s.len() - 1].0);
            }
        }
        assert forall|k: Seq<char>|
            entries_map(s).contains_key(k) <==> (exists|i: int|
                0 <= i < s.len() && s[i].0 == k) by {
            if entries_map(s).contains_key(k) {
                if k == s.last().0 {
                    assert(s[s.len() - 1].0 == k);
                } else {
                    let i = choose|i: int| 0 <= i < dl.len() && dl[i].0 == k;
                    assert(s[i].0 == k);
                }
            }
            if exists|i: int| 0 <= i < s.len() && s[i].0 == k {
                let i = choose|i: int| 0 <= i < s.len() && s[i].0 == k;
                if i < s.len() - 1 {
                    assert(dl[i].0 == k);
                    assert(entries_map(dl).contains_key(k));
                }
            }
        }
        assert forall|i: int| 0 <= i < s.len() implies entries_map(s)[s[i].0] == s[i].1 by {
            if i < s.len() - 1 {
                assert(s[i].0 != s.last().0);
                assert(entries_map(s)[s[i].0] == entries_map(dl)[dl[i].0]);
            }
        }
    }
}

/// Overwriting the value of binding `i` updates the map at its key.
pub proof fn lemma_entries_map_update(s: Seq<(Seq<char>, ContextValue)>, i: int, v: ContextValue)
    requires
        keys_distinct(s),
        0 <= i < s.len(),
    ensures
        entries_map(s.update(i, (s[i].0, v))) == entries_map(s).insert(s[i].0, v),
    decreases s.len(),
{
    let t = s.update(i, (s[i].0, v));
    if i == s.len() - 1 {
        assert(t.drop_last() =~= s.drop_last());
        assert(entries_map(t) =~= entries_map(s).insert(s[i].0, v));
    } else {
        assert(t.drop_last() =~= s.drop_last().update(i, (s[i].0, v)));
        lemma_entries_map_update(s.drop_last(), i, v);
        assert(s[i].0 != s.last().0);
        assert(entries_map(t) =~= entries_map(s).insert(s[i].0, v));
    }
}

/// Removing binding `i` removes its key from the map.
pub proof fn lemma_entries_map_remove(s: Seq<(Seq<char>, ContextValue)>, i: int)
    requires
        keys_distinct(s),
        0 <= i < s.len(),
    ensures
        entries_map(s.remove(i)) == entries_map(s).remove(s[i].0),
    decreases s.len(),
{
    let t = s.remove(i);
    if i == s.len() - 1 {
        assert(t =~= s.drop_last());
        lemma_entries_map(s.drop_last());
        assert(!entries_map(s.drop_last()).contains_key(s[i].0)) by {
            if entries_map(s.drop_last()).contains_key(s[i].0) {
                let j = choose|j: int|
                    0 <= j < s.drop_last().len() && s.drop_last()[j].0 == s[i].0;
                assert(s[j].0 == s[i].0);
            }
        }
        assert(entries_map(t) =~= entries_map(s).remove(s[i].0));
    } else {
        assert(t.drop_last() =~= s.drop_last().remove(i));
        lemma_entries_map_remove(s.drop_last(), i);
        assert(s[i].0 != s.last().0);
        assert(t.last() == s.last());
        assert(entries_map(t) =~= entries_map(s).remove(s[i].0));
    }
}

/// The abstract effect of storing `v` under `k`: overwrite an existing key;
/// otherwise insert while both bounds hold; otherwise leave the map alone.
pub open spec fn ctx_set(m: Map<Seq<char>, ContextValue>, k: Seq<char>, v: ContextValue) -> Map<
    Seq<char>,
    ContextValue,
> {
    if m.contains_key(k) {
        m.insert(k, v)
    } else if k.len() <= MAX_KEY_LEN && m.dom().len() < MAX_ENTRIES {
        m.insert(k, v)
    } else {
        m
    }
}

/// The abstract effect of a lookup.
pub open spec fn ctx_get(m: Map<Seq<char>, ContextValue>, k: Seq<char>) -> Option<ContextValue> {
    if m.contains_key(k) {
        Some(m[k])
    } else {
        None
    }
}

/// Event context: carries data through an event chain.
pub struct EventContext {
    entries: Vec<ContextEntry>,
}

impl EventContext {
    /// The binding sequence the entries denote.
    pub closed spec fn bindings(&self) -> Seq<(Seq<char>, ContextValue)> {
        self.entries@.map_values(|e: ContextEntry| (e.key@, e.value))
    }

    /// The context as a finite map.
    pub closed spec fn view(&self) -> Map<Seq<char>, ContextValue> {
        entries_map(self.bindings())
    }

    /// Validity: bounded, with distinct bounded keys.
    pub closed spec fn wf(&self) -> bool {
        &&& self.entries.len() <= MAX_ENTRIES
        &&& keys_distinct(self.bindings())
        &&& forall|i: int| 0 <= i < self.entries.len() ==> (#[trigger] self.bindings()[i]).0.len()
            <= MAX_KEY_LEN
    }

    /// The standing facts every well-formed context satisfies.
    pub proof fn lemma_view(&self)
        requires
            self.wf(),
        ensures
            self@.dom().finite(),
            self@.dom().len() <= MAX_ENTRIES,
            forall|k: Seq<char>| self@.contains_key(k) ==> k.len() <= MAX_KEY_LEN,
    {
        lemma_entries_map(self.bindings());
        assert forall|k: Seq<char>| self@.contains_key(k) implies k.len() <= MAX_KEY_LEN by {
            let i = choose|i: int| 0 <= i < self.bindings().len() && self.bindings()[i].0 == k;
        }
    }

    /// Create a new empty context
    pub fn new() -> (r: EventContext)
        ensures
            r.wf(),
            r@ == Map::<Seq<char>, ContextValue>::empty(),
    {
        EventContext { entries: Vec::new() }
    }

    /// Find the entry index holding `key`, if any.
    fn find_key(&self, key: &str) -> (r: Option<usize>)
        requires
            self.wf(),
        ensures
            match r {
                Some(i) => i < self.entries.len() && self.bindings()[i as int].0 == key@,
                None => forall|i: int|
                    0 <= i < self.entries.len() ==> (#[trigger] self.bindings()[i]).0 != key@,
            },
    {
        let n = self.entries.len();
        let mut i: usize = 0;
        while i < n
            invariant
                i <= n,
                n == self.entries.len(),
                forall|j: int| 0 <= j < i ==> (#[trigger] self.bindings()[j]).0 != key@,
            decreases n - i,
        {
            if str_eq(self.entries[i].key.as_str(), key) {
                return Some(i);
            }
            i += 1;
        }
        None
    }

    /// Store `value` under `key`.
    pub fn set_value(&mut self, key: &str, value: ContextValue)
        requires
            old(self).wf(),
        ensures
            final(self).wf(),
            final(self)@ == ctx_set(old(self)@, key@, value),
    {
        proof {
            lemma_entries_map(self.bindings());
        }
        match self.find_key(key) {
            Some(i) => {
                let entry = ContextEntry { key: self.entries[i].key.clone(), value };
                proof {
                    lemma_entries_map_update(self.bindings(), i as int, value);
                }
                self.entries.set(i, entry);
                proof {
                    assert(self.bindings() =~= old(self).bindings().update(
                        i as int,
                        (old(self).bindings()[i as int].0, value),
                    ));
                    assert(old(self)@.contains_key(key@));
                }
            },
            None => {
                proof {
                    assert(!old(self)@.contains_key(key@));
                }
                if key.unicode_len() <= MAX_KEY_LEN && self.entries.len() < MAX_ENTRIES {
                    let entry = ContextEntry { key: key.to_owned(), value };
                    self.entries.push(entry);
                    proof {
                        assert(self.bindings() =~= old(self).bindings().push((key@, value)));
                        assert(self.bindings().drop_last() =~= old(self).bindings());
                        assert(old(self)@.dom().len() == old(self).bindings().len());
                    }
                }
            },
        }
    }

    /// Look up the value stored under `key`.
    pub fn get_value(&self, key: &str) -> (r: Option<ContextValue>)
        requires
            self.wf(),
        ensures
            r == ctx_get(self@, key@),
    {
        proof {
            lemma_entries_map(self.bindings());
        }
        match self.find_key(key) {
            Some(i) => Some(self.entries[i].value),
            None => None,
        }
    }

    /// Set a boolean value
    pub fn set_bool(&mut self, key: &str, value: bool)
        requires
            old(self).wf(),
        ensures
            final(self).wf(),
            final(self)@ == ctx_set(old(self)@, key@, ContextValue::Bool(value)),
    {
        self.set_value(key, ContextValue::Bool(value));
    }

    /// Get a boolean value
    pub fn get_bool(&self, key: &str) -> (r: Option<bool>)
        requires
            self.wf(),
        ensures
            r == spec_get_bool(self@, key@),
    {
        match self.get_value(key) {
            Some(ContextValue::Bool(v)) => Some(v),
            _ => None,
        }
    }

    /// Set a u32 value
    pub fn set_u32(&mut self, key: &str, value: u32)
        requires
            old(self).wf(),
        ensures
            final(self).wf(),
            final(self)@ == ctx_set(old(self)@, key@, ContextValue::U32(value)),
    {
        self.set_value(key, ContextValue::U32(value));
    }

    /// Get a u32 value
    pub fn get_u32(&self, key: &str) -> (r: Option<u32>)
        requires
            self.wf(),
        ensures
            r == spec_get_u32(self@, key@),
    {
        match self.get_value(key) {
            Some(ContextValue::U32(v)) => Some(v),
            _ => None,
        }
    }

    /// Set a u64 value
    pub fn set_u64(&mut self, key: &str, value: u64)
        requires
            old(self).wf(),
        ensures
            final(self).wf(),
            final(self)@ == ctx_set(old(self)@, key@, ContextValue::U64(value)),
    {
        self.set_value(key, ContextValue::U64(value));
    }

    /// Get a u64 value
    pub fn get_u64(&self, key: &str) -> (r: Option<u64>)
        requires
            self.wf(),
        ensures
            r == spec_get_u64(self@, key@),
    {
        match self.get_value(key) {
            Some(ContextValue::U64(v)) => Some(v),
            _ => None,
        }
    }

    /// Set a usize value
    pub fn set_usize(&mut self, key: &str, value: usize)
        requires
            old(self).wf(),
        ensures
            final(self).wf(),
            final(self)@ == ctx_set(old(self)@, key@, ContextValue::Usize(value)),
    {
        self.set_value(key, ContextValue::Usize(value));
    }

    /// Get a usize value
    pub fn get_usize(&self, key: &str) -> (r: Option<usize>)
        requires
            self.wf(),
        ensures
            r == spec_get_usize(self@, key@),
    {
        match self.get_value(key) {
            Some(ContextValue::Usize(v)) => Some(v),
            _ => None,
        }
    }

    /// Set a pointer-valued entry, carried as a plain address word.
    pub fn set_ptr(&mut self, key: &str, value: usize)
        requires
            old(self).wf(),
        ensures
            final(self).wf(),
            final(self)@ == ctx_set(old(self)@, key@, ContextValue::Ptr(value)),
    {
        self.set_value(key, ContextValue::Ptr(value));
    }

    /// Get a pointer-valued entry.
    pub fn get_ptr(&self, key: &str) -> (r: Option<usize>)
        requires
            self.wf(),
        ensures
            r == (match ctx_get(self@, key@) {
                Some(ContextValue::Ptr(v)) => Some(v),
                _ => None,
            }),
    {
        match self.get_value(key) {
            Some(ContextValue::Ptr(v)) => Some(v),
            _ => None,
        }
    }

    /// Set a mutable-pointer-valued entry, carried as a plain address word.
    pub fn set_mut_ptr(&mut self, key: &str, value: usize)
        requires
            old(self).wf(),
        ensures
            final(self).wf(),
            final(self)@ == ctx_set(old(self)@, key@, ContextValue::MutPtr(value)),
    {
        self.set_value(key, ContextValue::MutPtr(value));
    }

    /// Get a mutable-pointer-valued entry.
    pub fn get_mut_ptr(&self, key: &str) -> (r: Option<usize>)
        requires
            self.wf(),
        ensures
            r == (match ctx_get(self@, key@) {
                Some(ContextValue::MutPtr(v)) => Some(v),
                _ => None,
            }),
    {
        match self.get_value(key) {
            Some(ContextValue::MutPtr(v)) => Some(v),
            _ => None,
        }
    }

    /// Check if a key exists
    pub fn has(&self, key: &str) -> (r: bool)
        requires
            self.wf(),
        ensures
            r == self@.contains_key(key@),
    {
        proof {
            lemma_entries_map(self.bindings());
        }
        self.find_key(key).is_some()
    }

    /// Remove a key
    pub fn remove(&mut self, key: &str)
        requires
            old(self).wf(),
        ensures
            final(self).wf(),
            final(self)@ == old(self)@.remove(key@),
    {
        proof {
            lemma_entries_map(self.bindings());
        }
        match self.find_key(key) {
            Some(i) => {
                proof {
                    lemma_entries_map_remove(self.bindings(), i as int);
                }
                self.entries.remove(i);
                proof {
                    assert(self.bindings() =~= old(self).bindings().remove(i as int));
                }
            },
            None => {
                proof {
                    assert(!old(self)@.contains_key(key@));
                    assert(old(self)@.remove(key@) =~= old(self)@);
                }
            },
        }
    }

    /// Clear all entries
    pub fn clear(&mut self)
        ensures
            final(self).wf(),
            final(self)@ == Map::<Seq<char>, ContextValue>::empty(),
    {
        self.entries = Vec::new();
    }

    /// Get the number of entries
    pub fn len(&self) -> (r: usize)
        requires
            self.wf(),
        ensures
            r == self@.dom().len(),
    {
        proof {
            lemma_entries_map(self.bindings());
        }
        self.entries.len()
    }

    /// Check if empty
    pub fn is_empty(&self) -> (r: bool)
        requires
            self.wf(),
        ensures
            r == (self@.dom().len() == 0),
    {
        proof {
            lemma_entries_map(self.bindings());
        }
        self.entries.len() == 0
    }
}

/// A `bool` read: the value stored under `k`, if it is a boolean.
pub open spec fn spec_get_bool(m: Map<Seq<char>, ContextValue>, k: Seq<char>) -> Option<bool> {
    match ctx_get(m, k) {
        Some(ContextValue::Bool(v)) => Some(v),
        _ => None,
    }
}

/// A `u32` read: the value stored under `k`, if it is a `u32`.
pub open spec fn spec_get_u32(m: Map<Seq<char>, ContextValue>, k: Seq<char>) -> Option<u32> {
    match ctx_get(m, k) {
        Some(ContextValue::U32(v)) => Some(v),
        _ => None,
    }
}

/// A `u64` read.
pub open spec fn spec_get_u64(m: Map<Seq<char>, ContextValue>, k: Seq<char>) -> Option<u64> {
    match ctx_get(m, k) {
        Some(ContextValue::U64(v)) => Some(v),
        _ => None,
    }
}

/// A `usize` read.
pub open spec fn spec_get_usize(m: Map<Seq<char>, ContextValue>, k: Seq<char>) -> Option<usize> {
    match ctx_get(m, k) {
        Some(ContextValue::Usize(v)) => Some(v),
        _ => None,
    }
}

} // verus!
