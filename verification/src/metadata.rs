//! Open-ended record fields: names mapped to JSON text that the library
//! carries through unchanged and never interprets.
use crate::text::{copy_string, copy_strings, str_eq};
use vstd::prelude::*;

verus! {

/// One named field; `value` is the field's JSON text.
#[derive(Clone, Debug, PartialEq, Eq)]
pub struct MetadataEntry {
    pub key: String,
    pub value: String,
}

/// Named fields in insertion order.
#[derive(Clone, Debug, PartialEq, Eq)]
pub struct Metadata {
    pub entries: Vec<MetadataEntry>,
}

/// The position of the first field named `key` from the `i`-th on.
pub open spec fn first_key_index(entries: Seq<MetadataEntry>, key: Seq<char>, i: int) -> Option<int>
    decreases entries.len() - i,
{
    if i < 0 || i >= entries.len() {
        None
    } else if entries[i].key@ == key {
        Some(i)
    } else {
        first_key_index(entries, key, i + 1)
    }
}

/// The fields after setting `key` to `value`: the first field of that name
/// takes the value, or a new field is appended.
pub open spec fn inserted(entries: Seq<MetadataEntry>, key: String, value: String) -> Seq<MetadataEntry> {
    match first_key_index(entries, key@, 0) {
        Some(i) => entries.update(i, MetadataEntry { key: entries[i].key, value }),
        None => entries.push(MetadataEntry { key, value }),
    }
}

/// `after` is `before` with the field `key` set to `value`: the first field
/// of that name takes the value in place, or the field is appended.
pub open spec fn field_set(after: Seq<MetadataEntry>, before: Seq<MetadataEntry>, key: Seq<char>, value: Seq<char>) -> bool {
    match first_key_index(before, key, 0) {
        Some(i) => {
            &&& after.len() == before.len()
            &&& forall|j: int| 0 <= j < before.len() && j != i ==> #[trigger] after[j] == before[j]
            &&& after[i].key@ == key && after[i].value@ == value
        },
        None => {
            &&& after.len() == before.len() + 1
            &&& forall|j: int| 0 <= j < before.len() ==> #[trigger] after[j] == before[j]
            &&& after[before.len() as int].key@ == key && after[before.len() as int].value@ == value
        },
    }
}

proof fn lemma_first_key_index(entries: Seq<MetadataEntry>, key: Seq<char>, i: int)
    requires
        0 <= i,
    ensures
        first_key_index(entries, key, i) matches Some(j) ==> i <= j < entries.len() && entries[j].key@ == key,
    decreases entries.len() - i,
{
    if i < entries.len() && entries[i].key@ != key {
        lemma_first_key_index(entries, key, i + 1);
    }
}

impl Metadata {
    /// The names of the fields.
    pub open spec fn keys(self) -> Seq<Seq<char>> {
        self.entries@.map_values(|e: MetadataEntry| e.key@)
    }

    pub open spec fn has_key(self, key: Seq<char>) -> bool {
        exists|i: int| 0 <= i < self.entries@.len() && #[trigger] self.entries@[i].key@ == key
    }

    /// No fields.
    pub fn new() -> (m: Metadata)
        ensures
            m.entries@.len() == 0,
    {
        Metadata { entries: Vec::new() }
    }

    pub fn is_empty(&self) -> (r: bool)
        ensures
            r == (self.entries@.len() == 0),
    {
        self.entries.len() == 0
    }

    pub fn contains_key(&self, key: &str) -> (r: bool)
        ensures
            r == self.has_key(key@),
    {
        let mut i: usize = 0;
        while i < self.entries.len()
            invariant
                i <= self.entries@.len(),
                forall|k: int| 0 <= k < i ==> #[trigger] self.entries@[k].key@ != key@,
                first_key_index(self.entries@, key@, 0) == first_key_index(self.entries@, key@, i as int),
            decreases self.entries@.len() - i,
        {
            if str_eq(self.entries[i].key.as_str(), key) {
                return true;
            }
            i = i + 1;
        }
        false
    }

    /// The JSON text of the first field named `key`.
    pub fn get(&self, key: &str) -> (r: Option<&String>)
        ensures
            match first_key_index(self.entries@, key@, 0) {
                Some(i) => r matches Some(v) && *v == self.entries@[i].value,
                None => r is None,
            },
    {
        let mut i: usize = 0;
        while i < self.entries.len()
            invariant
                i <= self.entries@.len(),
                first_key_index(self.entries@, key@, 0) == first_key_index(self.entries@, key@, i as int),
            decreases self.entries@.len() - i,
        {
            if str_eq(self.entries[i].key.as_str(), key) {
                return Some(&self.entries[i].value);
            }
            i = i + 1;
        }
        None
    }

    /// Set `key` to `value`: replaces the first field of that name, or
    /// appends a new one.
    pub fn insert(&mut self, key: String, value: String)
        ensures
            final(self).entries@ == inserted(old(self).entries@, key, value),
            field_set(final(self).entries@, old(self).entries@, key@, value@),
            final(self).has_key(key@),
            old(self).has_key(key@) ==> final(self).entries@.len() == old(self).entries@.len(),
            !old(self).has_key(key@) ==> final(self).entries@ == old(self).entries@.push(
                MetadataEntry { key, value },
            ),
            forall|k: Seq<char>| k != key@ ==> final(self).has_key(k) == old(self).has_key(k),
    {
        proof {
            lemma_first_key_index(self.entries@, key@, 0);
        }
        let mut i: usize = 0;
        while i < self.entries.len()
            invariant
                i <= self.entries@.len(),
                self.entries@ == old(self).entries@,
                forall|k: int| 0 <= k < i ==> #[trigger] self.entries@[k].key@ != key@,
                first_key_index(self.entries@, key@, 0) == first_key_index(self.entries@, key@, i as int),
            decreases self.entries@.len() - i,
        {
            if str_eq(self.entries[i].key.as_str(), key.as_str()) {
                let ghost before = self.entries@;
                let old_entry = self.entries.remove(i);
                self.entries.insert(i, MetadataEntry { key: old_entry.key, value });
                assert(first_key_index(before, key@, i as int) == Some(i as int));
                assert(old_entry == before[i as int]);
                assert(self.entries@ =~= inserted(before, key, value));
                assert(self.entries@[i as int].key@ == key@);
                assert forall|k: Seq<char>| k != key@ implies self.has_key(k) == old(self).has_key(k) by {
                    if self.has_key(k) {
                        let j = choose|j: int| 0 <= j < self.entries@.len() && #[trigger] self.entries@[j].key@ == k;
                        assert(before[j].key@ == k);
                    }
                    if old(self).has_key(k) {
                        let j = choose|j: int| 0 <= j < before.len() && #[trigger] before[j].key@ == k;
                        assert(self.entries@[j].key@ == k);
                    }
                }
                return;
            }
            i = i + 1;
        }
        let ghost before = self.entries@;
        assert(first_key_index(before, key@, before.len() as int) is None);
        self.entries.push(MetadataEntry { key, value });
        assert(self.entries@[before.len() as int].key@ == key@);
        assert forall|k: Seq<char>| k != key@ implies self.has_key(k) == old(self).has_key(k) by {
            if self.has_key(k) {
                let j = choose|j: int| 0 <= j < self.entries@.len() && #[trigger] self.entries@[j].key@ == k;
                assert(before[j].key@ == k);
            }
            if old(self).has_key(k) {
                let j = choose|j: int| 0 <= j < before.len() && #[trigger] before[j].key@ == k;
                assert(self.entries@[j].key@ == k);
            }
        }
    }
}

/// An opaque namespaced extension record; `payload` is JSON text.
#[derive(Clone, Debug, PartialEq, Eq)]
pub struct NativeExtension {
    pub schema: String,
    pub namespace: String,
    pub capabilities: Vec<String>,
    pub payload: String,
    pub extra: Metadata,
}

/// Two field lists with the same names and JSON texts, in order.
pub open spec fn same_fields(a: Metadata, b: Metadata) -> bool {
    &&& a.entries@.len() == b.entries@.len()
    &&& forall|i: int|
        0 <= i < a.entries@.len() ==> (#[trigger] a.entries@[i]).key@ == b.entries@[i].key@ && a.entries@[i].value@
            == b.entries@[i].value@
}

/// A field-wise copy of a field list.
pub fn copy_fields(m: &Metadata) -> (r: Metadata)
    ensures
        same_fields(*m, r),
{
    let mut entries: Vec<MetadataEntry> = Vec::new();
    let mut i: usize = 0;
    while i < m.entries.len()
        invariant
            i <= m.entries@.len(),
            entries@.len() == i,
            forall|k: int|
                0 <= k < i ==> (#[trigger] m.entries@[k]).key@ == entries@[k].key@ && m.entries@[k].value@
                    == entries@[k].value@,
        decreases m.entries@.len() - i,
    {
        let e = &m.entries[i];
        entries.push(MetadataEntry { key: copy_string(&e.key), value: copy_string(&e.value) });
        i = i + 1;
    }
    Metadata { entries }
}

/// Two extension records with the same fields.
pub open spec fn same_extension(a: NativeExtension, b: NativeExtension) -> bool {
    &&& a.schema@ == b.schema@
    &&& a.namespace@ == b.namespace@
    &&& a.capabilities@.len() == b.capabilities@.len()
    &&& forall|i: int| 0 <= i < a.capabilities@.len() ==> (#[trigger] a.capabilities@[i])@ == b.capabilities@[i]@
    &&& a.payload@ == b.payload@
    &&& same_fields(a.extra, b.extra)
}

/// Two lists of extension records with the same records, in order.
pub open spec fn same_extensions(a: Seq<NativeExtension>, b: Seq<NativeExtension>) -> bool {
    &&& a.len() == b.len()
    &&& forall|i: int| 0 <= i < a.len() ==> same_extension(#[trigger] a[i], b[i])
}

/// A field-wise copy of a list of extension records.
pub fn copy_extensions(v: &Vec<NativeExtension>) -> (r: Vec<NativeExtension>)
    ensures
        same_extensions(v@, r@),
{
    let mut out: Vec<NativeExtension> = Vec::new();
    let mut i: usize = 0;
    while i < v.len()
        invariant
            i <= v@.len(),
            out@.len() == i,
            forall|k: int| 0 <= k < i ==> same_extension(#[trigger] v@[k], out@[k]),
        decreases v@.len() - i,
    {
        let e = &v[i];
        out.push(
            NativeExtension {
                schema: copy_string(&e.schema),
                namespace: copy_string(&e.namespace),
                capabilities: copy_strings(&e.capabilities),
                payload: copy_string(&e.payload),
                extra: copy_fields(&e.extra),
            },
        );
        i = i + 1;
    }
    out
}

} // verus!
