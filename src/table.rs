//! The translation table: an insertion-ordered map from original text to translation with
//! no two entries sharing an original.
use indexmap::IndexMap;
use vstd::prelude::*;

verus! {

#[verifier::external_type_specification]
#[verifier::external_body]
#[verifier::reject_recursive_types(K)]
#[verifier::reject_recursive_types(V)]
#[verifier::reject_recursive_types(S)]
pub struct ExIndexMap<K, V, S>(IndexMap<K, V, S>);

/// The entries of an ordered map, in its order.
pub uninterp spec fn map_entries(m: IndexMap<String, String>) -> Seq<(Seq<char>, Seq<char>)>;

/// An entry: (original, translation).
pub type Entry = (Seq<char>, Seq<char>);

pub open spec fn keys_unique(s: Seq<Entry>) -> bool {
    forall|i: int, j: int| 0 <= i < s.len() && 0 <= j < s.len() && i != j ==> s[i].0 != s[j].0
}

pub open spec fn has_key(s: Seq<Entry>, k: Seq<char>) -> bool {
    exists|i: int| 0 <= i < s.len() && s[i].0 == k
}

/// The translation stored for `k`, if any.
pub open spec fn lookup(s: Seq<Entry>, k: Seq<char>) -> Option<Seq<char>> {
    if has_key(s, k) {
        Some(s[choose|i: int| 0 <= i < s.len() && s[i].0 == k].1)
    } else {
        None
    }
}

/// In a table without duplicate originals, an original looks up its own entry.
pub proof fn lemma_lookup_at(s: Seq<Entry>, i: int)
    requires
        keys_unique(s),
        0 <= i < s.len(),
    ensures
        lookup(s, s[i].0) == Some(s[i].1),
{
    let j = choose|j: int| 0 <= j < s.len() && s[j].0 == s[i].0;
    assert(j == i);
}

/// Relies on `IndexMap::new`: a new map is empty.
#[verifier::external_body]
fn index_map_new() -> (r: IndexMap<String, String>)
    ensures
        map_entries(r) == Seq::<Entry>::empty(),
{
    IndexMap::new()
}

/// Relies on `IndexMap::len`: the number of entries.
#[verifier::external_body]
fn index_map_len(m: &IndexMap<String, String>) -> (r: usize)
    ensures
        r == map_entries(*m).len(),
{
    m.len()
}

/// Relies on `IndexMap::get_index_of`: the position of the entry whose key equals `k`.
#[verifier::external_body]
fn index_map_position(m: &IndexMap<String, String>, k: &str) -> (r: Option<usize>)
    ensures
        r matches Some(i) ==> i < map_entries(*m).len() && map_entries(*m)[i as int].0 == k@,
        r is None ==> !has_key(map_entries(*m), k@),
{
    m.get_index_of(k)
}

/// Relies on `IndexMap::get_index`: the entry at position `i`.
#[verifier::external_body]
fn index_map_entry(m: &IndexMap<String, String>, i: usize) -> (r: (String, String))
    requires
        i < map_entries(*m).len(),
    ensures
        (r.0@, r.1@) == map_entries(*m)[i as int],
{
    match m.get_index(i) {
        Some((k, v)) => (k.clone(), v.clone()),
        None => (String::new(), String::new()),
    }
}

/// Relies on `IndexMap::insert`: a key not yet present goes last, with its value.
#[verifier::external_body]
fn index_map_insert_new(m: &mut IndexMap<String, String>, k: String, v: String)
    requires
        !has_key(map_entries(*old(m)), k@),
    ensures
        map_entries(*final(m)) == map_entries(*old(m)).push((k@, v@)),
{
    m.insert(k, v);
}

/// Relies on `IndexMap::get_index_mut`: replaces the value at position `i`, in place.
#[verifier::external_body]
fn index_map_set_value(m: &mut IndexMap<String, String>, i: usize, v: String)
    requires
        i < map_entries(*old(m)).len(),
    ensures
        map_entries(*final(m)) == map_entries(*old(m)).update(
            i as int,
            (map_entries(*old(m))[i as int].0, v@),
        ),
{
    if let Some((_, slot)) = m.get_index_mut(i) {
        *slot = v;
    }
}

/// Original text mapped to its translation, in file order, without duplicate originals.
pub struct TranslationTable {
    map: IndexMap<String, String>,
}

impl TranslationTable {
    pub closed spec fn view(&self) -> Seq<Entry> {
        map_entries(self.map)
    }

    /// No two entries share an original.
    pub open spec fn wf(&self) -> bool {
        keys_unique(self@)
    }

    /// An empty table.
    pub fn new() -> (r: TranslationTable)
        ensures
            r@ == Seq::<Entry>::empty(),
            r.wf(),
    {
        TranslationTable { map: index_map_new() }
    }

    /// The number of entries.
    pub fn len(&self) -> (r: usize)
        ensures
            r == self@.len(),
    {
        index_map_len(&self.map)
    }

    /// Position of the entry for `original`.
    pub fn position(&self, original: &str) -> (r: Option<usize>)
        ensures
            r matches Some(i) ==> i < self@.len() && self@[i as int].0 == original@,
            r is None ==> !has_key(self@, original@),
    {
        index_map_position(&self.map, original)
    }

    /// The entry at position `i`: (original, translation).
    pub fn entry(&self, i: usize) -> (r: (String, String))
        requires
            i < self@.len(),
        ensures
            (r.0@, r.1@) == self@[i as int],
    {
        index_map_entry(&self.map, i)
    }

    /// The translation stored for `original`.
    pub fn get(&self, original: &str) -> (r: Option<String>)
        requires
            self.wf(),
        ensures
            r matches Some(t) ==> lookup(self@, original@) == Some(t@),
            r is None ==> lookup(self@, original@) is None,
    {
        match self.position(original) {
            Some(i) => {
                let (_, t) = self.entry(i);
                proof {
                    lemma_lookup_at(self@, i as int);
                }
                Some(t)
            },
            None => None,
        }
    }

    /// Adds an entry for an original not yet in the table, last in order.
    pub fn insert_new(&mut self, original: String, translation: String)
        requires
            old(self).wf(),
            !has_key(old(self)@, original@),
        ensures
            final(self)@ == old(self)@.push((original@, translation@)),
            final(self).wf(),
    {
        index_map_insert_new(&mut self.map, original, translation);
    }

    /// Inserts an entry; an original already present keeps its place and takes the new
    /// translation.
    pub fn insert(&mut self, original: String, translation: String)
        requires
            old(self).wf(),
        ensures
            final(self).wf(),
            has_key(old(self)@, original@) ==> final(self)@.len() == old(self)@.len(),
            forall|i: int|
                0 <= i < old(self)@.len() && old(self)@[i].0 == original@ ==> final(self)@ == old(
                    self,
                )@.update(i, (original@, translation@)),
            !has_key(old(self)@, original@) ==> final(self)@ == old(self)@.push(
                (original@, translation@),
            ),
    {
        match self.position(original.as_str()) {
            Some(i) => {
                index_map_set_value(&mut self.map, i, translation);
                assert(final(self)@ =~= old(self)@.update(i as int, (original@, translation@)));
            },
            None => {
                index_map_insert_new(&mut self.map, original, translation);
            },
        }
    }

    /// The entries, in order.
    pub fn entries(&self) -> (r: Vec<(String, String)>)
        ensures
            r@.len() == self@.len(),
            forall|i: int| 0 <= i < r@.len() ==> (#[trigger] r@[i].0@, r@[i].1@) == self@[i],
    {
        let mut r: Vec<(String, String)> = Vec::new();
        let n = self.len();
        let mut i: usize = 0;
        while i < n
            invariant
                i <= n == self@.len(),
                r@.len() == i,
                forall|k: int| 0 <= k < i ==> (#[trigger] r@[k].0@, r@[k].1@) == self@[k],
            decreases n - i,
        {
            r.push(self.entry(i));
            i += 1;
        }
        r
    }
}

} // verus!
