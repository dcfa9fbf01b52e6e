//! The merge engine: reconciles freshly extracted lines with a saved translation table.
use crate::table::{keys_unique, lemma_lookup_at, lookup, Entry, TranslationTable};
use crate::types::ProcessingMode;
use crate::walker::str_views;
use vstd::prelude::*;

verus! {

/// `s` with repeated elements left out, first occurrences kept in order.
pub open spec fn dedup(s: Seq<Seq<char>>) -> Seq<Seq<char>>
    decreases s.len(),
{
    if s.len() == 0 {
        seq![]
    } else {
        let d = dedup(s.drop_last());
        if d.contains(s.last()) {
            d
        } else {
            d.push(s.last())
        }
    }
}

/// The translation an extracted line starts with: the saved one when appending, else none.
pub open spec fn carried(old: Seq<Entry>, k: Seq<char>, append: bool) -> Seq<char> {
    if append && lookup(old, k) is Some {
        lookup(old, k)->0
    } else {
        seq![]
    }
}

/// One entry per distinct extracted line, in extraction order.
pub open spec fn fresh_entries(d: Seq<Seq<char>>, old: Seq<Entry>, append: bool) -> Seq<Entry> {
    d.map_values(|k: Seq<char>| (k, carried(old, k, append)))
}

/// The table a deduplicating merge produces: the extracted lines, each once, in extraction
/// order; when appending, each keeps its saved translation. Saved lines that were not
/// extracted again are dropped.
pub open spec fn merged(fresh: Seq<Seq<char>>, old: Seq<Entry>, append: bool) -> Seq<Entry> {
    fresh_entries(dedup(fresh), old, append)
}

pub proof fn lemma_dedup_contains(s: Seq<Seq<char>>, x: Seq<char>)
    ensures
        dedup(s).contains(x) <==> s.contains(x),
    decreases s.len(),
{
    if s.len() > 0 {
        let p = s.drop_last();
        let l = s.last();
        let d = dedup(p);
        lemma_dedup_contains(p, x);
        assert(s.contains(x) <==> (p.contains(x) || l == x)) by {
            if s.contains(x) && l != x {
                let i = choose|i: int| 0 <= i < s.len() && s[i] == x;
                assert(p[i] == x);
            }
            if p.contains(x) {
                let i = choose|i: int| 0 <= i < p.len() && p[i] == x;
                assert(s[i] == x);
            }
            if l == x {
                assert(s[s.len() - 1] == x);
            }
        }
        if !d.contains(l) {
            let e = d.push(l);
            assert(e.contains(x) <==> (d.contains(x) || l == x)) by {
                if e.contains(x) && l != x {
                    let i = choose|i: int| 0 <= i < e.len() && e[i] == x;
                    assert(d[i] == x);
                }
                if d.contains(x) {
                    let i = choose|i: int| 0 <= i < d.len() && d[i] == x;
                    assert(e[i] == x);
                }
                if l == x {
                    assert(e[d.len() as int] == x);
                }
            }
        }
    }
}

/// Deduplicating leaves no repeated element.
pub proof fn lemma_dedup_unique(s: Seq<Seq<char>>)
    ensures
        dedup(s).no_duplicates(),
    decreases s.len(),
{
    if s.len() > 0 {
        lemma_dedup_unique(s.drop_last());
    }
}

/// A deduplicating merge never yields two entries with the same original.
pub proof fn lemma_merge_has_no_duplicate_originals(fresh: Seq<Seq<char>>, old: Seq<Entry>, append: bool)
    ensures
        keys_unique(merged(fresh, old, append)),
{
    let d = dedup(fresh);
    let m = merged(fresh, old, append);
    lemma_dedup_unique(fresh);
    assert forall|i: int, j: int| 0 <= i < m.len() && 0 <= j < m.len() && i != j implies m[i].0 != m[j].0 by {
        assert(m[i].0 == d[i] && m[j].0 == d[j]);
    }
}

/// Merges freshly extracted lines into a saved table: the result holds the extracted lines
/// alone, each once, in extraction order. When appending, each keeps its saved translation;
/// otherwise all translations are empty. Saved lines no longer extracted are dropped.
pub fn merge_lines(
    fresh: &Vec<String>,
    existing: &TranslationTable,
    processing_mode: ProcessingMode,
) -> (r: TranslationTable)
    requires
        existing.wf(),
    ensures
        r.wf(),
        r@ == merged(str_views(fresh@), existing@, processing_mode == ProcessingMode::Append),
        forall|m: int| 0 <= m < r@.len() ==> str_views(fresh@).contains(#[trigger] r@[m].0),
        processing_mode == ProcessingMode::Append ==> forall|i: int|
            0 <= i < existing@.len() && str_views(fresh@).contains(#[trigger] existing@[i].0)
                ==> lookup(r@, existing@[i].0) == Some(existing@[i].1),
{
    let append = processing_mode == ProcessingMode::Append;
    let ghost fv = str_views(fresh@);
    let ghost old = existing@;
    let mut r = TranslationTable::new();
    let mut i: usize = 0;
    while i < fresh.len()
        invariant
            i <= fresh@.len(),
            fv == str_views(fresh@),
            old == existing@,
            existing.wf(),
            r.wf(),
            append == (processing_mode == ProcessingMode::Append),
            r@ == fresh_entries(dedup(fv.take(i as int)), old, append),
        decreases fresh.len() - i,
    {
        let ghost d = dedup(fv.take(i as int));
        assert(fv.take(i + 1).drop_last() =~= fv.take(i as int));
        assert(fv.take(i + 1).last() == fresh@[i as int]@);
        let k = &fresh[i];
        match r.position(k.as_str()) {
            Some(p) => {
                assert(r@[p as int].0 == d[p as int]);
                assert(d.contains(k@));
            },
            None => {
                assert(!d.contains(k@)) by {
                    if d.contains(k@) {
                        let j = choose|j: int| 0 <= j < d.len() && d[j] == k@;
                        assert(r@[j].0 == k@);
                    }
                }
                let t = if append {
                    match existing.get(k.as_str()) {
                        Some(t) => t,
                        None => String::new(),
                    }
                } else {
                    String::new()
                };
                assert(t@ == carried(old, k@, append));
                r.insert_new(k.clone(), t);
                assert(r@ =~= fresh_entries(d.push(k@), old, append));
            },
        }
        i += 1;
    }
    assert(fv.take(fresh@.len() as int) =~= fv);
    let ghost d = dedup(fv);
    assert forall|m: int| 0 <= m < r@.len() implies fv.contains(#[trigger] r@[m].0) by {
        lemma_dedup_contains(fv, d[m]);
        assert(d.contains(d[m]));
    }
    if append {
        assert forall|i: int|
            0 <= i < old.len() && fv.contains(#[trigger] old[i].0) implies lookup(r@, old[i].0)
            == Some(old[i].1) by {
            lemma_dedup_contains(fv, old[i].0);
            let m = choose|m: int| 0 <= m < d.len() && d[m] == old[i].0;
            lemma_lookup_at(old, i);
            assert(r@[m] == (old[i].0, old[i].1));
            lemma_lookup_at(r@, m);
        }
    }
    r
}

/// Pairs viewed as (original, translation).
pub open spec fn pair_views(v: Seq<(String, String)>) -> Seq<Entry> {
    v.map_values(|p: (String, String)| (p.0@, p.1@))
}

/// The table after slotting in extracted line `f` at position `k`: kept when the entry there
/// has the same original, else inserted there with no translation.
pub open spec fn preserve_step(v: Seq<Entry>, k: int, f: Seq<char>) -> Seq<Entry> {
    if k < v.len() {
        if v[k].0 == f {
            v
        } else {
            v.insert(k, (f, seq![]))
        }
    } else {
        v.push((f, seq![]))
    }
}

/// The table after slotting in the first `n` extracted lines.
pub open spec fn preserve_upto(fresh: Seq<Seq<char>>, start: Seq<Entry>, n: int) -> Seq<Entry>
    decreases n,
{
    if n <= 0 {
        start
    } else {
        preserve_step(preserve_upto(fresh, start, n - 1), n - 1, fresh[n - 1])
    }
}

/// The table a merge without deduplication produces.
pub open spec fn preserve_merged(fresh: Seq<Seq<char>>, old: Seq<Entry>, append: bool) -> Seq<
    Entry,
> {
    preserve_upto(fresh, if append { old } else { seq![] }, fresh.len() as int)
}

/// Merges extracted lines, duplicates kept, into a saved sequence of entries. Entry `k` of the
/// result always holds the `k`-th extracted line; when appending, a saved entry that does not
/// match is moved down rather than overwritten.
pub fn merge_preserve(
    fresh: &Vec<String>,
    existing: Vec<(String, String)>,
    processing_mode: ProcessingMode,
) -> (r: Vec<(String, String)>)
    ensures
        pair_views(r@) == preserve_merged(
            str_views(fresh@),
            pair_views(existing@),
            processing_mode == ProcessingMode::Append,
        ),
        r@.len() >= fresh@.len(),
        forall|k: int| 0 <= k < fresh@.len() ==> (#[trigger] r@[k]).0@ == fresh@[k]@,
        processing_mode != ProcessingMode::Append ==> r@.len() == fresh@.len(),
        processing_mode != ProcessingMode::Append ==> forall|k: int|
            0 <= k < r@.len() ==> (#[trigger] r@[k]).1@.len() == 0,
        processing_mode == ProcessingMode::Append ==> forall|i: int|
            0 <= i < existing@.len() ==> pair_views(r@).contains(#[trigger] pair_views(existing@)[i]),
{
    let append = processing_mode == ProcessingMode::Append;
    proof {
        lemma_preserve_append_keeps_saved(str_views(fresh@), pair_views(existing@));
    }
    let ghost fv = str_views(fresh@);
    let ghost start: Seq<Entry> = if append {
        pair_views(existing@)
    } else {
        seq![]
    };
    let mut v: Vec<(String, String)> = if append {
        existing
    } else {
        Vec::new()
    };
    assert(pair_views(v@) =~= start);
    let mut k: usize = 0;
    while k < fresh.len()
        invariant
            k <= fresh@.len(),
            fv == str_views(fresh@),
            pair_views(v@) == preserve_upto(fv, start, k as int),
            v@.len() >= k,
            forall|m: int| 0 <= m < k ==> (#[trigger] v@[m]).0@ == fresh@[m]@,
            !append ==> v@.len() == k,
            !append ==> forall|m: int| 0 <= m < v@.len() ==> (#[trigger] v@[m]).1@.len() == 0,
            append == (processing_mode == ProcessingMode::Append),
            !append ==> start == Seq::<Entry>::empty(),
        decreases fresh.len() - k,
    {
        let f = &fresh[k];
        let ghost pv = pair_views(v@);
        if k < v.len() {
            if v[k].0 != *f {
                v.insert(k, (f.clone(), String::new()));
                assert(pair_views(v@) =~= pv.insert(k as int, (f@, seq![])));
            }
        } else {
            v.push((f.clone(), String::new()));
            assert(pair_views(v@) =~= pv.push((f@, seq![])));
        }
        k += 1;
    }
    v
}

/// A table rebuilt from a fresh extraction, as a read without appending makes, carries no
/// translation.
pub proof fn lemma_fresh_table_untranslated(fresh: Seq<Seq<char>>, old: Seq<Entry>)
    ensures
        forall|i: int|
            0 <= i < merged(fresh, old, false).len() ==> (#[trigger] merged(fresh, old, false)[i]).1.len()
                == 0,
{
}

/// A read without appending under the preserving policy yields one entry per extracted line,
/// in extraction order, each without translation.
pub proof fn lemma_preserve_read_alignment(fresh: Seq<Seq<char>>, old: Seq<Entry>)
    ensures
        preserve_merged(fresh, old, false).len() == fresh.len(),
        forall|k: int|
            0 <= k < fresh.len() ==> #[trigger] preserve_merged(fresh, old, false)[k] == (
                fresh[k],
                Seq::<char>::empty(),
            ),
{
    lemma_preserve_from_empty(fresh, fresh.len() as int);
}

proof fn lemma_preserve_from_empty(fresh: Seq<Seq<char>>, n: int)
    requires
        0 <= n <= fresh.len(),
    ensures
        preserve_upto(fresh, seq![], n).len() == n,
        forall|k: int|
            0 <= k < n ==> #[trigger] preserve_upto(fresh, seq![], n)[k] == (fresh[k], Seq::<char>::empty()),
    decreases n,
{
    if n > 0 {
        lemma_preserve_from_empty(fresh, n - 1);
    }
}

proof fn lemma_preserve_keeps(fresh: Seq<Seq<char>>, start: Seq<Entry>, n: int, x: Entry)
    requires
        start.contains(x),
    ensures
        preserve_upto(fresh, start, n).contains(x),
    decreases n,
{
    if n > 0 {
        lemma_preserve_keeps(fresh, start, n - 1, x);
        let v = preserve_upto(fresh, start, n - 1);
        let k = n - 1;
        let j = choose|j: int| 0 <= j < v.len() && v[j] == x;
        let w = preserve_upto(fresh, start, n);
        if k < v.len() && v[k].0 != fresh[k] {
            if j < k {
                assert(w[j] == x);
            } else {
                assert(w[j + 1] == x);
            }
        } else if k >= v.len() {
            assert(w[j] == x);
        }
    }
}

/// Appending without deduplication never loses or changes a saved entry: each is still in
/// the result, with its translation.
pub proof fn lemma_preserve_append_keeps_saved(fresh: Seq<Seq<char>>, old: Seq<Entry>)
    ensures
        forall|i: int| 0 <= i < old.len() ==> preserve_merged(fresh, old, true).contains(#[trigger] old[i]),
{
    assert forall|i: int| 0 <= i < old.len() implies preserve_merged(fresh, old, true).contains(#[trigger] old[i]) by {
        assert(old[i] == old[i]);
        lemma_preserve_keeps(fresh, old, fresh.len() as int, old[i]);
    }
}

} // verus!
