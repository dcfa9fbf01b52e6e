//! The purge engine: drops saved entries whose original text is no longer extracted.
use crate::merge::pair_views;
use crate::table::Entry;
use crate::text::{chars_of, starts_with, starts_with_seq};
use crate::walker::str_views;
use vstd::prelude::*;

verus! {

/// The prefix of structural comment lines in a line file.
pub open spec fn lit_comment() -> Seq<char> {
    seq!['<', '!', '-', '-']
}

/// Whether an entry survives a purge: a comment, an original still extracted, or, when
/// `leave_filled` is set, an entry with a translation.
pub open spec fn survives(e: Entry, fresh: Seq<Seq<char>>, leave_filled: bool) -> bool {
    ||| starts_with_seq(e.0, lit_comment())
    ||| fresh.contains(e.0)
    ||| (leave_filled && e.1.len() > 0)
}

/// The entries that survive, in order.
pub open spec fn purged(old: Seq<Entry>, fresh: Seq<Seq<char>>, leave_filled: bool) -> Seq<Entry>
    decreases old.len(),
{
    if old.len() == 0 {
        seq![]
    } else {
        let r = purged(old.drop_last(), fresh, leave_filled);
        if survives(old.last(), fresh, leave_filled) {
            r.push(old.last())
        } else {
            r
        }
    }
}

/// The entries that do not survive, in order.
pub open spec fn removed(old: Seq<Entry>, fresh: Seq<Seq<char>>, leave_filled: bool) -> Seq<Entry>
    decreases old.len(),
{
    if old.len() == 0 {
        seq![]
    } else {
        let r = removed(old.drop_last(), fresh, leave_filled);
        if survives(old.last(), fresh, leave_filled) {
            r
        } else {
            r.push(old.last())
        }
    }
}

/// Whether `s` is one of `v`.
pub fn contains_string(v: &Vec<String>, s: &str) -> (r: bool)
    ensures
        r == str_views(v@).contains(s@),
{
    let target = chars_of(s);
    let mut i: usize = 0;
    while i < v.len()
        invariant
            i <= v@.len(),
            target@ == s@,
            forall|k: int| 0 <= k < i ==> v@[k]@ != s@,
        decreases v.len() - i,
    {
        if crate::text::same_chars(&chars_of(v[i].as_str()), &target) {
            assert(str_views(v@)[i as int] == s@);
            return true;
        }
        i += 1;
    }
    assert(!str_views(v@).contains(s@)) by {
        if str_views(v@).contains(s@) {
            let k = choose|k: int| 0 <= k < str_views(v@).len() && str_views(v@)[k] == s@;
            assert(v@[k]@ == s@);
        }
    }
    false
}

/// Splits saved entries into those that survive a purge against the freshly extracted lines
/// and those that do not, each in saved order. With `leave_filled`, no translated entry is
/// removed.
pub fn purge_entries(existing: &Vec<(String, String)>, fresh: &Vec<String>, leave_filled: bool) -> (r: (
    Vec<(String, String)>,
    Vec<(String, String)>,
))
    ensures
        pair_views(r.0@) == purged(pair_views(existing@), str_views(fresh@), leave_filled),
        pair_views(r.1@) == removed(pair_views(existing@), str_views(fresh@), leave_filled),
        leave_filled ==> forall|i: int|
            0 <= i < existing@.len() && (#[trigger] existing@[i]).1@.len() > 0 ==> pair_views(
                r.0@,
            ).contains((existing@[i].0@, existing@[i].1@)),
{
    let ghost old = pair_views(existing@);
    let ghost fv = str_views(fresh@);
    let comment = vec!['<', '!', '-', '-'];
    assert(comment@ == lit_comment());
    let mut kept: Vec<(String, String)> = Vec::new();
    let mut gone: Vec<(String, String)> = Vec::new();
    let mut i: usize = 0;
    while i < existing.len()
        invariant
            i <= existing@.len(),
            old == pair_views(existing@),
            fv == str_views(fresh@),
            comment@ == lit_comment(),
            pair_views(kept@) == purged(old.take(i as int), fv, leave_filled),
            pair_views(gone@) == removed(old.take(i as int), fv, leave_filled),
        decreases existing.len() - i,
    {
        let (o, t) = &existing[i];
        assert(old.take(i + 1).drop_last() =~= old.take(i as int));
        assert(old.take(i + 1).last() == (o@, t@));
        let ghost kv = pair_views(kept@);
        let ghost gv = pair_views(gone@);
        let stays = starts_with(&chars_of(o.as_str()), &comment) || contains_string(fresh, o.as_str())
            || (leave_filled && !t.as_str().is_empty());
        if stays {
            kept.push((o.clone(), t.clone()));
            assert(pair_views(kept@) =~= kv.push((o@, t@)));
        } else {
            gone.push((o.clone(), t.clone()));
            assert(pair_views(gone@) =~= gv.push((o@, t@)));
        }
        i += 1;
    }
    assert(old.take(existing@.len() as int) =~= old);
    proof {
        if leave_filled {
            assert forall|i: int|
                0 <= i < existing@.len() && (#[trigger] existing@[i]).1@.len() > 0 implies pair_views(
                kept@,
            ).contains((existing@[i].0@, existing@[i].1@)) by {
                lemma_purge_keeps_translated(old, fv, i);
            }
        }
    }
    (kept, gone)
}

/// With `leave_filled`, a purge never removes an entry that has a translation, whether or not
/// its original is still extracted.
pub proof fn lemma_purge_keeps_translated(old: Seq<Entry>, fresh: Seq<Seq<char>>, i: int)
    requires
        0 <= i < old.len(),
        old[i].1.len() > 0,
    ensures
        purged(old, fresh, true).contains(old[i]),
    decreases old.len(),
{
    if i == old.len() - 1 {
        let r = purged(old.drop_last(), fresh, true);
        assert(purged(old, fresh, true)[r.len() as int] == old[i]);
    } else {
        lemma_purge_keeps_translated(old.drop_last(), fresh, i);
        let r = purged(old.drop_last(), fresh, true);
        let k = choose|k: int| 0 <= k < r.len() && r[k] == old[i];
        if survives(old.last(), fresh, true) {
            assert(purged(old, fresh, true)[k] == old[i]);
        }
    }
}

/// The lines of `lines` that are not on the ignore list, in order.
pub open spec fn unignored(lines: Seq<Seq<char>>, ignore: Seq<Seq<char>>) -> Seq<Seq<char>>
    decreases lines.len(),
{
    if lines.len() == 0 {
        seq![]
    } else if ignore.contains(lines.last()) {
        unignored(lines.drop_last(), ignore)
    } else {
        unignored(lines.drop_last(), ignore).push(lines.last())
    }
}

/// Leaves out the lines on the ignore list.
pub fn drop_ignored(lines: &Vec<String>, ignore: &Vec<String>) -> (r: Vec<String>)
    ensures
        str_views(r@) == unignored(str_views(lines@), str_views(ignore@)),
{
    let ghost lv = str_views(lines@);
    let mut r: Vec<String> = Vec::new();
    let mut i: usize = 0;
    while i < lines.len()
        invariant
            i <= lines@.len(),
            lv == str_views(lines@),
            str_views(r@) == unignored(lv.take(i as int), str_views(ignore@)),
        decreases lines.len() - i,
    {
        assert(lv.take(i + 1).drop_last() =~= lv.take(i as int));
        if !contains_string(ignore, lines[i].as_str()) {
            let ghost rv = str_views(r@);
            r.push(lines[i].clone());
            assert(str_views(r@) =~= rv.push(lines@[i as int]@));
        }
        i += 1;
    }
    assert(lv.take(lines@.len() as int) =~= lv);
    r
}

/// Whether an entry survives a purge of untranslated lines: a comment, or an entry with a
/// translation.
pub open spec fn translated_or_comment(e: Entry) -> bool {
    starts_with_seq(e.0, lit_comment()) || e.1.len() > 0
}

/// The entries of `old` that satisfy `translated_or_comment`, and those that do not, in order.
pub open spec fn split_untranslated(old: Seq<Entry>) -> (Seq<Entry>, Seq<Entry>)
    decreases old.len(),
{
    if old.len() == 0 {
        (seq![], seq![])
    } else {
        let (k, g) = split_untranslated(old.drop_last());
        if translated_or_comment(old.last()) {
            (k.push(old.last()), g)
        } else {
            (k, g.push(old.last()))
        }
    }
}

/// Splits saved entries into those that have a translation or are comments, and the
/// untranslated lines, each in saved order.
pub fn purge_untranslated(existing: &Vec<(String, String)>) -> (r: (Vec<(String, String)>, Vec<(String, String)>))
    ensures
        (pair_views(r.0@), pair_views(r.1@)) == split_untranslated(pair_views(existing@)),
{
    let ghost old = pair_views(existing@);
    let comment = vec!['<', '!', '-', '-'];
    assert(comment@ == lit_comment());
    let mut kept: Vec<(String, String)> = Vec::new();
    let mut gone: Vec<(String, String)> = Vec::new();
    let mut i: usize = 0;
    while i < existing.len()
        invariant
            i <= existing@.len(),
            old == pair_views(existing@),
            comment@ == lit_comment(),
            (pair_views(kept@), pair_views(gone@)) == split_untranslated(old.take(i as int)),
        decreases existing.len() - i,
    {
        let (o, t) = &existing[i];
        assert(old.take(i + 1).drop_last() =~= old.take(i as int));
        assert(old.take(i + 1).last() == (o@, t@));
        let ghost kv = pair_views(kept@);
        let ghost gv = pair_views(gone@);
        if starts_with(&chars_of(o.as_str()), &comment) || !t.as_str().is_empty() {
            kept.push((o.clone(), t.clone()));
            assert(pair_views(kept@) =~= kv.push((o@, t@)));
        } else {
            gone.push((o.clone(), t.clone()));
            assert(pair_views(gone@) =~= gv.push((o@, t@)));
        }
        i += 1;
    }
    assert(old.take(existing@.len() as int) =~= old);
    (kept, gone)
}

} // verus!
