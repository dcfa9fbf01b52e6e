//! The plugin list of the newer engines: a script assigning one JSON value, whose strings are
//! read in document order.
use crate::classify::{is_rejected_text, rejected_text, romanize_chars, romanized};
use crate::merge::pair_views;
use crate::text::{chars_of, find_from, first_occurrence, starts_with, starts_with_seq, string_of, trim_chars, trim_seq};
use vstd::prelude::*;

verus! {

/// `s` without trailing semicolons and line feeds.
pub open spec fn trim_end_semicolons(s: Seq<char>) -> Seq<char>
    decreases s.len(),
{
    if s.len() > 0 && (s.last() == ';' || s.last() == '\n') {
        trim_end_semicolons(s.drop_last())
    } else {
        s
    }
}

/// The JSON text of a plugin list: what follows the first `=`, trailing semicolons and line
/// feeds removed; `None` without an `=`.
pub open spec fn plugins_json(content: Seq<char>) -> Option<Seq<char>> {
    match first_occurrence(content, seq!['='], 0) {
        Some(i) => Some(trim_end_semicolons(content.subrange(i + 1, content.len() as int))),
        None => None,
    }
}

/// The JSON text of a plugin list (see `plugins_json`).
pub fn plugins_json_text(content: &str) -> (r: Option<String>)
    ensures
        r matches Some(s) ==> plugins_json(content@) == Some(s@),
        r is None ==> plugins_json(content@) is None,
{
    let v = chars_of(content);
    let eq = vec!['='];
    assert(eq@ == seq!['=']);
    match find_from(&v, &eq, 0) {
        Some(i) => {
            let n = v.len();
            assert(i < n);
            let mut j: usize = n;
            while j > i + 1 && (v[j - 1] == ';' || v[j - 1] == '\n')
                invariant
                    i + 1 <= j <= n == v@.len(),
                    trim_end_semicolons(v@.subrange(i + 1, n as int)) == trim_end_semicolons(
                        v@.subrange(i + 1, j as int),
                    ),
                decreases j,
            {
                assert(v@.subrange(i + 1, j as int).drop_last() =~= v@.subrange(i + 1, j - 1));
                j -= 1;
            }
            Some(string_of(&crate::text::slice_chars(&v, i + 1, j)))
        },
        None => None,
    }
}

/// The line-file key of a string of the plugin list stored under `key`: its trimmed text,
/// romanized when asked; `None` when it is not text, unless the key starts with `LATIN`.
pub open spec fn plugin_value(key: Seq<char>, text: Seq<char>, romanize: bool) -> Option<Seq<char>> {
    let t = trim_seq(text);
    if rejected_text(t) && !starts_with_seq(key, "LATIN"@) {
        None
    } else if romanize {
        Some(romanized(t))
    } else {
        Some(t)
    }
}

/// The line-file key of a string of the plugin list (see `plugin_value`).
pub fn plugin_text(key: &str, text: &str, romanize: bool) -> (r: Option<String>)
    ensures
        r matches Some(s) ==> plugin_value(key@, text@, romanize) == Some(s@),
        r is None ==> plugin_value(key@, text@, romanize) is None,
{
    let t = trim_chars(&chars_of(text));
    if is_rejected_text(&t) && !starts_with(&chars_of(key), &chars_of("LATIN")) {
        return None;
    }
    let t = if romanize {
        romanize_chars(&t)
    } else {
        t
    };
    Some(string_of(&t))
}

/// The translation for a string of the plugin list, taken from `queue` at `*cursor` when its
/// key is one of the queue's originals; the cursor then moves on by one. An empty translation
/// gives `None`.
pub fn plugin_translation(
    key: &str,
    text: &str,
    romanize: bool,
    queue: &Vec<(String, String)>,
    cursor: &mut usize,
) -> (r: Option<String>)
    ensures
        ({
            let q = pair_views(queue@);
            let known = plugin_value(key@, text@, romanize) matches Some(v) && exists|i: int|
                0 <= i < q.len() && q[i].0 == v;
            &&& known && *old(cursor) < q.len() ==> *final(cursor) == *old(cursor) + 1 && (if q[*old(
                cursor,
            ) as int].1.len() > 0 {
                r is Some
            } else {
                r is None
            })
            &&& !(known && *old(cursor) < q.len()) ==> *final(cursor) == *old(cursor) && r is None
        }),
        r matches Some(t) ==> t@ == pair_views(queue@)[*old(cursor) as int].1,
{
    let ghost q = pair_views(queue@);
    let v = match plugin_text(key, text, romanize) {
        Some(v) => v,
        None => {
            return None;
        },
    };
    let mut i: usize = 0;
    let mut known = false;
    while i < queue.len() && !known
        invariant
            i <= queue@.len(),
            q == pair_views(queue@),
            !known ==> forall|m: int| 0 <= m < i ==> q[m].0 != v@,
            known ==> exists|m: int| 0 <= m < q.len() && q[m].0 == v@,
        decreases queue.len() - i + if known { 0int } else { 1int },
    {
        if crate::text::same_chars(&chars_of(queue[i].0.as_str()), &chars_of(v.as_str())) {
            assert(q[i as int].0 == v@);
            known = true;
        } else {
            i += 1;
        }
    }
    if !known || *cursor >= queue.len() {
        return None;
    }
    let c = *cursor;
    *cursor = c + 1;
    let t = &queue[c].1;
    assert(q[c as int].1 == t@);
    if t.as_str().is_empty() {
        None
    } else {
        Some(t.clone())
    }
}

} // verus!
