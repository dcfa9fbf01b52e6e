//! Map blocks of the map line file: the header records of each map and its merged lines.
use crate::merge::{merge_lines, merged, pair_views};
use crate::purge::{lit_comment, purged, removed};
use crate::table::{has_key, Entry, TranslationTable};
use crate::text::{chars_of, starts_with, starts_with_seq, string_of};
use crate::types::ProcessingMode;
use crate::walker::str_views;
use vstd::prelude::*;

verus! {

pub open spec fn is_ascii_digit(c: char) -> bool {
    '0' <= c && c <= '9'
}

/// The ASCII digits of `s`, in order.
pub open spec fn ascii_digits(s: Seq<char>) -> Seq<char>
    decreases s.len(),
{
    if s.len() == 0 {
        seq![]
    } else if is_ascii_digit(s.last()) {
        ascii_digits(s.drop_last()).push(s.last())
    } else {
        ascii_digits(s.drop_last())
    }
}

/// The number that decimal digits `d` write.
pub open spec fn digits_value(d: Seq<char>) -> nat
    decreases d.len(),
{
    if d.len() == 0 {
        0
    } else {
        digits_value(d.drop_last()) * 10 + (d.last() as nat - '0' as nat) as nat
    }
}

/// The first three ASCII digits of `s`, or all of them when there are fewer.
pub open spec fn leading_digits(s: Seq<char>) -> Seq<char> {
    let d = ascii_digits(s);
    if d.len() <= 3 {
        d
    } else {
        d.take(3)
    }
}

/// The map number in a file name or marker: the number its first three digits write.
pub fn parse_map_number(string: &str) -> (r: Option<u16>)
    ensures
        r is None <==> ascii_digits(string@).len() == 0,
        r matches Some(n) ==> n == digits_value(leading_digits(string@)),
{
    let v = chars_of(string);
    let mut digits: Vec<char> = Vec::new();
    let mut i: usize = 0;
    while i < v.len()
        invariant
            i <= v@.len(),
            v@ == string@,
            digits@ == ascii_digits(v@.take(i as int)),
        decreases v.len() - i,
    {
        assert(v@.take(i + 1).drop_last() =~= v@.take(i as int));
        if '0' <= v[i] && v[i] <= '9' {
            digits.push(v[i]);
        }
        i += 1;
    }
    assert(v@.take(v@.len() as int) =~= v@);
    if digits.len() == 0 {
        return None;
    }
    proof {
        lemma_ascii_digits_are_digits(string@);
    }
    let n = if digits.len() < 3 {
        digits.len()
    } else {
        3
    };
    let mut value: u16 = 0;
    let mut k: usize = 0;
    while k < n
        invariant
            k <= n <= 3,
            n <= digits@.len(),
            forall|m: int| 0 <= m < digits@.len() ==> is_ascii_digit(#[trigger] digits@[m]),
            value == digits_value(digits@.take(k as int)),
            value < if k == 0 { 1nat } else if k == 1 { 10nat } else if k == 2 { 100nat } else { 1000nat },
        decreases n - k,
    {
        assert(digits@.take(k + 1).drop_last() =~= digits@.take(k as int));
        assert(is_ascii_digit(digits@[k as int]));
        value = value * 10 + (digits[k] as u32 - '0' as u32) as u16;
        k += 1;
    }
    assert(digits@.take(n as int) =~= leading_digits(string@));
    Some(value)
}

proof fn lemma_ascii_digits_are_digits(s: Seq<char>)
    ensures
        forall|m: int| 0 <= m < ascii_digits(s).len() ==> is_ascii_digit(#[trigger] ascii_digits(s)[m]),
    decreases s.len(),
{
    if s.len() > 0 {
        lemma_ascii_digits_are_digits(s.drop_last());
        let p = ascii_digits(s.drop_last());
        assert forall|m: int| 0 <= m < ascii_digits(s).len() implies is_ascii_digit(
            #[trigger] ascii_digits(s)[m],
        ) by {
            if m < p.len() {
                assert(ascii_digits(s)[m] == p[m]);
            }
        }
    }
}

pub open spec fn digit_char(d: nat) -> char {
    if d == 0 {
        '0'
    } else if d == 1 {
        '1'
    } else if d == 2 {
        '2'
    } else if d == 3 {
        '3'
    } else if d == 4 {
        '4'
    } else if d == 5 {
        '5'
    } else if d == 6 {
        '6'
    } else if d == 7 {
        '7'
    } else if d == 8 {
        '8'
    } else {
        '9'
    }
}

/// `n` in decimal.
pub open spec fn decimal(n: nat) -> Seq<char>
    decreases n,
{
    if n < 10 {
        seq![digit_char(n)]
    } else {
        decimal(n / 10).push(digit_char(n % 10))
    }
}

fn digit_of(d: u64) -> (r: char)
    requires
        d < 10,
    ensures
        r == digit_char(d as nat),
{
    match d {
        0 => '0',
        1 => '1',
        2 => '2',
        3 => '3',
        4 => '4',
        5 => '5',
        6 => '6',
        7 => '7',
        8 => '8',
        _ => '9',
    }
}

fn decimal_chars(n: u64) -> (r: Vec<char>)
    ensures
        r@ == decimal(n as nat),
    decreases n,
{
    if n < 10 {
        vec![digit_of(n)]
    } else {
        let mut v = decimal_chars(n / 10);
        v.push(digit_of(n % 10));
        v
    }
}

/// `n` in decimal.
pub fn decimal_string(n: u64) -> (r: String)
    ensures
        r@ == decimal(n as nat),
{
    string_of(&decimal_chars(n))
}

/// The translation of the first in-game display-name record of a block, or none.
pub open spec fn display_translation(entries: Seq<Entry>) -> Seq<char>
    decreases entries.len(),
{
    if entries.len() == 0 {
        seq![]
    } else if starts_with_seq(entries[0].0, "<!-- In-game"@) {
        entries[0].1
    } else {
        display_translation(entries.drop_first())
    }
}

/// The header records of a map block: its number, its name, its in-game display name with
/// that name's translation, and its sort order.
pub open spec fn header_entries(
    number: u16,
    name: Seq<char>,
    display: Seq<char>,
    order: u64,
    display_tr: Seq<char>,
) -> Seq<Entry> {
    seq![("<!-- Map -->"@, decimal(number as nat))] + (if name.len() > 0 {
        seq![("<!-- Map Name: "@ + name + " -->"@, seq![])]
    } else {
        seq![]
    }) + (if display.len() > 0 {
        seq![("<!-- In-game Displayed Name: "@ + display + " -->"@, display_tr)]
    } else {
        seq![]
    }) + seq![("<!-- Order -->"@, decimal(order as nat))]
}

/// `s` after inserting `e`: an original already present keeps its place and takes the new
/// translation.
pub open spec fn inserted(s: Seq<Entry>, e: Entry) -> Seq<Entry> {
    if has_key(s, e.0) {
        s.update(choose|i: int| 0 <= i < s.len() && s[i].0 == e.0, e)
    } else {
        s.push(e)
    }
}

/// The table of the non-comment records of a block.
pub open spec fn body_table(entries: Seq<Entry>) -> Seq<Entry>
    decreases entries.len(),
{
    if entries.len() == 0 {
        seq![]
    } else {
        let prev = body_table(entries.drop_last());
        if starts_with_seq(entries.last().0, lit_comment()) {
            prev
        } else {
            inserted(prev, entries.last())
        }
    }
}

/// The table of the non-comment records of a saved block.
pub fn table_from_entries(entries: &Vec<(String, String)>) -> (r: TranslationTable)
    ensures
        r.wf(),
        r@ == body_table(pair_views(entries@)),
{
    let ghost ev = pair_views(entries@);
    let comment = vec!['<', '!', '-', '-'];
    assert(comment@ == lit_comment());
    let mut t = TranslationTable::new();
    let mut i: usize = 0;
    while i < entries.len()
        invariant
            i <= entries@.len(),
            ev == pair_views(entries@),
            comment@ == lit_comment(),
            t.wf(),
            t@ == body_table(ev.take(i as int)),
        decreases entries.len() - i,
    {
        assert(ev.take(i + 1).drop_last() =~= ev.take(i as int));
        let (o, tr) = &entries[i];
        if !starts_with(&chars_of(o.as_str()), &comment) {
            let ghost before = t@;
            t.insert(o.clone(), tr.clone());
            proof {
                if has_key(before, o@) {
                    let j = choose|j: int| 0 <= j < before.len() && before[j].0 == o@;
                    assert(t@ == before.update(j, (o@, tr@)));
                }
            }
        }
        i += 1;
    }
    assert(ev.take(entries@.len() as int) =~= ev);
    t
}

/// The records of one map: its header, then its extracted lines merged with those saved
/// for it. When appending, the in-game display name keeps its saved translation.
pub fn map_block(
    map_number: u16,
    map_name: &str,
    display_name: &str,
    order: u64,
    fresh: &Vec<String>,
    existing: &Vec<(String, String)>,
    processing_mode: ProcessingMode,
) -> (r: Vec<(String, String)>)
    ensures
        pair_views(r@) == header_entries(
            map_number,
            map_name@,
            display_name@,
            order,
            if processing_mode == ProcessingMode::Append {
                display_translation(pair_views(existing@))
            } else {
                seq![]
            },
        ) + merged(
            str_views(fresh@),
            body_table(pair_views(existing@)),
            processing_mode == ProcessingMode::Append,
        ),
        processing_mode == ProcessingMode::Append ==> forall|i: int|
            0 <= i < body_table(pair_views(existing@)).len() && str_views(fresh@).contains(
                #[trigger] body_table(pair_views(existing@))[i].0,
            ) ==> pair_views(r@).contains(body_table(pair_views(existing@))[i]),
{
    let append = processing_mode == ProcessingMode::Append;
    let ghost ev = pair_views(existing@);
    // the saved translation of the in-game display name
    let in_game = chars_of("<!-- In-game");
    let mut display_tr = String::new();
    if append {
        let mut i: usize = 0;
        let mut found = false;
        assert(ev.subrange(0, ev.len() as int) =~= ev);
        while i < existing.len() && !found
            invariant
                i <= existing@.len(),
                ev == pair_views(existing@),
                in_game@ == "<!-- In-game"@,
                !found ==> display_translation(ev) == display_translation(
                    ev.subrange(i as int, ev.len() as int),
                ),
                !found ==> display_tr@ == Seq::<char>::empty(),
                found ==> display_tr@ == display_translation(ev),
            decreases existing.len() - i + if found { 0int } else { 1int },
        {
            let ghost rest = ev.subrange(i as int, ev.len() as int);
            assert(rest.drop_first() =~= ev.subrange(i + 1, ev.len() as int));
            assert(rest[0] == (existing@[i as int].0@, existing@[i as int].1@));
            if starts_with(&chars_of(existing[i].0.as_str()), &in_game) {
                display_tr = existing[i].1.clone();
                found = true;
            } else {
                i += 1;
            }
        }
    }
    let mut r: Vec<(String, String)> = Vec::new();
    r.push(("<!-- Map -->".to_owned(), decimal_string(map_number as u64)));
    if !map_name.is_empty() {
        let mut name = chars_of("<!-- Map Name: ");
        name.append(&mut chars_of(map_name));
        name.append(&mut chars_of(" -->"));
        r.push((string_of(&name), String::new()));
    }
    if !display_name.is_empty() {
        let mut name = chars_of("<!-- In-game Displayed Name: ");
        name.append(&mut chars_of(display_name));
        name.append(&mut chars_of(" -->"));
        r.push((string_of(&name), display_tr));
    }
    r.push(("<!-- Order -->".to_owned(), decimal_string(order)));
    let ghost hv = pair_views(r@);
    let table = table_from_entries(existing);
    let merged_table = merge_lines(fresh, &table, processing_mode);
    let body = merged_table.entries();
    let ghost bv = pair_views(body@);
    assert(bv =~= merged_table@);
    assert(bv =~= merged(str_views(fresh@), body_table(ev), append));
    let mut body = body;
    r.append(&mut body);
    assert(pair_views(r@) =~= hv + bv);
    proof {
        if append {
            let bt = body_table(ev);
            assert forall|i: int|
                0 <= i < bt.len() && str_views(fresh@).contains(#[trigger] bt[i].0) implies pair_views(
                r@,
            ).contains(bt[i]) by {
                let k = bt[i].0;
                assert(crate::table::lookup(bv, k) == Some(bt[i].1));
                let m = choose|m: int| 0 <= m < bv.len() && bv[m].0 == k;
                assert(bv[m] == bt[i]);
                assert(pair_views(r@)[hv.len() + m] == bt[i]);
            }
        }
    }
    r
}

/// The records of a map block have distinct originals, headers included, as long as no
/// extracted line looks like a comment record.
pub proof fn lemma_map_block_unique(
    number: u16,
    name: Seq<char>,
    display: Seq<char>,
    order: u64,
    display_tr: Seq<char>,
    fresh: Seq<Seq<char>>,
    saved: Seq<Entry>,
    append: bool,
)
    requires
        forall|i: int| 0 <= i < fresh.len() ==> !starts_with_seq(#[trigger] fresh[i], lit_comment()),
    ensures
        crate::table::keys_unique(
            header_entries(number, name, display, order, display_tr) + merged(fresh, saved, append),
        ),
{
    reveal_strlit("<!-- Map -->");
    reveal_strlit("<!-- Map Name: ");
    reveal_strlit("<!-- In-game Displayed Name: ");
    reveal_strlit("<!-- Order -->");
    let h = header_entries(number, name, display, order, display_tr);
    let b = merged(fresh, saved, append);
    let all = h + b;
    crate::merge::lemma_merge_has_no_duplicate_originals(fresh, saved, append);
    assert forall|i: int| 0 <= i < h.len() implies (#[trigger] h[i]).0.len() >= 10 && starts_with_seq(
        h[i].0,
        lit_comment(),
    ) by {
        assert(h[i].0.subrange(0, 4) =~= lit_comment());
    }
    assert forall|i: int, j: int| 0 <= i < h.len() && 0 <= j < h.len() && i != j implies h[i].0[5]
        != h[j].0[5] || h[i].0[9] != h[j].0[9] by {}
    let d = crate::merge::dedup(fresh);
    assert forall|m: int| 0 <= m < b.len() implies !starts_with_seq(#[trigger] b[m].0, lit_comment()) by {
        assert(b[m].0 == d[m]);
        crate::merge::lemma_dedup_contains(fresh, d[m]);
        assert(d.contains(d[m]));
    }
    assert forall|i: int, j: int| 0 <= i < all.len() && 0 <= j < all.len() && i != j implies all[i].0
        != all[j].0 by {
        if i < h.len() && j < h.len() {
            if h[i].0[5] != h[j].0[5] {
            } else {
                assert(h[i].0[9] != h[j].0[9]);
            }
        } else if i >= h.len() && j >= h.len() {
            assert(all[i] == b[i - h.len()] && all[j] == b[j - h.len()]);
        } else if i < h.len() {
            assert(all[j] == b[j - h.len()]);
            assert(starts_with_seq(all[i].0, lit_comment()));
        } else {
            assert(all[i] == b[i - h.len()]);
            assert(starts_with_seq(all[j].0, lit_comment()));
        }
    }
}

/// The lines of `fresh` that are not in `seen`, in order.
pub open spec fn unseen(fresh: Seq<Seq<char>>, seen: Seq<Seq<char>>) -> Seq<Seq<char>>
    decreases fresh.len(),
{
    if fresh.len() == 0 {
        seq![]
    } else if seen.contains(fresh.last()) {
        unseen(fresh.drop_last(), seen)
    } else {
        unseen(fresh.drop_last(), seen).push(fresh.last())
    }
}

/// Leaves out the lines that an earlier map already gave, and records the others as given.
pub fn drop_seen(fresh: &Vec<String>, seen: &mut Vec<String>) -> (r: Vec<String>)
    ensures
        str_views(r@) == unseen(str_views(fresh@), str_views(old(seen)@)),
        str_views(final(seen)@) == str_views(old(seen)@) + str_views(r@),
{
    let ghost fv = str_views(fresh@);
    let ghost sv = str_views(seen@);
    let mut r: Vec<String> = Vec::new();
    let mut i: usize = 0;
    while i < fresh.len()
        invariant
            i <= fresh@.len(),
            fv == str_views(fresh@),
            sv == str_views(old(seen)@),
            seen@ == old(seen)@,
            str_views(r@) == unseen(fv.take(i as int), sv),
        decreases fresh.len() - i,
    {
        assert(fv.take(i + 1).drop_last() =~= fv.take(i as int));
        if !crate::purge::contains_string(seen, fresh[i].as_str()) {
            let ghost rv = str_views(r@);
            r.push(fresh[i].clone());
            assert(str_views(r@) =~= rv.push(fresh@[i as int]@));
        }
        i += 1;
    }
    assert(fv.take(fresh@.len() as int) =~= fv);
    let mut k: usize = 0;
    while k < r.len()
        invariant
            k <= r@.len(),
            sv == str_views(old(seen)@),
            str_views(seen@) == sv + str_views(r@).take(k as int),
        decreases r.len() - k,
    {
        let ghost before = str_views(seen@);
        seen.push(r[k].clone());
        assert(str_views(seen@) =~= before.push(r@[k as int]@));
        assert(str_views(r@).take(k + 1) =~= str_views(r@).take(k as int).push(r@[k as int]@));
        k += 1;
    }
    assert(str_views(r@).take(r@.len() as int) =~= str_views(r@));
    r
}

/// Saved records cut into blocks, each starting at a map-number record; records before the
/// first one form a block of their own.
pub open spec fn blocks_of(entries: Seq<Entry>) -> Seq<Seq<Entry>>
    decreases entries.len(),
{
    if entries.len() == 0 {
        seq![]
    } else {
        let prev = blocks_of(entries.drop_last());
        let e = entries.last();
        if e.0 == "<!-- Map -->"@ || prev.len() == 0 {
            prev.push(seq![e])
        } else {
            prev.update(prev.len() - 1, prev.last().push(e))
        }
    }
}

/// Cuts saved records into map blocks (see `blocks_of`).
pub fn split_map_blocks(entries: &Vec<(String, String)>) -> (r: Vec<Vec<(String, String)>>)
    ensures
        r@.map_values(|b: Vec<(String, String)>| pair_views(b@)) == blocks_of(pair_views(entries@)),
{
    let ghost ev = pair_views(entries@);
    let marker = chars_of("<!-- Map -->");
    let mut r: Vec<Vec<(String, String)>> = Vec::new();
    let mut cur: Vec<(String, String)> = Vec::new();
    let mut started = false;
    let mut i: usize = 0;
    while i < entries.len()
        invariant
            i <= entries@.len(),
            ev == pair_views(entries@),
            marker@ == "<!-- Map -->"@,
            started == (i > 0),
            !started ==> r@.len() == 0 && cur@.len() == 0,
            started ==> r@.map_values(|b: Vec<(String, String)>| pair_views(b@)).push(pair_views(cur@))
                == blocks_of(ev.take(i as int)),
        decreases entries.len() - i,
    {
        assert(ev.take(i + 1).drop_last() =~= ev.take(i as int));
        let ghost rv = r@.map_values(|b: Vec<(String, String)>| pair_views(b@));
        let ghost cv = pair_views(cur@);
        let e = (entries[i].0.clone(), entries[i].1.clone());
        let is_marker = crate::text::same_chars(&chars_of(entries[i].0.as_str()), &marker);
        assert(ev.take(i + 1).last() == (e.0@, e.1@));
        assert(started ==> blocks_of(ev.take(i as int)).len() > 0);
        if is_marker || !started {
            if started {
                r.push(cur);
                assert(r@.map_values(|b: Vec<(String, String)>| pair_views(b@)) =~= rv.push(cv));
            } else {
                assert(ev.take(i as int) =~= Seq::<Entry>::empty());
                assert(r@.map_values(|b: Vec<(String, String)>| pair_views(b@)) =~= Seq::<Seq<Entry>>::empty());
            }
            cur = Vec::new();
            cur.push(e);
            assert(pair_views(cur@) =~= seq![(e.0@, e.1@)]);
            let ghost prev = blocks_of(ev.take(i as int));
            assert(e.0@ == "<!-- Map -->"@ || prev.len() == 0);
            assert(blocks_of(ev.take(i + 1)) == prev.push(seq![(e.0@, e.1@)]));
            assert(r@.map_values(|b: Vec<(String, String)>| pair_views(b@)) == prev);
            assert(r@.map_values(|b: Vec<(String, String)>| pair_views(b@)).push(pair_views(cur@))
                =~= blocks_of(ev.take(i + 1)));
        } else {
            cur.push(e);
            assert(pair_views(cur@) =~= cv.push((e.0@, e.1@)));
            assert(rv.push(pair_views(cur@)) =~= rv.push(cv).update(rv.len() as int, cv.push((e.0@, e.1@))));
            assert(!(e.0@ == "<!-- Map -->"@));
            assert(rv.push(pair_views(cur@)) =~= blocks_of(ev.take(i + 1)));
        }
        started = true;
        i += 1;
    }
    if started {
        let ghost rv = r@.map_values(|b: Vec<(String, String)>| pair_views(b@));
        r.push(cur);
        assert(r@.map_values(|b: Vec<(String, String)>| pair_views(b@)) =~= rv.push(pair_views(cur@)));
    } else {
        assert(r@.map_values(|b: Vec<(String, String)>| pair_views(b@)) =~= Seq::<Seq<Entry>>::empty());
    }
    assert(ev.take(entries@.len() as int) =~= ev);
    r
}

/// Entries with the header values of a fresh extraction put back: entry `k` takes `payloads[k]`
/// when that is not empty.
pub open spec fn with_payloads(entries: Seq<Entry>, payloads: Seq<Seq<char>>) -> Seq<Entry> {
    Seq::new(
        entries.len(),
        |k: int|
            if k < payloads.len() && payloads[k].len() > 0 {
                (entries[k].0, payloads[k])
            } else {
                entries[k]
            },
    )
}

/// Puts the header values of a fresh extraction back into merged entries (see
/// `with_payloads`).
pub fn fill_payloads(entries: Vec<(String, String)>, payloads: &Vec<String>) -> (r: Vec<(String, String)>)
    ensures
        pair_views(r@) == with_payloads(pair_views(entries@), str_views(payloads@)),
        r@.len() == entries@.len(),
{
    let ghost ev = pair_views(entries@);
    let ghost pv = str_views(payloads@);
    let mut r: Vec<(String, String)> = Vec::new();
    let mut k: usize = 0;
    while k < entries.len()
        invariant
            k <= entries@.len(),
            ev == pair_views(entries@),
            pv == str_views(payloads@),
            pair_views(r@) == with_payloads(ev, pv).take(k as int),
        decreases entries.len() - k,
    {
        let e = if k < payloads.len() && !payloads[k].as_str().is_empty() {
            (entries[k].0.clone(), payloads[k].clone())
        } else {
            (entries[k].0.clone(), entries[k].1.clone())
        };
        let ghost rv = pair_views(r@);
        assert(ev[k as int] == (entries@[k as int].0@, entries@[k as int].1@));
        assert(k < payloads@.len() ==> pv[k as int] == payloads@[k as int]@);
        assert(with_payloads(ev, pv)[k as int] == (e.0@, e.1@));
        let ghost ep = (e.0@, e.1@);
        r.push(e);
        assert(pair_views(r@) =~= rv.push(ep));
        assert(with_payloads(ev, pv).take(k + 1) =~= with_payloads(ev, pv).take(k as int).push(ep));
        k += 1;
    }
    assert(with_payloads(ev, pv).take(entries@.len() as int) =~= with_payloads(ev, pv));
    r
}

/// The number of a map block: the number its first record's value writes, if any.
pub open spec fn block_number(block: Seq<Entry>) -> Option<nat> {
    if block.len() > 0 && ascii_digits(block[0].1).len() > 0 {
        Some(digits_value(leading_digits(block[0].1)))
    } else {
        None
    }
}

/// The lines extracted from map `n`: those given for its first occurrence in `maps`, or none.
pub open spec fn lines_of_map(maps: Seq<(u16, Seq<Seq<char>>)>, n: Option<nat>) -> Seq<Seq<char>>
    decreases maps.len(),
{
    if maps.len() == 0 {
        seq![]
    } else if n == Some(maps[0].0 as nat) {
        maps[0].1
    } else {
        lines_of_map(maps.drop_first(), n)
    }
}

pub open spec fn map_views(maps: Seq<(u16, Vec<String>)>) -> Seq<(u16, Seq<Seq<char>>)> {
    maps.map_values(|m: (u16, Vec<String>)| (m.0, str_views(m.1@)))
}

/// The kept and the removed records of the first `n` blocks, each block purged against the
/// lines of its own map.
pub open spec fn purged_blocks(
    blocks: Seq<Seq<Entry>>,
    maps: Seq<(u16, Seq<Seq<char>>)>,
    leave_filled: bool,
    n: int,
) -> (Seq<Entry>, Seq<Entry>)
    decreases n,
{
    if n <= 0 {
        (seq![], seq![])
    } else {
        let (k, g) = purged_blocks(blocks, maps, leave_filled, n - 1);
        let b = blocks[n - 1];
        let f = lines_of_map(maps, block_number(b));
        (k + purged(b, f, leave_filled), g + removed(b, f, leave_filled))
    }
}

fn copy_strings(v: &Vec<String>) -> (r: Vec<String>)
    ensures
        str_views(r@) == str_views(v@),
{
    let mut r: Vec<String> = Vec::new();
    let mut j: usize = 0;
    while j < v.len()
        invariant
            j <= v@.len(),
            str_views(r@) == str_views(v@).take(j as int),
        decreases v.len() - j,
    {
        let ghost rv = str_views(r@);
        r.push(v[j].clone());
        assert(str_views(r@) =~= rv.push(v@[j as int]@));
        assert(str_views(v@).take(j + 1) =~= str_views(v@).take(j as int).push(v@[j as int]@));
        j += 1;
    }
    assert(str_views(v@).take(v@.len() as int) =~= str_views(v@));
    r
}

fn find_map_lines(maps: &Vec<(u16, Vec<String>)>, n: Option<u16>) -> (r: Vec<String>)
    ensures
        str_views(r@) == lines_of_map(map_views(maps@), match n {
            Some(x) => Some(x as nat),
            None => None,
        }),
{
    let ghost mv = map_views(maps@);
    let ghost target = match n {
        Some(x) => Some(x as nat),
        None => None::<nat>,
    };
    let mut i: usize = 0;
    assert(mv.subrange(0, mv.len() as int) =~= mv);
    while i < maps.len()
        invariant
            i <= maps@.len(),
            mv == map_views(maps@),
            target == match n {
                Some(x) => Some(x as nat),
                None => None::<nat>,
            },
            lines_of_map(mv, target) == lines_of_map(mv.subrange(i as int, mv.len() as int), target),
        decreases maps.len() - i,
    {
        let ghost rest = mv.subrange(i as int, mv.len() as int);
        assert(rest.drop_first() =~= mv.subrange(i + 1, mv.len() as int));
        assert(rest[0] == (maps@[i as int].0, str_views(maps@[i as int].1@)));
        match n {
            Some(x) => {
                if maps[i].0 == x {
                    return copy_strings(&maps[i].1);
                }
                assert(target != Some(maps@[i as int].0 as nat));
            },
            None => {},
        }
        i += 1;
    }
    Vec::new()
}

/// Purges a saved map line file block by block: each block loses the records that the lines
/// of its own map no longer hold (see `purge_entries`). Returns the kept and the removed
/// records, in order.
pub fn purge_maps(saved: &Vec<(String, String)>, maps: &Vec<(u16, Vec<String>)>, leave_filled: bool) -> (r: (
    Vec<(String, String)>,
    Vec<(String, String)>,
))
    ensures
        (pair_views(r.0@), pair_views(r.1@)) == purged_blocks(
            blocks_of(pair_views(saved@)),
            map_views(maps@),
            leave_filled,
            blocks_of(pair_views(saved@)).len() as int,
        ),
{
    let blocks = split_map_blocks(saved);
    let ghost bv = blocks@.map_values(|b: Vec<(String, String)>| pair_views(b@));
    let mut kept: Vec<(String, String)> = Vec::new();
    let mut gone: Vec<(String, String)> = Vec::new();
    let mut i: usize = 0;
    while i < blocks.len()
        invariant
            i <= blocks@.len(),
            bv == blocks@.map_values(|b: Vec<(String, String)>| pair_views(b@)),
            bv == blocks_of(pair_views(saved@)),
            (pair_views(kept@), pair_views(gone@)) == purged_blocks(bv, map_views(maps@), leave_filled, i as int),
        decreases blocks.len() - i,
    {
        let block = &blocks[i];
        assert(bv[i as int] == pair_views(block@));
        let number = if block.len() > 0 {
            parse_map_number(block[0].1.as_str())
        } else {
            None
        };
        assert(block@.len() > 0 ==> pair_views(block@)[0].1 == block@[0].1@);
        let lines = find_map_lines(maps, number);
        let (mut k, mut g) = crate::purge::purge_entries(block, &lines, leave_filled);
        let ghost kv = pair_views(kept@);
        let ghost gv = pair_views(gone@);
        let ghost k1 = pair_views(k@);
        let ghost g1 = pair_views(g@);
        kept.append(&mut k);
        gone.append(&mut g);
        assert(pair_views(kept@) =~= kv + k1);
        assert(pair_views(gone@) =~= gv + g1);
        i += 1;
    }
    (kept, gone)
}

/// The record key of a common event's or troop's name.
pub fn event_name_comment(name: &str) -> (r: String)
    ensures
        r@ == "<!-- Event Name: "@ + name@ + " -->"@,
{
    let mut v = chars_of("<!-- Event Name: ");
    v.append(&mut chars_of(name));
    v.append(&mut chars_of(" -->"));
    string_of(&v)
}

/// The translation of the first record, from position `from` on, whose original is `key`
/// and whose translation is not empty.
pub open spec fn first_translation(entries: Seq<Entry>, key: Seq<char>, from: int) -> Option<Seq<char>>
    decreases entries.len() - from,
{
    if from < 0 || from >= entries.len() {
        None
    } else if entries[from].0 == key && entries[from].1.len() > 0 {
        Some(entries[from].1)
    } else {
        first_translation(entries, key, from + 1)
    }
}

/// The translation of a map's in-game display name in saved records.
pub fn display_name_translation(entries: &Vec<(String, String)>, display_name: &str) -> (r: Option<String>)
    ensures
        r matches Some(t) ==> first_translation(
            pair_views(entries@),
            "<!-- In-game Displayed Name: "@ + display_name@ + " -->"@,
            0,
        ) == Some(t@),
        r is None ==> first_translation(
            pair_views(entries@),
            "<!-- In-game Displayed Name: "@ + display_name@ + " -->"@,
            0,
        ) is None,
{
    let ghost ev = pair_views(entries@);
    let mut key = chars_of("<!-- In-game Displayed Name: ");
    key.append(&mut chars_of(display_name));
    key.append(&mut chars_of(" -->"));
    let ghost kv = key@;
    assert(kv == "<!-- In-game Displayed Name: "@ + display_name@ + " -->"@);
    let mut i: usize = 0;
    while i < entries.len()
        invariant
            i <= entries@.len(),
            ev == pair_views(entries@),
            key@ == kv,
            kv == "<!-- In-game Displayed Name: "@ + display_name@ + " -->"@,
            first_translation(ev, kv, 0) == first_translation(ev, kv, i as int),
        decreases entries.len() - i,
    {
        assert(ev[i as int] == (entries@[i as int].0@, entries@[i as int].1@));
        if crate::text::same_chars(&chars_of(entries[i].0.as_str()), &key) && !entries[i].1.as_str().is_empty() {
            let t = entries[i].1.clone();
            assert(t@ == entries@[i as int].1@);
            assert(first_translation(ev, kv, i as int) == Some(ev[i as int].1));
            return Some(t);
        }
        i += 1;
    }
    None
}

/// The lines of the first `n` maps for a read that keeps duplicates: each map's header
/// records' originals, then its extracted lines.
pub open spec fn preserve_fresh(maps: Seq<(Seq<Entry>, Seq<Seq<char>>)>, n: int) -> Seq<Seq<char>>
    decreases n,
{
    if n <= 0 {
        seq![]
    } else {
        preserve_fresh(maps, n - 1) + maps[n - 1].0.map_values(|e: Entry| e.0) + maps[n - 1].1
    }
}

/// The header values that go with `preserve_fresh`: each header record's value, and none
/// for an extracted line.
pub open spec fn preserve_payloads(maps: Seq<(Seq<Entry>, Seq<Seq<char>>)>, n: int) -> Seq<Seq<char>>
    decreases n,
{
    if n <= 0 {
        seq![]
    } else {
        preserve_payloads(maps, n - 1) + maps[n - 1].0.map_values(|e: Entry| e.1) + Seq::new(
            maps[n - 1].1.len(),
            |k: int| Seq::<char>::empty(),
        )
    }
}

pub open spec fn block_views(maps: Seq<(Vec<(String, String)>, Vec<String>)>) -> Seq<(Seq<Entry>, Seq<Seq<char>>)> {
    maps.map_values(|m: (Vec<(String, String)>, Vec<String>)| (pair_views(m.0@), str_views(m.1@)))
}

/// Reads all maps keeping duplicates: the header records and lines of every map, in order,
/// merged with the saved records (see `merge_preserve`), the headers keeping their fresh
/// values. Entry `k` holds the `k`-th of those lines; without appending there are no others.
pub fn read_preserved_maps(
    maps: &Vec<(Vec<(String, String)>, Vec<String>)>,
    saved: Vec<(String, String)>,
    processing_mode: ProcessingMode,
) -> (r: Vec<(String, String)>)
    ensures
        pair_views(r@) == with_payloads(
            crate::merge::preserve_merged(
                preserve_fresh(block_views(maps@), maps@.len() as int),
                pair_views(saved@),
                processing_mode == ProcessingMode::Append,
            ),
            preserve_payloads(block_views(maps@), maps@.len() as int),
        ),
        r@.len() >= preserve_fresh(block_views(maps@), maps@.len() as int).len(),
        forall|k: int|
            0 <= k < preserve_fresh(block_views(maps@), maps@.len() as int).len() ==> (#[trigger] r@[k]).0@
                == preserve_fresh(block_views(maps@), maps@.len() as int)[k],
        processing_mode != ProcessingMode::Append ==> r@.len() == preserve_fresh(
            block_views(maps@),
            maps@.len() as int,
        ).len(),
{
    let ghost mv = block_views(maps@);
    let mut fresh: Vec<String> = Vec::new();
    let mut payloads: Vec<String> = Vec::new();
    let mut i: usize = 0;
    while i < maps.len()
        invariant
            i <= maps@.len(),
            mv == block_views(maps@),
            str_views(fresh@) == preserve_fresh(mv, i as int),
            str_views(payloads@) == preserve_payloads(mv, i as int),
        decreases maps.len() - i,
    {
        let header = &maps[i].0;
        let lines = &maps[i].1;
        let ghost f0 = str_views(fresh@);
        let ghost p0 = str_views(payloads@);
        let mut j: usize = 0;
        while j < header.len()
            invariant
                j <= header@.len(),
                header == &maps@[i as int].0,
                str_views(fresh@) == f0 + pair_views(header@).take(j as int).map_values(|e: Entry| e.0),
                str_views(payloads@) == p0 + pair_views(header@).take(j as int).map_values(|e: Entry| e.1),
            decreases header.len() - j,
        {
            let ghost fv = str_views(fresh@);
            let ghost pv = str_views(payloads@);
            fresh.push(header[j].0.clone());
            payloads.push(header[j].1.clone());
            assert(str_views(fresh@) =~= fv.push(header@[j as int].0@));
            assert(str_views(payloads@) =~= pv.push(header@[j as int].1@));
            assert(pair_views(header@).take(j + 1).map_values(|e: Entry| e.0) =~= pair_views(header@).take(
                j as int,
            ).map_values(|e: Entry| e.0).push(header@[j as int].0@));
            assert(pair_views(header@).take(j + 1).map_values(|e: Entry| e.1) =~= pair_views(header@).take(
                j as int,
            ).map_values(|e: Entry| e.1).push(header@[j as int].1@));
            j += 1;
        }
        assert(pair_views(header@).take(header@.len() as int) =~= pair_views(header@));
        let ghost f1 = str_views(fresh@);
        let ghost p1 = str_views(payloads@);
        let mut j: usize = 0;
        while j < lines.len()
            invariant
                j <= lines@.len(),
                lines == &maps@[i as int].1,
                str_views(fresh@) == f1 + str_views(lines@).take(j as int),
                str_views(payloads@) == p1 + Seq::new(j as nat, |k: int| Seq::<char>::empty()),
            decreases lines.len() - j,
        {
            let ghost fv = str_views(fresh@);
            let ghost pv = str_views(payloads@);
            fresh.push(lines[j].clone());
            payloads.push(String::new());
            assert(str_views(fresh@) =~= fv.push(lines@[j as int]@));
            assert(str_views(payloads@) =~= pv.push(Seq::<char>::empty()));
            assert(str_views(lines@).take(j + 1) =~= str_views(lines@).take(j as int).push(lines@[j as int]@));
            assert(Seq::new((j + 1) as nat, |k: int| Seq::<char>::empty()) =~= Seq::new(
                j as nat,
                |k: int| Seq::<char>::empty(),
            ).push(Seq::<char>::empty()));
            j += 1;
        }
        assert(str_views(lines@).take(lines@.len() as int) =~= str_views(lines@));
        assert(mv[i as int] == (pair_views(header@), str_views(lines@)));
        assert(str_views(fresh@) =~= preserve_fresh(mv, i + 1));
        assert(str_views(payloads@) =~= preserve_payloads(mv, i + 1));
        i += 1;
    }
    let merged = crate::merge::merge_preserve(&fresh, saved, processing_mode);
    let ghost mlen = merged@.len();
    let r = fill_payloads(merged, &payloads);
    assert(r@.len() == mlen);
    assert forall|k: int| 0 <= k < preserve_fresh(mv, maps@.len() as int).len() implies (#[trigger] r@[k]).0@
        == preserve_fresh(mv, maps@.len() as int)[k] by {
        assert(pair_views(r@)[k] == (r@[k].0@, r@[k].1@));
        assert(pair_views(merged@)[k] == (merged@[k].0@, merged@[k].1@));
    }
    r
}

} // verus!
