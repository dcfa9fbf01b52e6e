//! The variable extractor: the text of the named fields of database records.
use crate::classify::{is_rejected_text, rejected_text, romanize_chars, romanized};
use crate::lexer::{normalize, normalized};
use crate::text::{
    chars_of, find_from, first_occurrence, starts_with, starts_with_seq, string_of, trim_chars,
    trim_range, trim_seq, trim_start_seq,
};
use crate::types::{EngineType, GameType, Variable};
use crate::walker::{join_lines, str_views};
use crate::writeback::{split_lines, split_text_lines};
use vstd::prelude::*;

verus! {

pub open spec fn is_terminal(c: char) -> bool {
    c == '.' || c == '%' || c == '!' || c == '"'
}

pub open spec fn is_ascii_alpha(c: char) -> bool {
    ('a' <= c && c <= 'z') || ('A' <= c && c <= 'Z')
}

/// Whether a note reads as the continuation of the description before it.
pub open spec fn continues(note: Seq<char>) -> bool {
    &&& note.len() >= 2
    &&& !starts_with_seq(note, "flesh puppetry"@)
    &&& !(note[0] == '.' || note[0] == '!' || note[0] == '/' || note[0] == '?')
    &&& ((note[0] == '\n' && note[1] != '\n') || is_ascii_alpha(note[0]) || note[0] == '"'
        || starts_with_seq(note, "4 sticks"@))
}

/// What a continuing note adds to its description: its first line, trimmed, on a line of its
/// own, when that line ends a sentence.
pub open spec fn description_tail(note: Seq<char>) -> Seq<char> {
    let t = trim_start_seq(note);
    match first_occurrence(t, seq!['\n'], 0) {
        Some(i) => {
            let left = trim_seq(t.subrange(0, i));
            if left.len() > 0 && is_terminal(left.last()) {
                seq!['\n'] + left
            } else {
                seq![]
            }
        },
        None => if note.len() > 0 && is_terminal(note.last()) {
            note
        } else {
            seq![]
        },
    }
}

/// What is left of a continuing note once its first line went to the description.
pub open spec fn note_rest(note: Seq<char>) -> Seq<char> {
    let t = trim_start_seq(note);
    match first_occurrence(t, seq!['\n'], 0) {
        Some(i) => t.subrange(i + 1, t.len() as int),
        None => seq![],
    }
}

/// `s` with each of its lines trimmed.
pub open spec fn trim_lines(s: Seq<char>) -> Seq<char> {
    join_lines(split_lines(s).map_values(|l: Seq<char>| trim_seq(l)))
}

pub open spec fn is_message(kind: Variable) -> bool {
    kind == Variable::Message1 || kind == Variable::Message2 || kind == Variable::Message3 || kind
        == Variable::Message4
}

/// The text of a field before the common checks: the title's rules applied.
pub open spec fn variable_text(
    t: Seq<char>,
    note: Seq<char>,
    kind: Variable,
    filename: Seq<char>,
    game: Option<GameType>,
) -> Option<Seq<char>> {
    if game == Some(GameType::Termina) {
        if is_message(kind) {
            None
        } else if kind == Variable::Description && continues(note) {
            Some(t + description_tail(note))
        } else if kind == Variable::Note && !starts_with_seq(filename, "Cl"@) && continues(t) {
            Some(note_rest(t))
        } else {
            Some(t)
        }
    } else {
        Some(t)
    }
}

/// The line-file key of a record field, or `None` when it carries no translatable text.
/// `note` is the record's note, which a description may continue into.
pub open spec fn variable_value(
    text: Seq<char>,
    note: Seq<char>,
    kind: Variable,
    filename: Seq<char>,
    game: Option<GameType>,
    engine: EngineType,
    romanize: bool,
) -> Option<Seq<char>> {
    let t0 = trim_seq(text);
    let t = if engine != EngineType::New {
        normalized(t0)
    } else {
        t0
    };
    if t0.len() == 0 {
        None
    } else {
        match variable_text(t, note, kind, filename, game) {
            None => None,
            Some(v) => {
                let w = trim_lines(v);
                if rejected_text(w) {
                    None
                } else if romanize {
                    Some(romanized(w))
                } else {
                    Some(w)
                }
            },
        }
    }
}

fn continues_exec(note: &[char]) -> (r: bool)
    ensures
        r == continues(note@),
{
    if note.len() < 2 {
        return false;
    }
    if starts_with(note, &chars_of("flesh puppetry")) {
        return false;
    }
    let c0 = note[0];
    let c1 = note[1];
    if c0 == '.' || c0 == '!' || c0 == '/' || c0 == '?' {
        return false;
    }
    (c0 == '\n' && c1 != '\n') || ('a' <= c0 && c0 <= 'z') || ('A' <= c0 && c0 <= 'Z') || c0 == '"'
        || starts_with(note, &chars_of("4 sticks"))
}

fn trim_start_chars(v: &[char]) -> (r: Vec<char>)
    ensures
        r@ == trim_start_seq(v@),
{
    let mut i: usize = 0;
    assert(v@.subrange(0, v@.len() as int) =~= v@);
    while i < v.len() && crate::text::is_ws_char(v[i])
        invariant
            i <= v@.len(),
            trim_start_seq(v@) == trim_start_seq(v@.subrange(i as int, v@.len() as int)),
        decreases v.len() - i,
    {
        assert(v@.subrange(i as int, v@.len() as int).drop_first() =~= v@.subrange(i + 1, v@.len() as int));
        i += 1;
    }
    crate::text::slice_chars(v, i, v.len())
}

fn description_tail_exec(note: &[char]) -> (r: Vec<char>)
    ensures
        r@ == description_tail(note@),
{
    let t = trim_start_chars(note);
    let nl = vec!['\n'];
    assert(nl@ == seq!['\n']);
    match find_from(&t, &nl, 0) {
        Some(i) => {
            let (a, b) = trim_range(&t, 0, i);
            let left = crate::text::slice_chars(&t, a, b);
            if left.len() > 0 {
                let c = left[left.len() - 1];
                if c == '.' || c == '%' || c == '!' || c == '"' {
                    let mut r = vec!['\n'];
                    let ghost lv = left@;
                    let mut l = left;
                    r.append(&mut l);
                    assert(r@ =~= seq!['\n'] + lv);
                    return r;
                }
            }
            Vec::new()
        },
        None => {
            if note.len() > 0 {
                let c = note[note.len() - 1];
                if c == '.' || c == '%' || c == '!' || c == '"' {
                    assert(note@.subrange(0, note@.len() as int) =~= note@);
                    return crate::text::slice_chars(note, 0, note.len());
                }
            }
            assert(!(note@.len() > 0 && is_terminal(note@.last())));
            Vec::new()
        },
    }
}

fn note_rest_exec(note: &[char]) -> (r: Vec<char>)
    ensures
        r@ == note_rest(note@),
{
    let t = trim_start_chars(note);
    let nl = vec!['\n'];
    assert(nl@ == seq!['\n']);
    match find_from(&t, &nl, 0) {
        Some(i) => {
            let n = t.len();
            assert(i < n);
            crate::text::slice_chars(&t, i + 1, n)
        },
        None => Vec::new(),
    }
}

fn trim_lines_exec(v: &[char]) -> (r: Vec<char>)
    ensures
        r@ == trim_lines(v@),
{
    let lines = split_text_lines(v);
    let ghost lv = lines@.map_values(|l: Vec<char>| l@);
    let ghost tv = lv.map_values(|l: Seq<char>| trim_seq(l));
    let mut r: Vec<char> = Vec::new();
    let mut i: usize = 0;
    while i < lines.len()
        invariant
            i <= lines@.len(),
            lv == lines@.map_values(|l: Vec<char>| l@),
            tv == lv.map_values(|l: Seq<char>| trim_seq(l)),
            r@ == join_lines(tv.take(i as int)),
        decreases lines.len() - i,
    {
        if i > 0 {
            r.push('\n');
        }
        let mut t = trim_chars(&lines[i]);
        r.append(&mut t);
        assert(tv.take(i + 1).drop_last() =~= tv.take(i as int));
        assert(r@ =~= join_lines(tv.take(i + 1)));
        i += 1;
    }
    assert(tv.take(lines@.len() as int) =~= tv);
    r
}

/// The line-file key of a record field (see `variable_value`).
pub fn process_variable(
    text: &str,
    note: &str,
    kind: Variable,
    filename: &str,
    game_type: Option<GameType>,
    engine_type: EngineType,
    romanize: bool,
) -> (r: Option<String>)
    ensures
        r matches Some(s) ==> variable_value(text@, note@, kind, filename@, game_type, engine_type, romanize)
            == Some(s@),
        r is None ==> variable_value(text@, note@, kind, filename@, game_type, engine_type, romanize) is None,
{
    let t0 = trim_chars(&chars_of(text));
    if t0.len() == 0 {
        return None;
    }
    let t = if engine_type != EngineType::New {
        normalize(&t0, 0, t0.len())
    } else {
        t0
    };
    assert(t0@.subrange(0, t0@.len() as int) =~= t0@);
    let v: Vec<char> = if game_type == Some(GameType::Termina) {
        let n = chars_of(note);
        if kind == Variable::Message1 || kind == Variable::Message2 || kind == Variable::Message3
            || kind == Variable::Message4 {
            return None;
        } else if kind == Variable::Description && continues_exec(&n) {
            let mut t = t;
            let mut tail = description_tail_exec(&n);
            t.append(&mut tail);
            t
        } else if kind == Variable::Note && !starts_with(&chars_of(filename), &chars_of("Cl"))
            && continues_exec(&t) {
            note_rest_exec(&t)
        } else {
            t
        }
    } else {
        t
    };
    let w = trim_lines_exec(&v);
    if is_rejected_text(&w) {
        return None;
    }
    let w = if romanize {
        romanize_chars(&w)
    } else {
        w
    };
    Some(string_of(&w))
}

/// The fields of a record, name first, in the order the extractor reads them.
pub open spec fn field_kind(k: int) -> Variable {
    if k == 0 {
        Variable::Name
    } else if k == 1 {
        Variable::Nickname
    } else if k == 2 {
        Variable::Description
    } else if k == 3 {
        Variable::Message1
    } else if k == 4 {
        Variable::Message2
    } else if k == 5 {
        Variable::Message3
    } else if k == 6 {
        Variable::Message4
    } else {
        Variable::Note
    }
}

/// The keys of the first `n` fields of a record, in order, untranslatable ones left out.
pub open spec fn record_keys_upto(
    fields: Seq<Seq<char>>,
    filename: Seq<char>,
    game: Option<GameType>,
    engine: EngineType,
    romanize: bool,
    n: int,
) -> Seq<Seq<char>>
    decreases n,
{
    if n <= 0 {
        seq![]
    } else {
        let prev = record_keys_upto(fields, filename, game, engine, romanize, n - 1);
        match variable_value(fields[n - 1], fields[7], field_kind(n - 1), filename, game, engine, romanize) {
            Some(v) => prev.push(v),
            None => prev,
        }
    }
}

/// The keys of a record: nothing when its name carries no text, else those of its fields.
pub open spec fn record_keys(
    fields: Seq<Seq<char>>,
    filename: Seq<char>,
    game: Option<GameType>,
    engine: EngineType,
    romanize: bool,
) -> Seq<Seq<char>> {
    if variable_value(fields[0], fields[7], Variable::Name, filename, game, engine, romanize) is None {
        seq![]
    } else {
        record_keys_upto(fields, filename, game, engine, romanize, 8)
    }
}

fn kind_at(k: usize) -> (r: Variable)
    ensures
        r == field_kind(k as int),
{
    match k {
        0 => Variable::Name,
        1 => Variable::Nickname,
        2 => Variable::Description,
        3 => Variable::Message1,
        4 => Variable::Message2,
        5 => Variable::Message3,
        6 => Variable::Message4,
        _ => Variable::Note,
    }
}

/// The keys of a database record whose eight fields, name, nickname, description, four
/// messages and note, hold `fields` (an absent field as an empty string).
pub fn extract_record(
    fields: &Vec<String>,
    filename: &str,
    game_type: Option<GameType>,
    engine_type: EngineType,
    romanize: bool,
) -> (r: Vec<String>)
    requires
        fields@.len() == 8,
    ensures
        str_views(r@) == record_keys(str_views(fields@), filename@, game_type, engine_type, romanize),
{
    let ghost fv = str_views(fields@);
    let mut r: Vec<String> = Vec::new();
    let note = fields[7].as_str();
    let mut k: usize = 0;
    while k < 8
        invariant
            k <= 8,
            fields@.len() == 8,
            fv == str_views(fields@),
            note@ == fv[7],
            str_views(r@) == record_keys_upto(fv, filename@, game_type, engine_type, romanize, k as int),
            k > 0 ==> variable_value(fv[0], fv[7], Variable::Name, filename@, game_type, engine_type, romanize) is Some,
        decreases 8 - k,
    {
        match process_variable(fields[k].as_str(), note, kind_at(k), filename, game_type, engine_type, romanize) {
            Some(v) => {
                let ghost rv = str_views(r@);
                r.push(v);
                assert(str_views(r@) =~= rv.push(v@));
            },
            None => {
                if k == 0 {
                    return Vec::new();
                }
            },
        }
        k += 1;
    }
    r
}

/// The line-file key of a system-file string: trimmed, romanized when asked; `None` when
/// nothing is left.
pub fn system_value(text: &str, romanize: bool) -> (r: Option<String>)
    ensures
        r matches Some(s) ==> trim_seq(text@).len() > 0 && s@ == (if romanize {
            romanized(trim_seq(text@))
        } else {
            trim_seq(text@)
        }),
        r is None <==> trim_seq(text@).len() == 0,
{
    let t = trim_chars(&chars_of(text));
    if t.len() == 0 {
        return None;
    }
    let t = if romanize {
        romanize_chars(&t)
    } else {
        t
    };
    Some(string_of(&t))
}

/// A field's translation as written back: message fields start with a space, except the
/// second message of skills; a title's notes start on a new line.
pub open spec fn finished_translation(t: Seq<char>, kind: Variable, filename: Seq<char>, game: Option<GameType>) -> Seq<char> {
    let a = if is_message(kind) && !(kind == Variable::Message2 && starts_with_seq(filename, "Sk"@)) {
        seq![' '] + t
    } else {
        t
    };
    if game == Some(GameType::Termina) && kind == Variable::Note && a.len() > 0 && a[0] != '\n' {
        seq!['\n'] + a
    } else {
        a
    }
}

/// The translation `table` gives a record field, as written back (see
/// `finished_translation`): `None` when the field has no key or the table no non-empty
/// translation for it.
pub fn translate_variable(
    text: &str,
    note: &str,
    kind: Variable,
    filename: &str,
    game_type: Option<GameType>,
    engine_type: EngineType,
    romanize: bool,
    table: &crate::table::TranslationTable,
) -> (r: Option<String>)
    requires
        table.wf(),
    ensures
        r matches Some(x) ==> (variable_value(text@, note@, kind, filename@, game_type, engine_type, romanize) matches Some(k)
            && crate::table::lookup(table@, k) matches Some(t) && t.len() > 0 && x@ == finished_translation(t, kind, filename@, game_type)),
        r is None ==> (variable_value(text@, note@, kind, filename@, game_type, engine_type, romanize) matches Some(k)
            ==> (crate::table::lookup(table@, k) matches Some(t) ==> t.len() == 0)),
{
    let k = match process_variable(text, note, kind, filename, game_type, engine_type, romanize) {
        Some(k) => k,
        None => {
            return None;
        },
    };
    let t = match table.get(k.as_str()) {
        Some(t) => t,
        None => {
            return None;
        },
    };
    if t.as_str().is_empty() {
        return None;
    }
    let mut a: Vec<char> = Vec::new();
    let message = kind == Variable::Message1 || kind == Variable::Message2 || kind == Variable::Message3
        || kind == Variable::Message4;
    if message && !(kind == Variable::Message2 && starts_with(&chars_of(filename), &chars_of("Sk"))) {
        a.push(' ');
    }
    let mut tv = chars_of(t.as_str());
    a.append(&mut tv);
    if game_type == Some(GameType::Termina) && kind == Variable::Note && a.len() > 0 && a[0] != '\n' {
        let mut b = vec!['\n'];
        b.append(&mut a);
        a = b;
    }
    Some(string_of(&a))
}

/// The menu categories one title names inside item notes.
pub open spec fn menu_category(k: int) -> Seq<char> {
    if k == 0 {
        "<Menu Category: Items>"@
    } else if k == 1 {
        "<Menu Category: Food>"@
    } else if k == 2 {
        "<Menu Category: Healing>"@
    } else {
        "<Menu Category: Body bag>"@
    }
}

fn menu_category_str(k: usize) -> (r: &'static str)
    ensures
        r@ == menu_category(k as int),
{
    if k == 0 {
        "<Menu Category: Items>"
    } else if k == 1 {
        "<Menu Category: Food>"
    } else if k == 2 {
        "<Menu Category: Healing>"
    } else {
        "<Menu Category: Body bag>"
    }
}

/// Whether a file's records carry the title's menu categories: its item file.
pub open spec fn has_menu_categories(filename: Seq<char>, game: Option<GameType>) -> bool {
    game == Some(GameType::Termina) && starts_with_seq(filename, "It"@)
}

/// The lines a file contributes before its records: the four menu categories for the title's
/// item file, else none.
pub fn menu_category_lines(filename: &str, game_type: Option<GameType>) -> (r: Vec<String>)
    ensures
        has_menu_categories(filename@, game_type) ==> r@.len() == 4 && forall|k: int|
            0 <= k < 4 ==> (#[trigger] r@[k])@ == menu_category(k),
        !has_menu_categories(filename@, game_type) ==> r@.len() == 0,
{
    let mut r: Vec<String> = Vec::new();
    if game_type == Some(GameType::Termina) && starts_with(&chars_of(filename), &chars_of("It")) {
        let mut k: usize = 0;
        while k < 4
            invariant
                k <= 4,
                r@.len() == k,
                forall|m: int| 0 <= m < k ==> (#[trigger] r@[m])@ == menu_category(m),
            decreases 4 - k,
        {
            r.push(string_of(&chars_of(menu_category_str(k))));
            k += 1;
        }
    }
    r
}

/// `s` with every occurrence of `p`, left to right, replaced by `t`.
pub open spec fn replaced(s: Seq<char>, p: Seq<char>, t: Seq<char>) -> Seq<char>
    decreases s.len(),
{
    if s.len() == 0 || p.len() == 0 {
        s
    } else if crate::text::occurs_at(s, p, 0) {
        t + replaced(s.subrange(p.len() as int, s.len() as int), p, t)
    } else {
        seq![s[0]] + replaced(s.subrange(1, s.len() as int), p, t)
    }
}

fn replace_all(s: &[char], p: &[char], t: &[char]) -> (r: Vec<char>)
    ensures
        r@ == replaced(s@, p@, t@),
{
    if p.len() == 0 {
        return crate::text::slice_chars(s, 0, s.len());
    }
    let mut r: Vec<char> = Vec::new();
    let mut i: usize = 0;
    assert(s@.subrange(0, s@.len() as int) =~= s@);
    while i < s.len()
        invariant
            i <= s@.len(),
            p@.len() > 0,
            r@ + replaced(s@.subrange(i as int, s@.len() as int), p@, t@) == replaced(s@, p@, t@),
        decreases s.len() - i,
    {
        let ghost rest = s@.subrange(i as int, s@.len() as int);
        let hit = crate::text::occurs(s, p, i);
        assert(hit == crate::text::occurs_at(rest, p@, 0)) by {
            if hit {
                assert(rest.subrange(0, p@.len() as int) =~= s@.subrange(i as int, i + p@.len()));
            }
            if crate::text::occurs_at(rest, p@, 0) {
                assert(rest.subrange(0, p@.len() as int) =~= s@.subrange(i as int, i + p@.len()));
            }
        }
        if hit {
            let ghost before = r@;
            let mut tv = crate::text::slice_chars(t, 0, t.len());
            assert(t@.subrange(0, t@.len() as int) =~= t@);
            r.append(&mut tv);
            assert(rest.subrange(p@.len() as int, rest.len() as int) =~= s@.subrange(i + p@.len(), s@.len() as int));
            assert(r@ + replaced(s@.subrange(i + p@.len(), s@.len() as int), p@, t@) =~= before + replaced(rest, p@, t@));
            i = i + p.len();
        } else {
            let ghost before = r@;
            r.push(s[i]);
            assert(rest.subrange(1, rest.len() as int) =~= s@.subrange(i + 1, s@.len() as int));
            assert(r@ + replaced(s@.subrange(i + 1, s@.len() as int), p@, t@) =~= before + replaced(rest, p@, t@));
            i += 1;
        }
    }
    assert(replaced(s@.subrange(i as int, s@.len() as int), p@, t@) =~= Seq::<char>::empty());
    assert(r@ + Seq::<char>::empty() =~= r@);
    r
}

/// A note with the menu categories `k..4` replaced, each by its translation in `table` when
/// that is not empty.
pub open spec fn categories_replaced(note: Seq<char>, table: Seq<crate::table::Entry>, k: int) -> Seq<char>
    decreases 4 - k,
{
    if k >= 4 {
        note
    } else {
        let next = match crate::table::lookup(table, menu_category(k)) {
            Some(t) => if t.len() > 0 {
                replaced(note, menu_category(k), t)
            } else {
                note
            },
            None => note,
        };
        categories_replaced(next, table, k + 1)
    }
}

/// An item note of the title with its menu categories translated (see
/// `categories_replaced`).
pub fn replace_menu_categories(note: &str, table: &crate::table::TranslationTable) -> (r: String)
    requires
        table.wf(),
    ensures
        r@ == categories_replaced(note@, table@, 0),
{
    let mut v = chars_of(note);
    let mut k: usize = 0;
    while k < 4
        invariant
            k <= 4,
            table.wf(),
            categories_replaced(note@, table@, 0) == categories_replaced(v@, table@, k as int),
        decreases 4 - k,
    {
        let cat = menu_category_str(k);
        match table.get(cat) {
            Some(t) => {
                if !t.as_str().is_empty() {
                    v = replace_all(&v, &chars_of(cat), &chars_of(t.as_str()));
                }
            },
            None => {},
        }
        k += 1;
    }
    string_of(&v)
}

} // verus!
