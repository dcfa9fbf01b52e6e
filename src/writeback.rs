//! The write-back matcher: finds the translation of each extracted text and puts it back
//! into the command list, spreading a dialogue block's translation over its commands.
use crate::classify::{classified, process_parameter};
use crate::table::{lookup, Entry, TranslationTable};
use crate::text::{chars_of, string_of};
use crate::types::{text_slot, text_slot_of, Code, EngineType, GameType};
use crate::walker::{
    collect_occurrences, join_lines, occ_views, walk, Command, OccView, Occurrence, Parameter,
};
use vstd::prelude::*;

verus! {

/// A parameter as the write-back sees it.
pub enum ParamView {
    Text(Seq<char>),
    List(Seq<Seq<char>>),
    Other,
}

pub open spec fn param_view(p: Parameter) -> ParamView {
    match p {
        Parameter::Text(s) => ParamView::Text(s@),
        Parameter::List(v) => ParamView::List(v@.map_values(|s: String| s@)),
        Parameter::Other => ParamView::Other,
    }
}

/// (code, parameters)
pub type CmdView = (u16, Seq<ParamView>);

pub open spec fn cmd_view(c: Command) -> CmdView {
    (c.code, c.parameters@.map_values(|p: Parameter| param_view(p)))
}

pub open spec fn cmd_views(v: Seq<Command>) -> Seq<CmdView> {
    v.map_values(|c: Command| cmd_view(c))
}

/// `s` cut at each line feed.
pub open spec fn split_lines(s: Seq<char>) -> Seq<Seq<char>>
    decreases s.len(),
{
    if s.len() == 0 {
        seq![seq![]]
    } else {
        let r = split_lines(s.drop_last());
        if s.last() == '\n' {
            r.push(seq![])
        } else {
            r.update(r.len() - 1, r.last().push(s.last()))
        }
    }
}

pub proof fn lemma_split_nonempty(s: Seq<char>)
    ensures
        split_lines(s).len() >= 1,
    decreases s.len(),
{
    if s.len() > 0 {
        lemma_split_nonempty(s.drop_last());
    }
}

/// The contents of `n` command slots refilled from translated `lines`: one line per slot, a
/// single space in each slot left over, and every surplus line joined into the last slot.
pub open spec fn resplit(lines: Seq<Seq<char>>, n: nat) -> Seq<Seq<char>> {
    Seq::new(
        n,
        |k: int|
            if k < lines.len() {
                if k == n - 1 && lines.len() > n {
                    join_lines(lines.subrange(n - 1, lines.len() as int))
                } else {
                    lines[k]
                }
            } else {
                seq![' ']
            },
    )
}

/// `s` cut at each line feed.
pub fn split_text_lines(s: &[char]) -> (r: Vec<Vec<char>>)
    ensures
        r@.map_values(|v: Vec<char>| v@) == split_lines(s@),
{
    let mut r: Vec<Vec<char>> = Vec::new();
    let mut cur: Vec<char> = Vec::new();
    let mut i: usize = 0;
    while i < s.len()
        invariant
            i <= s@.len(),
            r@.map_values(|v: Vec<char>| v@).push(cur@) == split_lines(s@.take(i as int)),
        decreases s.len() - i,
    {
        let ghost before = r@.map_values(|v: Vec<char>| v@);
        let ghost cv = cur@;
        assert(s@.take(i + 1).drop_last() =~= s@.take(i as int));
        assert(s@.take(i + 1).last() == s@[i as int]);
        if s[i] == '\n' {
            r.push(cur);
            cur = Vec::new();
            assert(r@.map_values(|v: Vec<char>| v@) =~= before.push(cv));
            assert(r@.map_values(|v: Vec<char>| v@).push(cur@) =~= before.push(cv).push(seq![]));
        } else {
            cur.push(s[i]);
            assert(before.push(cur@) =~= before.push(cv).update(before.len() as int, cv.push(s@[i as int])));
        }
        i += 1;
    }
    assert(s@.take(s@.len() as int) =~= s@);
    let ghost before = r@.map_values(|v: Vec<char>| v@);
    r.push(cur);
    assert(r@.map_values(|v: Vec<char>| v@) =~= before.push(cur@));
    r
}

fn join_with_newlines(parts: &Vec<Vec<char>>, lo: usize) -> (r: Vec<char>)
    requires
        lo < parts@.len(),
    ensures
        r@ == join_lines(parts@.map_values(|v: Vec<char>| v@).subrange(lo as int, parts@.len() as int)),
{
    let ghost all = parts@.map_values(|v: Vec<char>| v@);
    let mut r: Vec<char> = Vec::new();
    let mut i: usize = lo;
    while i < parts.len()
        invariant
            lo <= i <= parts@.len(),
            all == parts@.map_values(|v: Vec<char>| v@),
            r@ == join_lines(all.subrange(lo as int, i as int)),
        decreases parts.len() - i,
    {
        if i > lo {
            r.push('\n');
        }
        let ghost start = r@;
        let mut k: usize = 0;
        while k < parts[i].len()
            invariant
                lo <= i < parts@.len(),
                k <= parts@[i as int]@.len(),
                r@ == start + parts@[i as int]@.take(k as int),
            decreases parts[i as int]@.len() - k,
        {
            r.push(parts[i][k]);
            k += 1;
            assert(r@ =~= start + parts@[i as int]@.take(k as int));
        }
        assert(parts@[i as int]@.take(k as int) =~= parts@[i as int]@);
        assert(all.subrange(lo as int, i + 1).drop_last() =~= all.subrange(lo as int, i as int));
        i += 1;
    }
    r
}

/// Spreads a translation over `n` command slots (see `resplit`).
pub fn split_translation(translation: &str, n: usize) -> (r: Vec<String>)
    requires
        n >= 1,
    ensures
        r@.len() == n,
        r@.map_values(|s: String| s@) == resplit(split_lines(translation@), n as nat),
{
    let lines = split_text_lines(&chars_of(translation));
    let ghost lv = lines@.map_values(|v: Vec<char>| v@);
    let ghost want = resplit(lv, n as nat);
    let mut r: Vec<String> = Vec::new();
    let mut k: usize = 0;
    while k < n
        invariant
            k <= n,
            lv == lines@.map_values(|v: Vec<char>| v@),
            want == resplit(lv, n as nat),
            r@.len() == k,
            forall|m: int| 0 <= m < k ==> (#[trigger] r@[m])@ == want[m],
        decreases n - k,
    {
        if k < lines.len() {
            if k == n - 1 && lines.len() > n {
                r.push(string_of(&join_with_newlines(&lines, k)));
            } else {
                r.push(string_of(&lines[k]));
            }
        } else {
            r.push(string_of(&vec![' ']));
        }
        k += 1;
    }
    assert(r@.map_values(|s: String| s@) =~= want);
    r
}

/// Sets slot `slot` of command `i` to the string `t`; nothing when there is no such slot.
pub open spec fn set_text(views: Seq<CmdView>, i: int, slot: int, t: Seq<char>) -> Seq<CmdView> {
    if 0 <= i < views.len() && 0 <= slot < views[i].1.len() {
        views.update(i, (views[i].0, views[i].1.update(slot, ParamView::Text(t))))
    } else {
        views
    }
}

/// Sets option `j` of the choice array of command `i` to `t`.
pub open spec fn set_item(views: Seq<CmdView>, i: int, j: int, t: Seq<char>) -> Seq<CmdView> {
    if 0 <= i < views.len() && 0 < views[i].1.len() {
        match views[i].1[0] {
            ParamView::List(items) => if 0 <= j < items.len() {
                views.update(i, (views[i].0, views[i].1.update(0, ParamView::List(items.update(j, t)))))
            } else {
                views
            },
            _ => views,
        }
    } else {
        views
    }
}

/// The first `n` parts of a dialogue block put into the first slots of its commands.
pub open spec fn set_block(views: Seq<CmdView>, cmds: Seq<int>, parts: Seq<Seq<char>>, n: int) -> Seq<
    CmdView,
>
    decreases n,
{
    if n <= 0 {
        views
    } else {
        set_text(set_block(views, cmds, parts, n - 1), cmds[n - 1], 0, parts[n - 1])
    }
}

/// The commands after the text of `occ` is replaced by `value`.
pub open spec fn apply_occ(views: Seq<CmdView>, occ: OccView, value: Option<Seq<char>>) -> Seq<CmdView> {
    match value {
        None => views,
        Some(v) => if occ.0 == Code::Dialogue {
            if occ.2.len() == 0 {
                views
            } else {
                set_block(views, occ.2, resplit(split_lines(v), occ.2.len()), occ.2.len() as int)
            }
        } else if occ.2.len() == 0 {
            views
        } else if occ.0 == Code::ChoiceArray {
            set_item(views, occ.2[0], occ.3, v)
        } else {
            set_text(views, occ.2[0], text_slot(occ.0) as int, v)
        },
    }
}

/// A classified text with its translation put back between its prefix and suffix; `None`
/// when the text is not translatable or the translation is missing or empty.
pub open spec fn resolved(
    frag: Option<(Seq<char>, Seq<char>, Seq<char>)>,
    translation: Option<Seq<char>>,
) -> Option<Seq<char>> {
    match frag {
        Some((p, _k, s)) => match translation {
            Some(t) => if t.len() > 0 {
                Some(p + t + s)
            } else {
                None
            },
            None => None,
        },
        None => None,
    }
}

/// The translation a table gives the text of `occ`.
pub open spec fn table_value(
    occ: OccView,
    table: Seq<Entry>,
    game: Option<GameType>,
    engine: EngineType,
    romanize: bool,
) -> Option<Seq<char>> {
    let f = classified(occ.0, occ.1, game, engine, romanize);
    match f {
        Some((_p, k, _s)) => resolved(f, lookup(table, k)),
        None => None,
    }
}

/// The commands after write-back from a table of the first `n` texts found.
pub open spec fn written_upto(
    views: Seq<CmdView>,
    occs: Seq<OccView>,
    table: Seq<Entry>,
    game: Option<GameType>,
    engine: EngineType,
    romanize: bool,
    n: int,
) -> Seq<CmdView>
    decreases n,
{
    if n <= 0 {
        views
    } else {
        let prev = written_upto(views, occs, table, game, engine, romanize, n - 1);
        apply_occ(prev, occs[n - 1], table_value(occs[n - 1], table, game, engine, romanize))
    }
}

/// The commands after every text found in them is replaced by its translation in `table`.
pub open spec fn written(
    cmds: Seq<Command>,
    table: Seq<Entry>,
    game: Option<GameType>,
    engine: EngineType,
    romanize: bool,
) -> Seq<CmdView> {
    let occs = walk(cmds, engine);
    written_upto(cmd_views(cmds), occs, table, game, engine, romanize, occs.len() as int)
}

fn set_command_text(cmds: &mut Vec<Command>, i: usize, slot: usize, t: String)
    ensures
        cmd_views(final(cmds)@) == set_text(cmd_views(old(cmds)@), i as int, slot as int, t@),
{
    if i < cmds.len() && slot < cmds[i].parameters.len() {
        let ghost ov = cmd_views(cmds@);
        let ghost oc = cmds@[i as int];
        cmds[i].parameters.set(slot, Parameter::Text(t));
        assert(cmds@[i as int].parameters@.map_values(|p: Parameter| param_view(p)) =~= oc.parameters@.map_values(
            |p: Parameter| param_view(p),
        ).update(slot as int, ParamView::Text(t@)));
        assert(cmd_views(cmds@) =~= set_text(ov, i as int, slot as int, t@));
    }
}

fn set_choice_item(cmds: &mut Vec<Command>, i: usize, j: usize, t: String)
    ensures
        cmd_views(final(cmds)@) == set_item(cmd_views(old(cmds)@), i as int, j as int, t@),
{
    if i < cmds.len() && 0 < cmds[i].parameters.len() {
        let ghost ov = cmd_views(cmds@);
        let ghost oc = cmds@[i as int];
        let is_list_slot = match &cmds[i].parameters[0] {
            Parameter::List(items) => j < items.len(),
            _ => false,
        };
        if is_list_slot {
            let mut items: Vec<String> = match &cmds[i].parameters[0] {
                Parameter::List(items) => items.clone(),
                _ => Vec::new(),
            };
            assert(items@.map_values(|s: String| s@) =~= match param_view(oc.parameters@[0]) {
                ParamView::List(v) => v,
                _ => seq![],
            }) by {
                match oc.parameters@[0] {
                    Parameter::List(v) => {
                        assert(items@.len() == v@.len());
                    }
                    _ => {}
                }
            }
            let ghost iv = items@.map_values(|s: String| s@);
            items.set(j, t);
            assert(items@.map_values(|s: String| s@) =~= iv.update(j as int, t@));
            cmds[i].parameters.set(0, Parameter::List(items));
            assert(cmds@[i as int].parameters@.map_values(|p: Parameter| param_view(p)) =~= oc.parameters@.map_values(
                |p: Parameter| param_view(p),
            ).update(0, ParamView::List(iv.update(j as int, t@))));
            assert(cmd_views(cmds@) =~= set_item(ov, i as int, j as int, t@));
        }
    }
}

fn apply_value(cmds: &mut Vec<Command>, occ: &Occurrence, value: &str)
    ensures
        cmd_views(final(cmds)@) == apply_occ(cmd_views(old(cmds)@), occ@, Some(value@)),
{
    let n = occ.commands.len();
    if n == 0 {
        return;
    }
    if occ.code == Code::Dialogue {
        let parts = split_translation(value, n);
        let ghost pv = parts@.map_values(|s: String| s@);
        let ghost start = cmd_views(cmds@);
        let mut k: usize = 0;
        while k < n
            invariant
                k <= n == occ.commands@.len() == parts@.len(),
                pv == parts@.map_values(|s: String| s@),
                cmd_views(cmds@) == set_block(start, occ@.2, pv, k as int),
            decreases n - k,
        {
            set_command_text(cmds, occ.commands[k], 0, parts[k].clone());
            k += 1;
        }
    } else if occ.code == Code::ChoiceArray {
        set_choice_item(cmds, occ.commands[0], occ.item, string_of(&chars_of(value)));
    } else {
        set_command_text(cmds, occ.commands[0], text_slot_of(occ.code), string_of(&chars_of(value)));
    }
}

fn concat3(p: &str, t: &str, s: &str) -> (r: String)
    ensures
        r@ == p@ + t@ + s@,
{
    let mut v = chars_of(p);
    let mut b = chars_of(t);
    let mut c = chars_of(s);
    v.append(&mut b);
    v.append(&mut c);
    string_of(&v)
}

/// Replaces every text of a command list that `table` translates by its translation,
/// spreading a dialogue block's translation over the commands it came from.
pub fn write_list(
    cmds: &mut Vec<Command>,
    table: &TranslationTable,
    game_type: Option<GameType>,
    engine_type: EngineType,
    romanize: bool,
)
    requires
        table.wf(),
    ensures
        cmd_views(final(cmds)@) == written(old(cmds)@, table@, game_type, engine_type, romanize),
{
    let occs = collect_occurrences(cmds, engine_type);
    let ghost ov = occ_views(occs@);
    let ghost start = cmd_views(cmds@);
    let mut i: usize = 0;
    while i < occs.len()
        invariant
            i <= occs@.len(),
            ov == occ_views(occs@),
            ov == walk(old(cmds)@, engine_type),
            start == cmd_views(old(cmds)@),
            table.wf(),
            cmd_views(cmds@) == written_upto(start, ov, table@, game_type, engine_type, romanize, i as int),
        decreases occs.len() - i,
    {
        let occ = &occs[i];
        match process_parameter(occ.code, occ.text.as_str(), game_type, engine_type, romanize) {
            Some(f) => match table.get(f.key.as_str()) {
                Some(t) => {
                    if !t.as_str().is_empty() {
                        let v = concat3(f.prefix.as_str(), t.as_str(), f.suffix.as_str());
                        apply_value(cmds, occ, v.as_str());
                    }
                },
                None => {},
            },
            None => {},
        }
        i += 1;
    }
}

/// The commands, and the position in the queue, after write-back from a queue of entries
/// of the first `n` texts found: each translatable text takes the entry at the head of the
/// queue; an option of a choice array reads it without consuming it, any other text consumes
/// it.
pub open spec fn queue_written_upto(
    views: Seq<CmdView>,
    occs: Seq<OccView>,
    queue: Seq<Entry>,
    start: int,
    game: Option<GameType>,
    engine: EngineType,
    romanize: bool,
    n: int,
) -> (Seq<CmdView>, int)
    decreases n,
{
    if n <= 0 {
        (views, start)
    } else {
        let (prev, pos) = queue_written_upto(views, occs, queue, start, game, engine, romanize, n - 1);
        let f = classified(occs[n - 1].0, occs[n - 1].1, game, engine, romanize);
        if f is Some {
            if 0 <= pos < queue.len() {
                (
                    apply_occ(prev, occs[n - 1], resolved(f, Some(queue[pos].1))),
                    if occs[n - 1].0 == Code::ChoiceArray {
                        pos
                    } else {
                        pos + 1
                    },
                )
            } else {
                (prev, pos)
            }
        } else {
            (prev, pos)
        }
    }
}

/// Write-back from a queue of entries in appearance order, from position `start`.
pub open spec fn queue_written(
    cmds: Seq<Command>,
    queue: Seq<Entry>,
    start: int,
    game: Option<GameType>,
    engine: EngineType,
    romanize: bool,
) -> (Seq<CmdView>, int) {
    let occs = walk(cmds, engine);
    queue_written_upto(cmd_views(cmds), occs, queue, start, game, engine, romanize, occs.len() as int)
}

/// Replaces the texts of a command list by the translations of `queue`, taken in order from
/// position `*cursor`, which moves past each entry used; an option of a choice array takes
/// the entry at the cursor without moving it. An empty translation leaves its text as it was.
pub fn write_list_preserve(
    cmds: &mut Vec<Command>,
    queue: &Vec<(String, String)>,
    cursor: &mut usize,
    game_type: Option<GameType>,
    engine_type: EngineType,
    romanize: bool,
)
    ensures
        (cmd_views(final(cmds)@), *final(cursor) as int) == queue_written(
            old(cmds)@,
            crate::merge::pair_views(queue@),
            *old(cursor) as int,
            game_type,
            engine_type,
            romanize,
        ),
{
    let ghost qv = crate::merge::pair_views(queue@);
    let occs = collect_occurrences(cmds, engine_type);
    let ghost ov = occ_views(occs@);
    let ghost start = cmd_views(cmds@);
    let ghost c0 = *cursor as int;
    let mut i: usize = 0;
    while i < occs.len()
        invariant
            i <= occs@.len(),
            ov == occ_views(occs@),
            ov == walk(old(cmds)@, engine_type),
            start == cmd_views(old(cmds)@),
            c0 == *old(cursor) as int,
            qv == crate::merge::pair_views(queue@),
            (cmd_views(cmds@), *cursor as int) == queue_written_upto(
                start,
                ov,
                qv,
                c0,
                game_type,
                engine_type,
                romanize,
                i as int,
            ),
        decreases occs.len() - i,
    {
        let occ = &occs[i];
        match process_parameter(occ.code, occ.text.as_str(), game_type, engine_type, romanize) {
            Some(f) => {
                if *cursor < queue.len() {
                    let t = &queue[*cursor].1;
                    if !t.as_str().is_empty() {
                        let v = concat3(f.prefix.as_str(), t.as_str(), f.suffix.as_str());
                        apply_value(cmds, occ, v.as_str());
                    }
                    if occ.code != Code::ChoiceArray {
                        *cursor = *cursor + 1;
                    }
                }
            },
            None => {},
        }
        i += 1;
    }
}

proof fn lemma_set_block(views: Seq<CmdView>, cmds: Seq<int>, parts: Seq<Seq<char>>, n: int)
    requires
        0 <= n <= cmds.len(),
        n <= parts.len(),
        forall|a: int, b: int| 0 <= a < b < cmds.len() ==> cmds[a] != cmds[b],
        forall|k: int| 0 <= k < cmds.len() ==> 0 <= #[trigger] cmds[k] < views.len() && views[cmds[k]].1.len() > 0,
    ensures
        set_block(views, cmds, parts, n).len() == views.len(),
        forall|k: int| 0 <= k < n ==> #[trigger] set_block(views, cmds, parts, n)[cmds[k]] == (
            views[cmds[k]].0,
            views[cmds[k]].1.update(0, ParamView::Text(parts[k])),
        ),
        forall|i: int|
            0 <= i < views.len() && (forall|k: int| 0 <= k < n ==> cmds[k] != i) ==> #[trigger] set_block(
                views,
                cmds,
                parts,
                n,
            )[i] == views[i],
    decreases n,
{
    if n > 0 {
        lemma_set_block(views, cmds, parts, n - 1);
        let prev = set_block(views, cmds, parts, n - 1);
        let c = cmds[n - 1];
        assert(prev[c] == views[c]) by {
            assert forall|k: int| 0 <= k < n - 1 implies cmds[k] != c by {}
        }
        let cur = set_block(views, cmds, parts, n);
        assert forall|k: int| 0 <= k < n implies #[trigger] cur[cmds[k]] == (
            views[cmds[k]].0,
            views[cmds[k]].1.update(0, ParamView::Text(parts[k])),
        ) by {
            if k < n - 1 {
                assert(cmds[k] != c);
            }
        }
        assert forall|i: int|
            0 <= i < views.len() && (forall|k: int| 0 <= k < n ==> cmds[k] != i) implies #[trigger] cur[i]
            == views[i] by {
            assert(cmds[n - 1] != i);
            assert forall|k: int| 0 <= k < n - 1 implies cmds[k] != i by {
                assert(cmds[k] != i);
            }
        }
    }
}

/// Writing a translation back into a dialogue block of `N` distinct commands rewrites exactly
/// the first parameters of those `N` commands: line `k` of the translation goes to command
/// `k`, each command beyond the last line gets a single space, and when there are more lines
/// than commands the last command gets all remaining lines joined by line feeds. Every other
/// command is left as it was.
pub proof fn lemma_dialogue_resplit(views: Seq<CmdView>, occ: OccView, t: Seq<char>)
    requires
        occ.0 == Code::Dialogue,
        occ.2.len() >= 1,
        forall|a: int, b: int| 0 <= a < b < occ.2.len() ==> occ.2[a] != occ.2[b],
        forall|k: int| 0 <= k < occ.2.len() ==> 0 <= #[trigger] occ.2[k] < views.len() && views[occ.2[k]].1.len() > 0,
    ensures
        ({
            let r = apply_occ(views, occ, Some(t));
            let lines = split_lines(t);
            let n = occ.2.len() as int;
            &&& r.len() == views.len()
            &&& forall|k: int|
                0 <= k < n ==> #[trigger] r[occ.2[k]] == (
                    views[occ.2[k]].0,
                    views[occ.2[k]].1.update(0, ParamView::Text(resplit(lines, n as nat)[k])),
                )
            &&& forall|k: int| 0 <= k < n && k < lines.len() && !(k == n - 1 && lines.len() > n) ==> #[trigger] resplit(
                lines,
                n as nat,
            )[k] == lines[k]
            &&& forall|k: int| 0 <= k < n && k >= lines.len() ==> #[trigger] resplit(lines, n as nat)[k] == seq![' ']
            &&& lines.len() > n ==> resplit(lines, n as nat)[n - 1] == join_lines(lines.subrange(n - 1, lines.len() as int))
            &&& forall|i: int|
                0 <= i < views.len() && (forall|k: int| 0 <= k < n ==> occ.2[k] != i) ==> #[trigger] r[i] == views[i]
        }),
{
    let lines = split_lines(t);
    let n = occ.2.len() as int;
    lemma_set_block(views, occ.2, resplit(lines, n as nat), n);
}

proof fn lemma_same_view_same_params(a: Command, b: Command, slot: int)
    requires
        cmd_view(a) == cmd_view(b),
    ensures
        a.code == b.code,
        crate::walker::param_text(a, slot) == crate::walker::param_text(b, slot),
        crate::walker::param_items(a).map_values(|s: String| s@) == crate::walker::param_items(b).map_values(|s: String| s@),
{
    let va = a.parameters@.map_values(|p: Parameter| param_view(p));
    let vb = b.parameters@.map_values(|p: Parameter| param_view(p));
    assert(va == vb);
    assert(a.parameters@.len() == va.len() && b.parameters@.len() == vb.len());
    if 0 <= slot < a.parameters@.len() {
        assert(va[slot] == vb[slot]);
        assert(param_view(a.parameters@[slot]) == param_view(b.parameters@[slot]));
    }
    if 0 < a.parameters@.len() {
        assert(va[0] == vb[0]);
        assert(param_view(a.parameters@[0]) == param_view(b.parameters@[0]));
        match (a.parameters@[0], b.parameters@[0]) {
            (Parameter::List(x), Parameter::List(y)) => {
                assert(x@.map_values(|s: String| s@) == y@.map_values(|s: String| s@));
            },
            _ => {},
        }
    }
}

proof fn lemma_same_items_same_choices(x: Seq<String>, y: Seq<String>, i: int, n: int)
    requires
        x.map_values(|s: String| s@) == y.map_values(|s: String| s@),
        n <= x.len(),
    ensures
        crate::walker::choice_occs(x, i, n) == crate::walker::choice_occs(y, i, n),
    decreases n,
{
    if n > 0 {
        lemma_same_items_same_choices(x, y, i, n - 1);
        assert(x.map_values(|s: String| s@).len() == x.len());
        assert(y.map_values(|s: String| s@).len() == y.len());
        assert(x.map_values(|s: String| s@)[n - 1] == x[n - 1]@);
        assert(y.map_values(|s: String| s@)[n - 1] == y[n - 1]@);
        assert(x[n - 1]@ == y[n - 1]@);
    }
}

proof fn lemma_same_views_same_walk_upto(a: Seq<Command>, b: Seq<Command>, engine: EngineType, n: int)
    requires
        cmd_views(a) == cmd_views(b),
        n <= a.len(),
    ensures
        crate::walker::walk_upto(a, engine, n) == crate::walker::walk_upto(b, engine, n),
    decreases n,
{
    if n > 0 {
        lemma_same_views_same_walk_upto(a, b, engine, n - 1);
        assert(cmd_views(a).len() == a.len() && cmd_views(b).len() == b.len());
        assert(cmd_views(a)[n - 1] == cmd_view(a[n - 1]));
        assert(cmd_views(b)[n - 1] == cmd_view(b[n - 1]));
        let ca = a[n - 1];
        let cb = b[n - 1];
        let code = crate::types::code_of(ca.code, engine);
        lemma_same_view_same_params(ca, cb, text_slot(code) as int);
        let ia = crate::walker::param_items(ca);
        let ib = crate::walker::param_items(cb);
        assert(ia.map_values(|s: String| s@).len() == ia.len());
        assert(ib.map_values(|s: String| s@).len() == ib.len());
        lemma_same_items_same_choices(ia, ib, n - 1, ia.len() as int);
    }
}

/// Reading, writing back with no translation, and reading again gives the lines of the first
/// read: a write-back from a table whose translations are all empty leaves the commands as
/// they were, and what the walker finds depends on nothing else.
pub proof fn lemma_read_write_read(
    cmds: Seq<Command>,
    rewritten: Seq<Command>,
    table: Seq<Entry>,
    game: Option<GameType>,
    engine: EngineType,
    romanize: bool,
)
    requires
        forall|i: int| 0 <= i < table.len() ==> (#[trigger] table[i]).1.len() == 0,
        cmd_views(rewritten) == written(cmds, table, game, engine, romanize),
    ensures
        cmd_views(rewritten) == cmd_views(cmds),
        crate::walker::keys_of(walk(rewritten, engine), game, engine, romanize) == crate::walker::keys_of(
            walk(cmds, engine),
            game,
            engine,
            romanize,
        ),
{
    lemma_untranslated_write_back_is_identity(cmds, table, game, engine, romanize);
    assert(cmd_views(rewritten).len() == rewritten.len() && cmd_views(cmds).len() == cmds.len());
    lemma_same_views_same_walk_upto(rewritten, cmds, engine, rewritten.len() as int);
}

/// Writing back from a table whose translations are all empty, as a fresh read produces,
/// leaves every command as it was.
pub proof fn lemma_untranslated_write_back_is_identity(
    cmds: Seq<Command>,
    table: Seq<Entry>,
    game: Option<GameType>,
    engine: EngineType,
    romanize: bool,
)
    requires
        forall|i: int| 0 <= i < table.len() ==> (#[trigger] table[i]).1.len() == 0,
    ensures
        written(cmds, table, game, engine, romanize) == cmd_views(cmds),
{
    let occs = walk(cmds, engine);
    assert forall|n: int| 0 <= n <= occs.len() implies #[trigger] written_upto(
        cmd_views(cmds),
        occs,
        table,
        game,
        engine,
        romanize,
        n,
    ) == cmd_views(cmds) by {
        lemma_untranslated_upto(cmds, occs, table, game, engine, romanize, n);
    }
}

proof fn lemma_untranslated_upto(
    cmds: Seq<Command>,
    occs: Seq<OccView>,
    table: Seq<Entry>,
    game: Option<GameType>,
    engine: EngineType,
    romanize: bool,
    n: int,
)
    requires
        forall|i: int| 0 <= i < table.len() ==> (#[trigger] table[i]).1.len() == 0,
        n <= occs.len(),
    ensures
        written_upto(cmd_views(cmds), occs, table, game, engine, romanize, n) == cmd_views(cmds),
    decreases n,
{
    if n > 0 {
        lemma_untranslated_upto(cmds, occs, table, game, engine, romanize, n - 1);
        let f = classified(occs[n - 1].0, occs[n - 1].1, game, engine, romanize);
        if let Some((_p, k, _s)) = f {
            if crate::table::has_key(table, k) {
                let i = choose|i: int| 0 <= i < table.len() && table[i].0 == k;
                assert(table[i].1.len() == 0);
            }
        }
    }
}

} // verus!
