//! The event-list walker: finds the text of an event's command list, in order, joining
//! consecutive dialogue commands into one logical line.
use crate::classify::{classified, process_parameter};
use crate::text::{chars_of, string_of, trim_chars, trim_seq};
use crate::types::{
    code_from_number, code_of, is_dialogue_code, is_dialogue_family, text_slot, text_slot_of, Code,
    EngineType, GameType,
};
use vstd::prelude::*;

verus! {

/// A parameter of an event command, as far as text extraction reads it.
pub enum Parameter {
    /// A string; a byte blob of a legacy engine arrives here already decoded.
    Text(String),
    /// An array of strings, such as the options of a choice.
    List(Vec<String>),
    /// Any other value.
    Other,
}

/// One instruction of an event's command list.
pub struct Command {
    pub code: u16,
    pub parameters: Vec<Parameter>,
}

/// A candidate text found in a command list, with where it came from.
pub struct Occurrence {
    pub code: Code,
    /// The trimmed text; for a dialogue block, its fragments joined by line feeds.
    pub text: String,
    /// The commands that hold the text, in order.
    pub commands: Vec<usize>,
    /// For an option of a choice array, its index in the array.
    pub item: usize,
}

/// (code, text, command indices, item index)
pub type OccView = (Code, Seq<char>, Seq<int>, int);

impl Occurrence {
    pub open spec fn view(&self) -> OccView {
        (self.code, self.text@, self.commands@.map_values(|i: usize| i as int), self.item as int)
    }
}

pub open spec fn occ_views(v: Seq<Occurrence>) -> Seq<OccView> {
    v.map_values(|o: Occurrence| o@)
}

pub open spec fn str_views(v: Seq<String>) -> Seq<Seq<char>> {
    v.map_values(|s: String| s@)
}

/// The text held by parameter `slot` of `c`; empty when it holds no string.
pub open spec fn param_text(c: Command, slot: int) -> Seq<char> {
    if 0 <= slot < c.parameters@.len() {
        match c.parameters@[slot] {
            Parameter::Text(s) => s@,
            _ => seq![],
        }
    } else {
        seq![]
    }
}

/// The strings of the array in the first parameter of `c`.
pub open spec fn param_items(c: Command) -> Seq<String> {
    if 0 < c.parameters@.len() {
        match c.parameters@[0] {
            Parameter::List(v) => v@,
            _ => seq![],
        }
    } else {
        seq![]
    }
}

/// Fragments joined by line feeds.
pub open spec fn join_lines(s: Seq<Seq<char>>) -> Seq<char>
    decreases s.len(),
{
    if s.len() == 0 {
        seq![]
    } else if s.len() == 1 {
        s[0]
    } else {
        join_lines(s.drop_last()) + seq!['\n'] + s.last()
    }
}

/// The non-empty options, trimmed, among the first `n` of a choice array at command `i`.
pub open spec fn choice_occs(items: Seq<String>, i: int, n: int) -> Seq<OccView>
    decreases n,
{
    if n <= 0 {
        seq![]
    } else {
        let t = trim_seq(items[n - 1]@);
        if t.len() == 0 {
            choice_occs(items, i, n - 1)
        } else {
            choice_occs(items, i, n - 1).push((Code::ChoiceArray, t, seq![i], n - 1))
        }
    }
}

/// Walker state: (found, buffered fragments, their commands, inside a dialogue block).
pub type WalkState = (Seq<OccView>, Seq<Seq<char>>, Seq<int>, bool);

/// Ends a dialogue block, emitting its joined fragments.
pub open spec fn flush(st: WalkState) -> WalkState {
    if st.3 {
        if st.1.len() > 0 {
            (st.0.push((Code::Dialogue, join_lines(st.1), st.2, 0)), seq![], seq![], false)
        } else {
            (st.0, seq![], seq![], false)
        }
    } else {
        st
    }
}

/// Whether command code `code` ends the dialogue block in progress.
pub open spec fn ends_block(st: WalkState, code: Code, engine: EngineType) -> bool {
    st.3 && (!is_dialogue_family(code) || (engine == EngineType::XP && code == Code::DialogueStart
        && st.1.len() > 0))
}

/// The walker's state after command `i`.
pub open spec fn step(st: WalkState, c: Command, i: int, engine: EngineType) -> WalkState {
    let code = code_of(c.code, engine);
    let st1 = if ends_block(st, code, engine) {
        flush(st)
    } else {
        st
    };
    if code == Code::Bad {
        st1
    } else if code == Code::ChoiceArray {
        let items = param_items(c);
        (st1.0 + choice_occs(items, i, items.len() as int), st1.1, st1.2, st1.3)
    } else {
        let t = trim_seq(param_text(c, text_slot(code) as int));
        if code != Code::Credit && t.len() == 0 {
            st1
        } else if is_dialogue_family(code) {
            (st1.0, st1.1.push(t), st1.2.push(i), true)
        } else {
            (st1.0.push((code, t, seq![i], 0)), st1.1, st1.2, st1.3)
        }
    }
}

/// The walker's state after the first `n` commands.
pub open spec fn walk_upto(cmds: Seq<Command>, engine: EngineType, n: int) -> WalkState
    decreases n,
{
    if n <= 0 {
        (seq![], seq![], seq![], false)
    } else {
        step(walk_upto(cmds, engine, n - 1), cmds[n - 1], n - 1, engine)
    }
}

/// Every candidate text of a command list, in order.
pub open spec fn walk(cmds: Seq<Command>, engine: EngineType) -> Seq<OccView> {
    flush(walk_upto(cmds, engine, cmds.len() as int)).0
}

/// The line-file keys of candidate texts, in order, rejected ones left out.
pub open spec fn keys_of(
    occs: Seq<OccView>,
    game: Option<GameType>,
    engine: EngineType,
    romanize: bool,
) -> Seq<Seq<char>>
    decreases occs.len(),
{
    if occs.len() == 0 {
        seq![]
    } else {
        let rest = keys_of(occs.drop_last(), game, engine, romanize);
        match classified(occs.last().0, occs.last().1, game, engine, romanize) {
            Some(f) => rest.push(f.1),
            None => rest,
        }
    }
}

fn join_fragments(buf: &Vec<Vec<char>>) -> (r: Vec<char>)
    ensures
        r@ == join_lines(buf@.map_values(|v: Vec<char>| v@)),
{
    let ghost views = buf@.map_values(|v: Vec<char>| v@);
    let mut r: Vec<char> = Vec::new();
    let mut i: usize = 0;
    while i < buf.len()
        invariant
            i <= buf@.len(),
            views == buf@.map_values(|v: Vec<char>| v@),
            r@ == join_lines(views.take(i as int)),
        decreases buf.len() - i,
    {
        if i > 0 {
            r.push('\n');
        }
        let mut k: usize = 0;
        let ghost start = r@;
        while k < buf[i].len()
            invariant
                i < buf@.len(),
                k <= buf@[i as int]@.len(),
                r@ == start + buf@[i as int]@.take(k as int),
            decreases buf[i as int]@.len() - k,
        {
            r.push(buf[i][k]);
            k += 1;
            assert(r@ =~= start + buf@[i as int]@.take(k as int));
        }
        assert(buf@[i as int]@.take(k as int) =~= buf@[i as int]@);
        assert(views.take(i + 1).drop_last() =~= views.take(i as int));
        i += 1;
    }
    assert(views.take(buf@.len() as int) =~= views);
    r
}

fn flush_block(
    out: &mut Vec<Occurrence>,
    buf: &mut Vec<Vec<char>>,
    idx: &mut Vec<usize>,
    in_seq: &mut bool,
)
    requires
        old(buf)@.len() == old(idx)@.len(),
    ensures
        final(buf)@.len() == final(idx)@.len(),
        (occ_views(final(out)@), final(buf)@.map_values(|v: Vec<char>| v@), final(idx)@.map_values(
            |i: usize| i as int,
        ), *final(in_seq)) == flush(
            (
                occ_views(old(out)@),
                old(buf)@.map_values(|v: Vec<char>| v@),
                old(idx)@.map_values(|i: usize| i as int),
                *old(in_seq),
            ),
        ),
{
    if *in_seq {
        if buf.len() > 0 {
            let joined = join_fragments(buf);
            let o = Occurrence {
                code: Code::Dialogue,
                text: string_of(&joined),
                commands: idx.clone(),
                item: 0,
            };
            out.push(o);
            assert(occ_views(out@) =~= occ_views(old(out)@).push(o@));
        }
        *buf = Vec::new();
        *idx = Vec::new();
        *in_seq = false;
        assert(buf@.map_values(|v: Vec<char>| v@) =~= Seq::<Seq<char>>::empty());
        assert(idx@.map_values(|i: usize| i as int) =~= Seq::<int>::empty());
    }
}

fn push_choices(out: &mut Vec<Occurrence>, items: &Vec<String>, i: usize)
    ensures
        occ_views(final(out)@) == occ_views(old(out)@) + choice_occs(items@, i as int, items@.len() as int),
{
    let mut j: usize = 0;
    while j < items.len()
        invariant
            j <= items@.len(),
            occ_views(out@) == occ_views(old(out)@) + choice_occs(items@, i as int, j as int),
        decreases items.len() - j,
    {
        let t = trim_chars(&chars_of(items[j].as_str()));
        if t.len() > 0 {
            let o = Occurrence { code: Code::ChoiceArray, text: string_of(&t), commands: vec![i], item: j };
            let ghost before = occ_views(out@);
            out.push(o);
            assert(o.commands@.map_values(|x: usize| x as int) =~= seq![i as int]);
            assert(occ_views(out@) =~= before.push(o@));
        }
        j += 1;
    }
}

fn slot_text(c: &Command, slot: usize) -> (r: Vec<char>)
    ensures
        r@ == param_text(*c, slot as int),
{
    if slot < c.parameters.len() {
        match &c.parameters[slot] {
            Parameter::Text(s) => chars_of(s.as_str()),
            _ => Vec::new(),
        }
    } else {
        Vec::new()
    }
}

/// Every candidate text of a command list, in order, with the commands it came from.
pub fn collect_occurrences(cmds: &Vec<Command>, engine: EngineType) -> (r: Vec<Occurrence>)
    ensures
        occ_views(r@) == walk(cmds@, engine),
{
    let mut out: Vec<Occurrence> = Vec::new();
    let mut buf: Vec<Vec<char>> = Vec::new();
    let mut idx: Vec<usize> = Vec::new();
    let mut in_seq: bool = false;
    let mut i: usize = 0;
    assert(occ_views(out@) =~= Seq::<OccView>::empty());
    assert(buf@.map_values(|v: Vec<char>| v@) =~= Seq::<Seq<char>>::empty());
    assert(idx@.map_values(|x: usize| x as int) =~= Seq::<int>::empty());
    while i < cmds.len()
        invariant
            i <= cmds@.len(),
            buf@.len() == idx@.len(),
            (occ_views(out@), buf@.map_values(|v: Vec<char>| v@), idx@.map_values(|x: usize| x as int), in_seq)
                == walk_upto(cmds@, engine, i as int),
        decreases cmds.len() - i,
    {
        let c = &cmds[i];
        let code = code_from_number(c.code, engine);
        let ends = in_seq && (!is_dialogue_code(code) || (engine == EngineType::XP && code
            == Code::DialogueStart && buf.len() > 0));
        if ends {
            flush_block(&mut out, &mut buf, &mut idx, &mut in_seq);
        }
        if code == Code::Bad {
        } else if code == Code::ChoiceArray {
            if c.parameters.len() > 0 {
                match &c.parameters[0] {
                    Parameter::List(items) => push_choices(&mut out, items, i),
                    _ => {},
                }
            }
        } else {
            let t = trim_chars(&slot_text(c, text_slot_of(code)));
            if code != Code::Credit && t.len() == 0 {
            } else if is_dialogue_code(code) {
                let ghost bv = buf@.map_values(|v: Vec<char>| v@);
                let ghost iv = idx@.map_values(|x: usize| x as int);
                buf.push(t);
                idx.push(i);
                in_seq = true;
                assert(buf@.map_values(|v: Vec<char>| v@) =~= bv.push(t@));
                assert(idx@.map_values(|x: usize| x as int) =~= iv.push(i as int));
            } else {
                let o = Occurrence { code, text: string_of(&t), commands: vec![i], item: 0 };
                let ghost before = occ_views(out@);
                out.push(o);
                assert(o.commands@.map_values(|x: usize| x as int) =~= seq![i as int]);
                assert(occ_views(out@) =~= before.push(o@));
            }
        }
        i += 1;
    }
    flush_block(&mut out, &mut buf, &mut idx, &mut in_seq);
    out
}

/// The line-file keys of a command list's text, in the order the walker finds it.
pub fn extract_list(
    cmds: &Vec<Command>,
    engine_type: EngineType,
    game_type: Option<GameType>,
    romanize: bool,
) -> (r: Vec<String>)
    ensures
        str_views(r@) == keys_of(walk(cmds@, engine_type), game_type, engine_type, romanize),
{
    let occs = collect_occurrences(cmds, engine_type);
    let ghost ov = occ_views(occs@);
    let mut r: Vec<String> = Vec::new();
    let mut i: usize = 0;
    while i < occs.len()
        invariant
            i <= occs@.len(),
            ov == occ_views(occs@),
            str_views(r@) == keys_of(ov.take(i as int), game_type, engine_type, romanize),
        decreases occs.len() - i,
    {
        assert(ov.take(i + 1).drop_last() =~= ov.take(i as int));
        let ghost before = str_views(r@);
        match process_parameter(occs[i].code, occs[i].text.as_str(), game_type, engine_type, romanize) {
            Some(f) => {
                r.push(f.key);
                assert(str_views(r@) =~= before.push(f.key@));
            },
            None => {},
        }
        i += 1;
    }
    assert(ov.take(occs@.len() as int) =~= ov);
    r
}

} // verus!
