//! The string classifier: decides which fragments are translatable text.
use crate::text::{
    chars_of, ends_with, ends_with_seq, find_from, first_occurrence, is_ws, is_ws_char,
    same_chars, starts_with, starts_with_seq, string_of, trim_range, trim_seq,
};
use crate::types::{Code, EngineType, GameType};
use vstd::prelude::*;

verus! {

/// Characters that on their own make no translatable text: punctuation, symbols, digits,
/// Roman-numeral glyphs and white space.
pub open spec fn is_symbol(c: char) -> bool {
    ('0' <= c && c <= '9') || ('\u{2160}' <= c && c <= '\u{217f}') || is_ws(c)
        || c == '.' || c == '(' || c == ')' || c == '+' || c == '-' || c == ':'
        || c == ';' || c == '[' || c == ']' || c == '^' || c == '~' || c == '%'
        || c == '&' || c == '!' || c == '№' || c == '$' || c == '@' || c == '`'
        || c == '*' || c == '/' || c == '→' || c == '×' || c == '？' || c == '?'
        || c == 'ｘ' || c == '％' || c == '▼' || c == '|' || c == '♥' || c == '♪'
        || c == '！' || c == '：' || c == '〜' || c == '『' || c == '』' || c == '「'
        || c == '」' || c == '〽' || c == '。' || c == '…' || c == '‥' || c == '＝'
        || c == '゠' || c == '、' || c == '，' || c == '【' || c == '】' || c == '［'
        || c == '］' || c == '｛' || c == '｝' || c == '（' || c == '）' || c == '〔'
        || c == '〕' || c == '｟' || c == '｠' || c == '〘' || c == '〙' || c == '〈'
        || c == '〉' || c == '《' || c == '》' || c == '・' || c == '\\' || c == '#'
        || c == '<' || c == '>' || c == '=' || c == '_' || c == 'ー' || c == '※'
        || c == '▶'
}

/// Whether `c` is a symbol (see `is_symbol`).
pub fn is_symbol_char(c: char) -> (r: bool)
    ensures
        r == is_symbol(c),
{
    ('0' <= c && c <= '9') || ('\u{2160}' <= c && c <= '\u{217f}') || is_ws_char(c)
        || c == '.' || c == '(' || c == ')' || c == '+' || c == '-' || c == ':'
        || c == ';' || c == '[' || c == ']' || c == '^' || c == '~' || c == '%'
        || c == '&' || c == '!' || c == '№' || c == '$' || c == '@' || c == '`'
        || c == '*' || c == '/' || c == '→' || c == '×' || c == '？' || c == '?'
        || c == 'ｘ' || c == '％' || c == '▼' || c == '|' || c == '♥' || c == '♪'
        || c == '！' || c == '：' || c == '〜' || c == '『' || c == '』' || c == '「'
        || c == '」' || c == '〽' || c == '。' || c == '…' || c == '‥' || c == '＝'
        || c == '゠' || c == '、' || c == '，' || c == '【' || c == '】' || c == '［'
        || c == '］' || c == '｛' || c == '｝' || c == '（' || c == '）' || c == '〔'
        || c == '〕' || c == '｟' || c == '｠' || c == '〘' || c == '〙' || c == '〈'
        || c == '〉' || c == '《' || c == '》' || c == '・' || c == '\\' || c == '#'
        || c == '<' || c == '>' || c == '=' || c == '_' || c == 'ー' || c == '※'
        || c == '▶'
}

pub open spec fn only_symbols(s: Seq<char>) -> bool {
    forall|i: int| 0 <= i < s.len() ==> is_symbol(#[trigger] s[i])
}

/// Whether every character of `s` is a symbol (true of the empty string).
pub fn string_is_only_symbols(s: &[char]) -> (r: bool)
    ensures
        r == only_symbols(s@),
{
    let mut i: usize = 0;
    while i < s.len()
        invariant
            i <= s@.len(),
            forall|k: int| 0 <= k < i ==> is_symbol(#[trigger] s@[k]),
        decreases s.len() - i,
    {
        if !is_symbol_char(s[i]) {
            return false;
        }
        i += 1;
    }
    true
}

/// What a character becomes under romanization.
pub open spec fn roman_of(c: char) -> Seq<char> {
    match c {
        '。' => seq!['.'],
        '、' => seq![','],
        '，' => seq![','],
        '・' => seq!['·'],
        '゠' => seq!['–'],
        '＝' => seq!['—'],
        'ー' => seq!['—'],
        '「' => seq!['\''],
        '」' => seq!['\''],
        '〈' => seq!['\''],
        '〉' => seq!['\''],
        '『' => seq!['"'],
        '』' => seq!['"'],
        '《' => seq!['"'],
        '》' => seq!['"'],
        '（' => seq!['('],
        '〔' => seq!['('],
        '｟' => seq!['('],
        '〘' => seq!['('],
        '）' => seq![')'],
        '〕' => seq![')'],
        '｠' => seq![')'],
        '〙' => seq![')'],
        '｛' => seq!['{'],
        '｝' => seq!['}'],
        '［' => seq!['['],
        '【' => seq!['['],
        '〖' => seq!['['],
        '〚' => seq!['['],
        '］' => seq![']'],
        '】' => seq![']'],
        '〗' => seq![']'],
        '〛' => seq![']'],
        '〜' => seq!['~'],
        '？' => seq!['?'],
        '！' => seq!['!'],
        '：' => seq![':'],
        '※' => seq!['·'],
        '…' => seq!['.', '.', '.'],
        '‥' => seq!['.', '.', '.'],
        '　' => seq![' '],
        'Ⅰ' => seq!['I'],
        'ⅰ' => seq!['i'],
        'Ⅱ' => seq!['I', 'I'],
        'ⅱ' => seq!['i', 'i'],
        'Ⅲ' => seq!['I', 'I', 'I'],
        'ⅲ' => seq!['i', 'i', 'i'],
        'Ⅳ' => seq!['I', 'V'],
        'ⅳ' => seq!['i', 'v'],
        'Ⅴ' => seq!['V'],
        'ⅴ' => seq!['v'],
        'Ⅵ' => seq!['V', 'I'],
        'ⅵ' => seq!['v', 'i'],
        'Ⅶ' => seq!['V', 'I', 'I'],
        'ⅶ' => seq!['v', 'i', 'i'],
        'Ⅷ' => seq!['V', 'I', 'I', 'I'],
        'ⅷ' => seq!['v', 'i', 'i', 'i'],
        'Ⅸ' => seq!['I', 'X'],
        'ⅸ' => seq!['i', 'x'],
        'Ⅹ' => seq!['X'],
        'ⅹ' => seq!['x'],
        'Ⅺ' => seq!['X', 'I'],
        'ⅺ' => seq!['x', 'i'],
        'Ⅻ' => seq!['X', 'I', 'I'],
        'ⅻ' => seq!['x', 'i', 'i'],
        'Ⅼ' => seq!['L'],
        'ⅼ' => seq!['l'],
        'Ⅽ' => seq!['C'],
        'ⅽ' => seq!['c'],
        'Ⅾ' => seq!['D'],
        'ⅾ' => seq!['d'],
        'Ⅿ' => seq!['M'],
        'ⅿ' => seq!['m'],
        _ => seq![c],
    }
}

/// `s` with each character replaced by its romanization.
pub open spec fn romanized(s: Seq<char>) -> Seq<char>
    decreases s.len(),
{
    if s.len() == 0 {
        seq![]
    } else {
        romanized(s.drop_last()) + roman_of(s.last())
    }
}

fn roman_chars(c: char) -> (r: Vec<char>)
    ensures
        r@ == roman_of(c),
{
    match c {
        '。' => vec!['.'],
        '、' => vec![','],
        '，' => vec![','],
        '・' => vec!['·'],
        '゠' => vec!['–'],
        '＝' => vec!['—'],
        'ー' => vec!['—'],
        '「' => vec!['\''],
        '」' => vec!['\''],
        '〈' => vec!['\''],
        '〉' => vec!['\''],
        '『' => vec!['"'],
        '』' => vec!['"'],
        '《' => vec!['"'],
        '》' => vec!['"'],
        '（' => vec!['('],
        '〔' => vec!['('],
        '｟' => vec!['('],
        '〘' => vec!['('],
        '）' => vec![')'],
        '〕' => vec![')'],
        '｠' => vec![')'],
        '〙' => vec![')'],
        '｛' => vec!['{'],
        '｝' => vec!['}'],
        '［' => vec!['['],
        '【' => vec!['['],
        '〖' => vec!['['],
        '〚' => vec!['['],
        '］' => vec![']'],
        '】' => vec![']'],
        '〗' => vec![']'],
        '〛' => vec![']'],
        '〜' => vec!['~'],
        '？' => vec!['?'],
        '！' => vec!['!'],
        '：' => vec![':'],
        '※' => vec!['·'],
        '…' => vec!['.', '.', '.'],
        '‥' => vec!['.', '.', '.'],
        '　' => vec![' '],
        'Ⅰ' => vec!['I'],
        'ⅰ' => vec!['i'],
        'Ⅱ' => vec!['I', 'I'],
        'ⅱ' => vec!['i', 'i'],
        'Ⅲ' => vec!['I', 'I', 'I'],
        'ⅲ' => vec!['i', 'i', 'i'],
        'Ⅳ' => vec!['I', 'V'],
        'ⅳ' => vec!['i', 'v'],
        'Ⅴ' => vec!['V'],
        'ⅴ' => vec!['v'],
        'Ⅵ' => vec!['V', 'I'],
        'ⅵ' => vec!['v', 'i'],
        'Ⅶ' => vec!['V', 'I', 'I'],
        'ⅶ' => vec!['v', 'i', 'i'],
        'Ⅷ' => vec!['V', 'I', 'I', 'I'],
        'ⅷ' => vec!['v', 'i', 'i', 'i'],
        'Ⅸ' => vec!['I', 'X'],
        'ⅸ' => vec!['i', 'x'],
        'Ⅹ' => vec!['X'],
        'ⅹ' => vec!['x'],
        'Ⅺ' => vec!['X', 'I'],
        'ⅺ' => vec!['x', 'i'],
        'Ⅻ' => vec!['X', 'I', 'I'],
        'ⅻ' => vec!['x', 'i', 'i'],
        'Ⅼ' => vec!['L'],
        'ⅼ' => vec!['l'],
        'Ⅽ' => vec!['C'],
        'ⅽ' => vec!['c'],
        'Ⅾ' => vec!['D'],
        'ⅾ' => vec!['d'],
        'Ⅿ' => vec!['M'],
        'ⅿ' => vec!['m'],
        _ => vec![c],
    }
}

/// Replaces CJK and fullwidth punctuation and Roman-numeral glyphs by ASCII equivalents.
pub fn romanize_chars(s: &[char]) -> (r: Vec<char>)
    ensures
        r@ == romanized(s@),
{
    let mut r: Vec<char> = Vec::new();
    let mut i: usize = 0;
    while i < s.len()
        invariant
            i <= s@.len(),
            r@ == romanized(s@.take(i as int)),
        decreases s.len() - i,
    {
        let mut piece = roman_chars(s[i]);
        r.append(&mut piece);
        assert(s@.take(i + 1).drop_last() =~= s@.take(i as int));
        i += 1;
    }
    assert(s@.take(s@.len() as int) =~= s@);
    r
}

/// `string` with CJK and fullwidth punctuation and Roman-numeral glyphs replaced by ASCII.
pub fn romanize_string(string: String) -> (r: String)
    ensures
        r@ == romanized(string@),
{
    let v = chars_of(string.as_str());
    let w = romanize_chars(&v);
    string_of(&w)
}


pub open spec fn lit_gab() -> Seq<char> {
    seq!['G', 'a', 'b']
}

pub open spec fn lit_choice_text() -> Seq<char> {
    seq!['c', 'h', 'o', 'i', 'c', 'e', '_', 't', 'e', 'x', 't']
}

pub open spec fn lit_unknown_choice() -> Seq<char> {
    seq!['?', '?', '?', '?']
}

pub open spec fn lit_if_open() -> Seq<char> {
    seq![' ', 'i', 'f', '(']
}

pub open spec fn lit_shop_talk() -> Seq<char> {
    seq!['s', 'h', 'o', 'p', '_', 't', 'a', 'l', 'k']
}

pub open spec fn lit_rgba() -> Seq<char> {
    seq!['r', 'g', 'b', 'a']
}

pub open spec fn lit_this() -> Seq<char> {
    seq!['t', 'h', 'i', 's', '.']
}

pub open spec fn lit_et() -> Seq<char> {
    seq!['\\', 'e', 't', '[']
}

pub open spec fn lit_nbt() -> Seq<char> {
    seq!['\\', 'n', 'b', 't']
}

/// Literal words that are engine values rather than text.
pub open spec fn is_junk_word(s: Seq<char>) -> bool {
    ||| s == seq!['t', 'r', 'u', 'e']
    ||| s == seq!['f', 'a', 'l', 's', 'e']
    ||| s == seq!['n', 'o', 'n', 'e']
    ||| s == seq!['t', 'i', 'm', 'e']
    ||| s == seq!['o', 'f', 'f']
}

pub open spec fn is_ident_start(c: char) -> bool {
    ('a' <= c && c <= 'z') || ('A' <= c && c <= 'Z') || c == '_'
}

/// A script call of the shape `this.<identifier>(...)`.
pub open spec fn is_call_snippet(s: Seq<char>) -> bool {
    starts_with_seq(s, lit_this()) && s.len() > 5 && is_ident_start(s[5]) && ends_with_seq(
        s,
        seq![')'],
    )
}

/// Text that is never translatable, whatever the command or title.
pub open spec fn rejected_text(s: Seq<char>) -> bool {
    ||| s.len() == 0
    ||| only_symbols(s)
    ||| is_junk_word(s)
    ||| is_call_snippet(s)
    ||| starts_with_seq(s, lit_rgba())
}

pub open spec fn is_digit(c: char) -> bool {
    '0' <= c && c <= '9'
}

/// Number of consecutive ASCII digits of `s` from position `i`.
pub open spec fn digit_run(s: Seq<char>, i: int) -> nat
    decreases s.len() - i,
{
    if 0 <= i < s.len() && is_digit(s[i]) {
        1 + digit_run(s, i + 1)
    } else {
        0
    }
}

/// Length of a leading `\et[<digits>]` or `\nbt` dialogue prefix.
pub open spec fn lisa_prefix_len(s: Seq<char>) -> Option<int> {
    if starts_with_seq(s, lit_et()) {
        let n = digit_run(s, 4) as int;
        if n >= 1 && 4 + n < s.len() && s[4 + n] == ']' {
            Some(5 + n)
        } else {
            None
        }
    } else if starts_with_seq(s, lit_nbt()) {
        Some(4)
    } else {
        None
    }
}

/// Start of a trailing ` if(...)` condition.
pub open spec fn if_suffix_start(s: Seq<char>) -> Option<int> {
    if ends_with_seq(s, seq![')']) {
        first_occurrence(s, lit_if_open(), 0)
    } else {
        None
    }
}

/// Whether a system line passes the title's filter.
pub open spec fn system_line_kept(code: Code, game: Option<GameType>, t: Seq<char>) -> bool {
    game == Some(GameType::Termina) && code == Code::System ==> (starts_with_seq(t, lit_gab()) || (
    starts_with_seq(t, lit_choice_text()) && !ends_with_seq(t, lit_unknown_choice())))
}

/// Splits off a title-specific dialogue prefix: `None` when the rest is symbols only.
pub open spec fn lisa_split(code: Code, game: Option<GameType>, t: Seq<char>) -> Option<
    (Seq<char>, Seq<char>),
> {
    if game == Some(GameType::LisaRPG) && (code == Code::Dialogue || code == Code::DialogueStart) {
        match lisa_prefix_len(t) {
            Some(i) => if only_symbols(t.subrange(i, t.len() as int)) {
                None
            } else {
                Some((t.subrange(0, i), t.subrange(i, t.len() as int)))
            },
            None => Some((seq![], t)),
        }
    } else {
        Some((seq![], t))
    }
}

/// Splits off a trailing condition of the legacy engines: (text, condition).
pub open spec fn if_split(engine: EngineType, t: Seq<char>) -> (Seq<char>, Seq<char>) {
    if engine != EngineType::New {
        match if_suffix_start(t) {
            Some(j) => (t.subrange(0, j), t.subrange(j, t.len() as int)),
            None => (t, seq![]),
        }
    } else {
        (t, seq![])
    }
}

/// Keeps the quoted right-hand side of a legacy shop line: (prefix, text, suffix).
pub open spec fn shop_split(code: Code, engine: EngineType, t: Seq<char>) -> Option<
    (Seq<char>, Seq<char>, Seq<char>),
> {
    if engine != EngineType::New && code == Code::Shop {
        if !crate::text::contains_seq(t, lit_shop_talk()) {
            None
        } else {
            match first_occurrence(t, seq!['='], 0) {
                None => None,
                Some(e) => {
                    let r = trim_seq(t.subrange(e + 1, t.len() as int));
                    if r.len() >= 2 && r[0] == '"' && r.last() == '"' {
                        Some(
                            (
                                t.subrange(0, e) + seq!['=', '"'],
                                r.subrange(1, r.len() - 1),
                                seq!['"'],
                            ),
                        )
                    } else {
                        None
                    }
                },
            }
        }
    } else {
        Some((seq![], t, seq![]))
    }
}

/// The classification of a command's text: `None` when it is not translatable, else the
/// prefix to put back before a translation, the lookup key, and the suffix to put back after.
pub open spec fn classified(
    code: Code,
    text: Seq<char>,
    game: Option<GameType>,
    engine: EngineType,
    romanize: bool,
) -> Option<(Seq<char>, Seq<char>, Seq<char>)> {
    let t = trim_seq(text);
    if !system_line_kept(code, game, t) {
        None
    } else {
        match lisa_split(code, game, t) {
            None => None,
            Some((p1, t1)) => {
                let (t2, s2) = if_split(engine, t1);
                match shop_split(code, engine, t2) {
                    None => None,
                    Some((p3, core, s3)) => if rejected_text(core) {
                        None
                    } else {
                        Some(
                            (
                                p1 + p3,
                                if romanize {
                                    romanized(core)
                                } else {
                                    core
                                },
                                s3 + s2,
                            ),
                        )
                    },
                }
            },
        }
    }
}

/// Whether text is never translatable (see `rejected_text`).
pub fn is_rejected_text(s: &[char]) -> (r: bool)
    ensures
        r == rejected_text(s@),
{
    if s.len() == 0 || string_is_only_symbols(s) {
        return true;
    }
    let w1 = vec!['t', 'r', 'u', 'e'];
    let w2 = vec!['f', 'a', 'l', 's', 'e'];
    let w3 = vec!['n', 'o', 'n', 'e'];
    let w4 = vec!['t', 'i', 'm', 'e'];
    let w5 = vec!['o', 'f', 'f'];
    let junk = same_chars(s, &w1) || same_chars(s, &w2) || same_chars(s, &w3) || same_chars(s, &w4)
        || same_chars(s, &w5);
    assert(junk == is_junk_word(s@));
    if junk {
        return true;
    }
    let this = vec!['t', 'h', 'i', 's', '.'];
    let close = vec![')'];
    assert(this@ == lit_this());
    assert(close@ == seq![')']);
    if starts_with(s, &this) && s.len() > 5 && ends_with(s, &close) {
        let c = s[5];
        if ('a' <= c && c <= 'z') || ('A' <= c && c <= 'Z') || c == '_' {
            return true;
        }
    }
    assert(!is_call_snippet(s@));
    let rgba = vec!['r', 'g', 'b', 'a'];
    starts_with(s, &rgba)
}

/// Length of a leading `\et[<digits>]` or `\nbt` dialogue prefix.
pub fn find_lisa_prefix_index(s: &[char]) -> (r: Option<usize>)
    ensures
        r matches Some(i) ==> lisa_prefix_len(s@) == Some(i as int),
        r is None ==> lisa_prefix_len(s@) is None,
{
    if starts_with(s, &vec!['\\', 'e', 't', '[']) {
        let mut k: usize = 4;
        while k < s.len() && '0' <= s[k] && s[k] <= '9'
            invariant
                4 <= k <= s@.len(),
                digit_run(s@, 4) == (k - 4) + digit_run(s@, k as int),
            decreases s.len() - k,
        {
            k += 1;
        }
        if k > 4 && k < s.len() && s[k] == ']' {
            Some(k + 1)
        } else {
            None
        }
    } else if starts_with(s, &vec!['\\', 'n', 'b', 't']) {
        Some(4)
    } else {
        None
    }
}

/// Start of a trailing ` if(...)` condition.
pub fn ends_with_if_index(s: &[char]) -> (r: Option<usize>)
    ensures
        r matches Some(j) ==> if_suffix_start(s@) == Some(j as int) && j < s@.len(),
        r is None ==> if_suffix_start(s@) is None,
{
    let close = vec![')'];
    assert(close@ == seq![')']);
    if ends_with(s, &close) {
        let pat = vec![' ', 'i', 'f', '('];
        assert(pat@ == lit_if_open());
        find_from(s, &pat, 0)
    } else {
        None
    }
}

/// A fragment of command text accepted as translatable.
pub struct Fragment {
    /// Put back before a translation.
    pub prefix: String,
    /// The text as it stands in a line file.
    pub key: String,
    /// Put back after a translation.
    pub suffix: String,
}

impl Fragment {
    pub open spec fn view(&self) -> (Seq<char>, Seq<char>, Seq<char>) {
        (self.prefix@, self.key@, self.suffix@)
    }
}

fn concat_chars(a: Vec<char>, b: Vec<char>) -> (r: Vec<char>)
    ensures
        r@ == a@ + b@,
{
    let mut a = a;
    let mut b = b;
    a.append(&mut b);
    a
}

/// Classifies the text of a command: returns the lookup key with what surrounds it, or
/// `None` when the text is not translatable.
pub fn process_parameter(
    code: Code,
    parameter: &str,
    game_type: Option<GameType>,
    engine_type: EngineType,
    romanize: bool,
) -> (r: Option<Fragment>)
    ensures
        r matches Some(f) ==> classified(code, parameter@, game_type, engine_type, romanize) == Some(
            f.view(),
        ),
        r is None ==> classified(code, parameter@, game_type, engine_type, romanize) is None,
{
    let all = chars_of(parameter);
    let (a, b) = trim_range(&all, 0, all.len());
    assert(all@.subrange(0, all@.len() as int) =~= all@);
    let t = crate::text::slice_chars(&all, a, b);
    let ghost tt = t@;
    if game_type == Some(GameType::Termina) && code == Code::System {
        let gab = starts_with(&t, &vec!['G', 'a', 'b']);
        let choice = starts_with(&t, &vec!['c', 'h', 'o', 'i', 'c', 'e', '_', 't', 'e', 'x', 't'])
            && !ends_with(&t, &vec!['?', '?', '?', '?']);
        if !gab && !choice {
            return None;
        }
    }
    // title-specific dialogue prefix
    let mut p1: Vec<char> = Vec::new();
    let mut t1: Vec<char> = t;
    if game_type == Some(GameType::LisaRPG) && (code == Code::Dialogue || code == Code::DialogueStart) {
        match find_lisa_prefix_index(&t1) {
            Some(i) => {
                let rest = crate::text::slice_chars(&t1, i, t1.len());
                if string_is_only_symbols(&rest) {
                    return None;
                }
                p1 = crate::text::slice_chars(&t1, 0, i);
                t1 = rest;
            },
            None => {},
        }
    }
    assert(lisa_split(code, game_type, tt) == Some((p1@, t1@)));
    // trailing condition of the legacy engines
    let mut t2: Vec<char> = t1;
    let mut s2: Vec<char> = Vec::new();
    if engine_type != EngineType::New {
        match ends_with_if_index(&t2) {
            Some(j) => {
                s2 = crate::text::slice_chars(&t2, j, t2.len());
                t2 = crate::text::slice_chars(&t2, 0, j);
            },
            None => {},
        }
    }
    assert(if_split(engine_type, t1@) == (t2@, s2@));
    // quoted right-hand side of a legacy shop line
    let mut p3: Vec<char> = Vec::new();
    let mut core: Vec<char> = t2;
    let mut s3: Vec<char> = Vec::new();
    if engine_type != EngineType::New && code == Code::Shop {
        let talk = vec!['s', 'h', 'o', 'p', '_', 't', 'a', 'l', 'k'];
        assert(talk@ == lit_shop_talk());
        if !crate::text::contains(&core, &talk) {
            return None;
        }
        let eq = vec!['='];
        assert(eq@ == seq!['=']);
        match find_from(&core, &eq, 0) {
            None => {
                return None;
            },
            Some(e) => {
                let (c, d) = trim_range(&core, e + 1, core.len());
                if d - c < 2 || core[c] != '"' || core[d - 1] != '"' {
                    return None;
                }
                let left = crate::text::slice_chars(&core, 0, e);
                p3 = concat_chars(left, vec!['=', '"']);
                s3 = vec!['"'];
                core = crate::text::slice_chars(&core, c + 1, d - 1);
            },
        }
    }
    assert(shop_split(code, engine_type, t2@) == Some((p3@, core@, s3@)));
    if is_rejected_text(&core) {
        return None;
    }
    let key = if romanize {
        romanize_chars(&core)
    } else {
        core
    };
    let prefix = concat_chars(p1, p3);
    let suffix = concat_chars(s3, s2);
    Some(Fragment { prefix: string_of(&prefix), key: string_of(&key), suffix: string_of(&suffix) })
}

} // verus!
