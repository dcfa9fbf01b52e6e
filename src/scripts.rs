//! Script archives: decompressing and decoding script sources, choosing which of their string
//! literals are text, and putting translations back into the source.
use crate::classify::{only_symbols, romanize_chars, romanized, string_is_only_symbols};
use crate::lexer::{extract_strings, lex_upto};
use crate::purge::contains_string;
use crate::table::{lookup, TranslationTable};
use crate::text::{chars_of, contains, contains_seq, starts_with, starts_with_seq, string_of};
use crate::walker::str_views;
use vstd::prelude::*;

verus! {

/// What zlib decompression of `data` gives; `None` when `data` is not a valid zlib stream.
pub uninterp spec fn inflated_of(data: Seq<u8>) -> Option<Seq<u8>>;

/// What zlib compression at level 6 of the UTF-8 bytes of `text` gives; `None` when the
/// compressor reports an error.
pub uninterp spec fn deflated_of(text: Seq<char>) -> Option<Seq<u8>>;

/// The text that `bytes` decode to in encoding number `encoding` of the cascade (UTF-8,
/// windows-1252, windows-1251, Shift_JIS, GB18030), or `None` when they hold malformed
/// sequences for it.
pub uninterp spec fn decoding(encoding: nat, bytes: Seq<u8>) -> Option<Seq<char>>;

/// Whether `pattern` is a regular expression that compiles.
pub uninterp spec fn regex_compiles(pattern: Seq<char>) -> bool;

/// Whether the regular expression `pattern` matches somewhere in `text`.
pub uninterp spec fn regex_matches(pattern: Seq<char>, text: Seq<char>) -> bool;

#[verifier::external_type_specification]
#[verifier::external_body]
pub struct ExRegex(regex::Regex);

/// Relies on flate2's `ZlibDecoder`: decompresses a zlib stream; fails on a malformed one.
#[verifier::external_body]
fn inflate(data: &[u8]) -> (r: Option<Vec<u8>>)
    ensures
        r matches Some(v) ==> inflated_of(data@) == Some(v@),
        r is None ==> inflated_of(data@) is None,
{
    let mut out: Vec<u8> = Vec::new();
    let mut decoder = flate2::read::ZlibDecoder::new(data);
    match std::io::Read::read_to_end(&mut decoder, &mut out) {
        Ok(_) => Some(out),
        Err(_) => None,
    }
}

/// Relies on flate2's `ZlibEncoder`: compresses the UTF-8 bytes of `text` at level 6.
#[verifier::external_body]
fn deflate(text: &str) -> (r: Option<Vec<u8>>)
    ensures
        r matches Some(v) ==> deflated_of(text@) == Some(v@),
        r is None ==> deflated_of(text@) is None,
{
    let mut encoder = flate2::write::ZlibEncoder::new(Vec::new(), flate2::Compression::new(6));
    match std::io::Write::write_all(&mut encoder, text.as_bytes()) {
        Ok(()) => encoder.finish().ok(),
        Err(_) => None,
    }
}

/// Relies on `encoding_rs::Encoding::decode`: decodes `bytes` in encoding number `encoding`
/// of the cascade, `None` when it reports malformed sequences.
#[verifier::external_body]
fn decode_in(encoding: usize, bytes: &[u8]) -> (r: Option<String>)
    ensures
        r matches Some(s) ==> decoding(encoding as nat, bytes@) == Some(s@),
        r is None ==> decoding(encoding as nat, bytes@) is None,
{
    let enc = match encoding {
        0 => encoding_rs::UTF_8,
        1 => encoding_rs::WINDOWS_1252,
        2 => encoding_rs::WINDOWS_1251,
        3 => encoding_rs::SHIFT_JIS,
        _ => encoding_rs::GB18030,
    };
    let (text, _, had_errors) = enc.decode(bytes);
    if had_errors {
        None
    } else {
        Some(text.into_owned())
    }
}

/// A compiled regular expression with its source.
pub struct Pattern {
    pub source: Ghost<Seq<char>>,
    re: regex::Regex,
}

/// Relies on `regex::Regex::new`: compiles `pattern`; fails on invalid syntax.
#[verifier::external_body]
fn compile(pattern: &str) -> (r: Option<Pattern>)
    ensures
        r is Some <==> regex_compiles(pattern@),
        r matches Some(p) ==> p.source@ == pattern@,
{
    match regex::Regex::new(pattern) {
        Ok(re) => Some(Pattern { source: Ghost(pattern@), re }),
        Err(_) => None,
    }
}

/// Relies on `regex::Regex::is_match`: whether the expression matches somewhere in `text`.
#[verifier::external_body]
fn is_match(p: &Pattern, text: &str) -> (r: bool)
    ensures
        r == regex_matches(p.source@, text@),
{
    p.re.is_match(text)
}

/// The first text in the cascade, from encoding number `k` on, that `bytes` decode to;
/// empty when none does.
pub open spec fn cascade_from(bytes: Seq<u8>, k: nat) -> Seq<char>
    decreases 5 - k,
{
    if k >= 5 {
        seq![]
    } else {
        match decoding(k, bytes) {
            Some(s) => s,
            None => cascade_from(bytes, k + 1),
        }
    }
}

/// Decodes script bytes in the first encoding of the cascade that reads them without error.
pub fn decode_script(bytes: &[u8]) -> (r: String)
    ensures
        r@ == cascade_from(bytes@, 0),
{
    let mut k: usize = 0;
    while k < 5
        invariant
            k <= 5,
            cascade_from(bytes@, 0) == cascade_from(bytes@, k as nat),
        decreases 5 - k,
    {
        match decode_in(k, bytes) {
            Some(s) => {
                return s;
            },
            None => {},
        }
        k += 1;
    }
    String::new()
}

/// The sources of the first `n` compressed scripts, decoded and concatenated; `None` when
/// one of them is not a valid zlib stream.
pub open spec fn joined_sources(blobs: Seq<Seq<u8>>, n: int) -> Option<Seq<char>>
    decreases n,
{
    if n <= 0 {
        Some(seq![])
    } else {
        match (joined_sources(blobs, n - 1), inflated_of(blobs[n - 1])) {
            (Some(prev), Some(raw)) => Some(prev + cascade_from(raw, 0)),
            _ => None,
        }
    }
}

/// The source of a script archive: each compressed script decompressed, decoded, and all
/// concatenated; `None` when one of them is not a valid zlib stream.
pub fn script_source(blobs: &Vec<Vec<u8>>) -> (r: Option<String>)
    ensures
        r matches Some(s) ==> joined_sources(blobs@.map_values(|b: Vec<u8>| b@), blobs@.len() as int)
            == Some(s@),
        r is None ==> joined_sources(blobs@.map_values(|b: Vec<u8>| b@), blobs@.len() as int) is None,
{
    let ghost bv = blobs@.map_values(|b: Vec<u8>| b@);
    let mut out: Vec<char> = Vec::new();
    let mut i: usize = 0;
    while i < blobs.len()
        invariant
            i <= blobs@.len(),
            bv == blobs@.map_values(|b: Vec<u8>| b@),
            joined_sources(bv, i as int) == Some(out@),
        decreases blobs.len() - i,
    {
        match inflate(blobs[i].as_slice()) {
            Some(raw) => {
                let text = decode_script(raw.as_slice());
                let mut t = chars_of(text.as_str());
                out.append(&mut t);
            },
            None => {
                proof {
                    lemma_joined_fails_after(bv, i as int + 1, bv.len() as int);
                }
                return None;
            },
        }
        i += 1;
    }
    Some(string_of(&out))
}

proof fn lemma_joined_fails_after(blobs: Seq<Seq<u8>>, n: int, m: int)
    requires
        1 <= n <= m,
        joined_sources(blobs, n) is None,
    ensures
        joined_sources(blobs, m) is None,
    decreases m - n,
{
    if n < m {
        lemma_joined_fails_after(blobs, n + 1, m);
    }
}

/// Compresses a script source for its archive.
pub fn pack_script(source: &str) -> (r: Option<Vec<u8>>)
    ensures
        r matches Some(v) ==> deflated_of(source@) == Some(v@),
        r is None ==> deflated_of(source@) is None,
{
    deflate(source)
}

/// Expressions for string literals of scripts that are not text: asset paths, data file
/// names, calls, numbers and symbols, and engine identifiers.
pub open spec fn non_text_pattern(k: int) -> Seq<char> {
    if k == 0 {
        "(Graphics|Data|Audio|Movies|System)\\/.*\\/?"@
    } else if k == 1 {
        "r[xv]data2?$"@
    } else if k == 2 {
        ".*\\("@
    } else if k == 3 {
        "^([d\\d\\p{P}+-]*|[d\\p{P}+-]&*)$"@
    } else {
        "^(Actor<id>|ExtraDropItem|EquipLearnSkill|GameOver|Iconset|Window|true|false|MActor%d|[wr]b|\\\\f|\\\\n|\\[[A-Z]*\\])$"@
    }
}

fn non_text_pattern_str(k: usize) -> (r: &'static str)
    ensures
        r@ == non_text_pattern(k as int),
{
    if k == 0 {
        "(Graphics|Data|Audio|Movies|System)\\/.*\\/?"
    } else if k == 1 {
        "r[xv]data2?$"
    } else if k == 2 {
        ".*\\("
    } else if k == 3 {
        "^([d\\d\\p{P}+-]*|[d\\p{P}+-]&*)$"
    } else {
        "^(Actor<id>|ExtraDropItem|EquipLearnSkill|GameOver|Iconset|Window|true|false|MActor%d|[wr]b|\\\\f|\\\\n|\\[[A-Z]*\\])$"
    }
}

/// Whether a string literal of a script is translatable text.
pub open spec fn is_script_text(s: Seq<char>) -> bool {
    &&& s.len() > 0
    &&& !only_symbols(s)
    &&& !contains_seq(s, "@window"@)
    &&& !contains_seq(s, "\\$game"@)
    &&& !starts_with_seq(s, "\\\\e"@)
    &&& !contains_seq(s, "ALPHAC"@)
    &&& !contains_seq(s, "_"@)
    &&& forall|k: int| 0 <= k < 5 ==> !regex_matches(non_text_pattern(k), s)
}

/// The lines of the first `n` literals: the text ones, romanized when asked, those on the
/// ignore list left out.
pub open spec fn script_keys_upto(
    lits: Seq<Seq<char>>,
    romanize: bool,
    ignore: Seq<Seq<char>>,
    n: int,
) -> Seq<Seq<char>>
    decreases n,
{
    if n <= 0 {
        seq![]
    } else {
        let prev = script_keys_upto(lits, romanize, ignore, n - 1);
        let s = lits[n - 1];
        let k = if romanize {
            romanized(s)
        } else {
            s
        };
        if is_script_text(s) && !ignore.contains(k) {
            prev.push(k)
        } else {
            prev
        }
    }
}

fn compile_all() -> (r: Option<Vec<Pattern>>)
    ensures
        r matches Some(v) ==> v@.len() == 5 && forall|k: int| 0 <= k < 5 ==> (#[trigger] v@[k]).source@ == non_text_pattern(k),
        r is None <==> exists|k: int| 0 <= k < 5 && !regex_compiles(#[trigger] non_text_pattern(k)),
{
    let mut v: Vec<Pattern> = Vec::new();
    let mut k: usize = 0;
    while k < 5
        invariant
            k <= 5,
            v@.len() == k,
            forall|m: int| 0 <= m < k ==> (#[trigger] v@[m]).source@ == non_text_pattern(m),
            forall|m: int| 0 <= m < k ==> regex_compiles(#[trigger] non_text_pattern(m)),
        decreases 5 - k,
    {
        match compile(non_text_pattern_str(k)) {
            Some(p) => v.push(p),
            None => {
                return None;
            },
        }
        k += 1;
    }
    Some(v)
}

fn script_text_check(s: &str, patterns: &Vec<Pattern>) -> (r: bool)
    requires
        patterns@.len() == 5,
        forall|k: int| 0 <= k < 5 ==> (#[trigger] patterns@[k]).source@ == non_text_pattern(k),
    ensures
        r == is_script_text(s@),
{
    let v = chars_of(s);
    if v.len() == 0 || string_is_only_symbols(&v) || contains(&v, &chars_of("@window"))
        || contains(&v, &chars_of("\\$game")) || starts_with(&v, &chars_of("\\\\e")) || contains(
        &v,
        &chars_of("ALPHAC"),
    ) || contains(&v, &chars_of("_")) {
        return false;
    }
    let mut k: usize = 0;
    while k < 5
        invariant
            k <= 5,
            patterns@.len() == 5,
            forall|m: int| 0 <= m < 5 ==> (#[trigger] patterns@[m]).source@ == non_text_pattern(m),
            forall|m: int| 0 <= m < k ==> !regex_matches(non_text_pattern(m), s@),
        decreases 5 - k,
    {
        if is_match(&patterns[k], s) {
            return false;
        }
        k += 1;
    }
    true
}

/// The lines of a script source, in order of first appearance (see `is_script_text`);
/// `None` when the expressions that rule out non-text literals do not compile.
pub fn script_lines(source: &str, romanize: bool, ignore: &Vec<String>) -> (r: Option<Vec<String>>)
    ensures
        r matches Some(v) ==> str_views(v@) == script_keys_upto(
            lex_upto(source@, source@.len() as int).found,
            romanize,
            str_views(ignore@),
            lex_upto(source@, source@.len() as int).found.len() as int,
        ),
        r is None <==> exists|k: int| 0 <= k < 5 && !regex_compiles(#[trigger] non_text_pattern(k)),
{
    let patterns = match compile_all() {
        Some(p) => p,
        None => {
            return None;
        },
    };
    let (lits, _) = extract_strings(source, false);
    let ghost lv = str_views(lits@);
    let mut r: Vec<String> = Vec::new();
    let mut i: usize = 0;
    while i < lits.len()
        invariant
            i <= lits@.len(),
            lv == str_views(lits@),
            patterns@.len() == 5,
            forall|m: int| 0 <= m < 5 ==> (#[trigger] patterns@[m]).source@ == non_text_pattern(m),
            str_views(r@) == script_keys_upto(lv, romanize, str_views(ignore@), i as int),
        decreases lits.len() - i,
    {
        let s = &lits[i];
        if script_text_check(s.as_str(), &patterns) {
            let k = if romanize {
                string_of(&romanize_chars(&chars_of(s.as_str())))
            } else {
                s.clone()
            };
            if !contains_string(ignore, k.as_str()) {
                let ghost rv = str_views(r@);
                r.push(k);
                assert(str_views(r@) =~= rv.push(k@));
            }
        }
        i += 1;
    }
    Some(r)
}

/// The translation a table holds for a literal, when it holds a non-empty one.
pub open spec fn literal_translation(lit: Seq<char>, table: Seq<crate::table::Entry>, romanize: bool) -> Option<
    Seq<char>,
> {
    let k = if romanize {
        romanized(lit)
    } else {
        lit
    };
    match lookup(table, k) {
        Some(t) => if t.len() > 0 {
            Some(t)
        } else {
            None
        },
        None => None,
    }
}

/// The output so far and the position reached after the first `n` literals: each translated
/// literal's contents replaced, ranges that would go back over earlier output passed over.
pub open spec fn spliced_upto(
    s: Seq<char>,
    lits: Seq<Seq<char>>,
    ranges: Seq<(int, int)>,
    table: Seq<crate::table::Entry>,
    romanize: bool,
    n: int,
) -> (Seq<char>, int)
    decreases n,
{
    if n <= 0 {
        (seq![], 0)
    } else {
        let (out, pos) = spliced_upto(s, lits, ranges, table, romanize, n - 1);
        let (a, b) = ranges[n - 1];
        match literal_translation(lits[n - 1], table, romanize) {
            Some(t) => if pos <= a && a <= b && b <= s.len() {
                (out + s.subrange(pos, a) + t, b)
            } else {
                (out, pos)
            },
            None => (out, pos),
        }
    }
}

/// A script source with the contents of each translated string literal replaced by its
/// translation.
pub open spec fn translated_source(s: Seq<char>, table: Seq<crate::table::Entry>, romanize: bool) -> Seq<char> {
    let st = lex_upto(s, s.len() as int);
    let (out, pos) = spliced_upto(s, st.found, st.ranges, table, romanize, st.found.len() as int);
    out + s.subrange(pos, s.len() as int)
}

/// Puts the translations of `table` into a script source, in place of the literals they
/// translate.
pub fn translate_script(source: &str, table: &TranslationTable, romanize: bool) -> (r: String)
    requires
        table.wf(),
    ensures
        r@ == translated_source(source@, table@, romanize),
{
    let s = chars_of(source);
    let (lits, ranges) = extract_strings(source, true);
    let ghost lv = str_views(lits@);
    let ghost rv = ranges@.map_values(|x: (usize, usize)| (x.0 as int, x.1 as int));
    proof {
        lemma_found_ranges_same_length(source@, source@.len() as int);
    }
    let mut out: Vec<char> = Vec::new();
    let mut pos: usize = 0;
    let mut i: usize = 0;
    while i < lits.len()
        invariant
            i <= lits@.len() == ranges@.len(),
            s@ == source@,
            lv == str_views(lits@),
            rv == ranges@.map_values(|x: (usize, usize)| (x.0 as int, x.1 as int)),
            pos <= s@.len(),
            table.wf(),
            (out@, pos as int) == spliced_upto(s@, lv, rv, table@, romanize, i as int),
        decreases lits.len() - i,
    {
        let (a, b) = ranges[i];
        let k = if romanize {
            string_of(&romanize_chars(&chars_of(lits[i].as_str())))
        } else {
            lits[i].clone()
        };
        match table.get(k.as_str()) {
            Some(t) => {
                if !t.as_str().is_empty() && pos <= a && a <= b && b <= s.len() {
                    let mut gap = crate::text::slice_chars(&s, pos, a);
                    let mut tv = chars_of(t.as_str());
                    out.append(&mut gap);
                    out.append(&mut tv);
                    pos = b;
                }
            },
            None => {},
        }
        i += 1;
    }
    let mut rest = crate::text::slice_chars(&s, pos, s.len());
    out.append(&mut rest);
    string_of(&out)
}

proof fn lemma_found_ranges_same_length(s: Seq<char>, n: int)
    ensures
        lex_upto(s, n).found.len() == lex_upto(s, n).ranges.len(),
    decreases n,
{
    if n > 0 {
        lemma_found_ranges_same_length(s, n - 1);
    }
}

} // verus!
