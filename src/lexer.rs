//! The embedded-script lexer: finds the contents of quoted string literals in script source,
//! passing over comments.
use crate::purge::contains_string;
use crate::text::{chars_of, first_occurrence, find_from, starts_with, starts_with_seq, string_of, trim_range, trim_seq};
use crate::walker::str_views;
use vstd::prelude::*;

verus! {

/// The lexer's state while it scans a source.
pub struct LexState {
    /// Inside a string literal.
    pub in_str: bool,
    /// Inside a `=begin` ... `=end` block comment.
    pub in_comment: bool,
    /// The rest of the current line is passed over.
    pub skip: bool,
    /// Position of the opening quote of the literal in progress.
    pub start: int,
    /// The quote character of the literal in progress.
    pub quote: char,
    /// The literals found, each once, in order of first appearance.
    pub found: Seq<Seq<char>>,
    /// For each literal found, the range of its contents in the source.
    pub ranges: Seq<(int, int)>,
}

/// Whether position `p` of `s` begins a line.
pub open spec fn is_line_start(s: Seq<char>, p: int) -> bool {
    p == 0 || s[p - 1] == '\n'
}

/// The line of `s` that begins at `p`, line feed included.
pub open spec fn line_at(s: Seq<char>, p: int) -> Seq<char> {
    match first_occurrence(s, seq!['\n'], p) {
        Some(j) => s.subrange(p, j + 1),
        None => s.subrange(p, s.len() as int),
    }
}

/// The number of backslashes right before position `p`.
pub open spec fn backslashes_before(s: Seq<char>, p: int) -> nat
    decreases p,
{
    if p <= 0 || p > s.len() {
        0
    } else if s[p - 1] == '\\' {
        1 + backslashes_before(s, p - 1)
    } else {
        0
    }
}

/// `s` with each CR LF pair read as one line feed.
pub open spec fn normalized(s: Seq<char>) -> Seq<char>
    decreases s.len(),
{
    if s.len() == 0 {
        seq![]
    } else if s.len() >= 2 && s[0] == '\r' && s[1] == '\n' {
        seq!['\n'] + normalized(s.subrange(2, s.len() as int))
    } else {
        seq![s[0]] + normalized(s.subrange(1, s.len() as int))
    }
}

pub open spec fn lit_begin() -> Seq<char> {
    seq!['=', 'b', 'e', 'g', 'i', 'n']
}

pub open spec fn lit_end() -> Seq<char> {
    seq!['=', 'e', 'n', 'd']
}

/// The state on entering the line that begins at `p`.
pub open spec fn enter_line(st: LexState, s: Seq<char>, p: int) -> LexState {
    let t = trim_seq(line_at(s, p));
    if !st.in_str && starts_with_seq(t, seq!['#']) {
        LexState { skip: true, ..st }
    } else {
        let c = if !st.in_str && starts_with_seq(t, lit_begin()) {
            true
        } else if !st.in_str && starts_with_seq(t, lit_end()) {
            false
        } else {
            st.in_comment
        };
        LexState { in_comment: c, skip: c, ..st }
    }
}

/// The state after the character at position `p`.
pub open spec fn lex_step(st0: LexState, s: Seq<char>, p: int) -> LexState {
    let st = if is_line_start(s, p) {
        enter_line(st0, s, p)
    } else {
        st0
    };
    let c = s[p];
    if st.skip {
        st
    } else if !st.in_str && c == '#' {
        LexState { skip: true, ..st }
    } else if !st.in_str && (c == '"' || c == '\'') {
        LexState { in_str: true, start: p, quote: c, ..st }
    } else if st.in_str && c == st.quote && backslashes_before(s, p) % 2 == 0 {
        let text = normalized(s.subrange(st.start + 1, p));
        if text.len() > 0 && !st.found.contains(text) {
            LexState {
                in_str: false,
                found: st.found.push(text),
                ranges: st.ranges.push((st.start + 1, p)),
                ..st
            }
        } else {
            LexState { in_str: false, ..st }
        }
    } else {
        st
    }
}

pub open spec fn lex_initial() -> LexState {
    LexState {
        in_str: false,
        in_comment: false,
        skip: false,
        start: 0,
        quote: '\0',
        found: seq![],
        ranges: seq![],
    }
}

/// The state after the first `n` characters of `s`.
pub open spec fn lex_upto(s: Seq<char>, n: int) -> LexState
    decreases n,
{
    if n <= 0 {
        lex_initial()
    } else {
        lex_step(lex_upto(s, n - 1), s, n - 1)
    }
}

pub(crate) fn normalize(s: &[char], lo: usize, hi: usize) -> (r: Vec<char>)
    requires
        lo <= hi <= s@.len(),
    ensures
        r@ == normalized(s@.subrange(lo as int, hi as int)),
{
    let mut r: Vec<char> = Vec::new();
    let mut i: usize = lo;
    while i < hi
        invariant
            lo <= i <= hi <= s@.len(),
            r@ + normalized(s@.subrange(i as int, hi as int)) == normalized(s@.subrange(lo as int, hi as int)),
        decreases hi - i,
    {
        let ghost rest = s@.subrange(i as int, hi as int);
        if i + 1 < hi && s[i] == '\r' && s[i + 1] == '\n' {
            r.push('\n');
            assert(rest.subrange(2, rest.len() as int) =~= s@.subrange(i + 2, hi as int));
            i += 2;
        } else {
            r.push(s[i]);
            assert(rest.subrange(1, rest.len() as int) =~= s@.subrange(i + 1, hi as int));
            i += 1;
        }
        assert(r@ + normalized(s@.subrange(i as int, hi as int)) =~= normalized(s@.subrange(lo as int, hi as int)));
    }
    assert(normalized(s@.subrange(i as int, hi as int)) =~= Seq::<char>::empty());
    assert(r@ + Seq::<char>::empty() =~= r@);
    r
}

fn is_escaped(s: &[char], p: usize) -> (r: bool)
    requires
        p <= s@.len(),
    ensures
        r == (backslashes_before(s@, p as int) % 2 == 1),
{
    let mut k: usize = p;
    let mut odd = false;
    while k > 0 && s[k - 1] == '\\'
        invariant
            k <= p <= s@.len(),
            backslashes_before(s@, p as int) == (p - k) + backslashes_before(s@, k as int),
            odd == ((p - k) % 2 == 1),
        decreases k,
    {
        k -= 1;
        odd = !odd;
    }
    odd
}

/// The contents of the string literals of a script, each once, in order of first appearance,
/// with CR LF read as a line feed and empty literals left out; with `write`, also the range of
/// characters each one occupies in `ruby_code`.
pub fn extract_strings(ruby_code: &str, write: bool) -> (r: (Vec<String>, Vec<(usize, usize)>))
    ensures
        str_views(r.0@) == lex_upto(ruby_code@, ruby_code@.len() as int).found,
        write ==> r.1@.map_values(|x: (usize, usize)| (x.0 as int, x.1 as int)) == lex_upto(
            ruby_code@,
            ruby_code@.len() as int,
        ).ranges,
        !write ==> r.1@.len() == 0,
{
    let s = chars_of(ruby_code);
    let newline = vec!['\n'];
    let hash = vec!['#'];
    let begin = vec!['=', 'b', 'e', 'g', 'i', 'n'];
    let end = vec!['=', 'e', 'n', 'd'];
    let mut in_str = false;
    let mut in_comment = false;
    let mut skip = false;
    let mut start: usize = 0;
    let mut quote: char = '\0';
    let mut found: Vec<String> = Vec::new();
    let mut ranges: Vec<(usize, usize)> = Vec::new();
    let ghost mut all_ranges: Seq<(int, int)> = seq![];
    let mut p: usize = 0;
    while p < s.len()
        invariant
            p <= s@.len(),
            s@ == ruby_code@,
            newline@ == seq!['\n'],
            hash@ == seq!['#'],
            begin@ == lit_begin(),
            end@ == lit_end(),
            start <= p,
            in_str ==> start < p,
            ({
                let st = lex_upto(s@, p as int);
                &&& st.in_str == in_str
                &&& st.in_comment == in_comment
                &&& st.skip == skip
                &&& st.start == start as int
                &&& st.quote == quote
                &&& st.found == str_views(found@)
                &&& st.ranges == all_ranges
            }),
            write ==> ranges@.map_values(|x: (usize, usize)| (x.0 as int, x.1 as int)) == all_ranges,
            !write ==> ranges@.len() == 0,
        decreases s.len() - p,
    {
        if p == 0 || s[p - 1] == '\n' {
            let line_end = match find_from(&s, &newline, p) {
                Some(j) => j + 1,
                None => s.len(),
            };
            let (a, b) = trim_range(&s, p, line_end);
            let t = crate::text::slice_chars(&s, a, b);
            if !in_str && starts_with(&t, &hash) {
                skip = true;
            } else {
                if !in_str && starts_with(&t, &begin) {
                    in_comment = true;
                } else if !in_str && starts_with(&t, &end) {
                    in_comment = false;
                }
                skip = in_comment;
            }
        }
        let c = s[p];
        if skip {
        } else if !in_str && c == '#' {
            skip = true;
        } else if !in_str && (c == '"' || c == '\'') {
            in_str = true;
            start = p;
            quote = c;
        } else if in_str && c == quote && !is_escaped(&s, p) {
            let text = normalize(&s, start + 1, p);
            let text = string_of(&text);
            if !text.as_str().is_empty() && !contains_string(&found, text.as_str()) {
                let ghost fv = str_views(found@);
                found.push(text);
                assert(str_views(found@) =~= fv.push(text@));
                proof {
                    all_ranges = all_ranges.push((start + 1, p as int));
                }
                if write {
                    let ghost rv = ranges@.map_values(|x: (usize, usize)| (x.0 as int, x.1 as int));
                    ranges.push((start + 1, p));
                    assert(ranges@.map_values(|x: (usize, usize)| (x.0 as int, x.1 as int)) =~= rv.push(
                        (start + 1, p as int),
                    ));
                }
            }
            in_str = false;
        }
        p += 1;
    }
    (found, ranges)
}

} // verus!
