//! The line file: one `original<#>translation` record per line, line feeds inside a field
//! written as `\#`.
use crate::text::{chars_of, find_from, first_occurrence, starts_with, starts_with_seq, string_of};
use crate::merge::pair_views;
use crate::purge::lit_comment;
use crate::writeback::split_lines;
use vstd::prelude::*;

verus! {

/// The separator between the original and the translation of a record.
pub open spec fn lit_separator() -> Seq<char> {
    seq!['<', '#', '>']
}

/// `s` with each `\#` read back as a line feed.
pub open spec fn unescaped(s: Seq<char>) -> Seq<char>
    decreases s.len(),
{
    if s.len() == 0 {
        seq![]
    } else if s.len() >= 2 && s[0] == '\\' && s[1] == '#' {
        seq!['\n'] + unescaped(s.subrange(2, s.len() as int))
    } else {
        seq![s[0]] + unescaped(s.subrange(1, s.len() as int))
    }
}

/// `s` with each line feed written as `\#`.
pub open spec fn escaped(s: Seq<char>) -> Seq<char>
    decreases s.len(),
{
    if s.len() == 0 {
        seq![]
    } else {
        escaped(s.drop_last()) + if s.last() == '\n' {
            seq!['\\', '#']
        } else {
            seq![s.last()]
        }
    }
}

/// A record read from one line: `None` when the line has no separator.
pub open spec fn parsed_line(line: Seq<char>) -> Option<(Seq<char>, Seq<char>)> {
    match first_occurrence(line, lit_separator(), 0) {
        Some(i) => Some(
            (unescaped(line.subrange(0, i)), unescaped(line.subrange(i + 3, line.len() as int))),
        ),
        None => None,
    }
}

/// The records of the first `n` lines, and the 1-based numbers of the lines without a
/// separator; comment lines are records only when `keep_comments` is set.
pub open spec fn parsed_upto(lines: Seq<Seq<char>>, keep_comments: bool, n: int) -> (
    Seq<(Seq<char>, Seq<char>)>,
    Seq<int>,
)
    decreases n,
{
    if n <= 0 {
        (seq![], seq![])
    } else {
        let (recs, bad) = parsed_upto(lines, keep_comments, n - 1);
        let line = lines[n - 1];
        if !keep_comments && starts_with_seq(line, lit_comment()) {
            (recs, bad)
        } else {
            match parsed_line(line) {
                Some(r) => (recs.push(r), bad),
                None => (recs, bad.push(n)),
            }
        }
    }
}

pub open spec fn parsed_file(text: Seq<char>, keep_comments: bool) -> (
    Seq<(Seq<char>, Seq<char>)>,
    Seq<int>,
) {
    parsed_upto(split_lines(text), keep_comments, split_lines(text).len() as int)
}

/// One record as a line.
pub open spec fn rendered_line(e: (Seq<char>, Seq<char>)) -> Seq<char> {
    escaped(e.0) + lit_separator() + escaped(e.1)
}

/// Records as line-file text, one per line.
pub open spec fn rendered(entries: Seq<(Seq<char>, Seq<char>)>) -> Seq<char>
    decreases entries.len(),
{
    if entries.len() == 0 {
        seq![]
    } else if entries.len() == 1 {
        rendered_line(entries[0])
    } else {
        rendered(entries.drop_last()) + seq!['\n'] + rendered_line(entries.last())
    }
}

fn unescape(s: &[char], lo: usize, hi: usize) -> (r: Vec<char>)
    requires
        lo <= hi <= s@.len(),
    ensures
        r@ == unescaped(s@.subrange(lo as int, hi as int)),
{
    let mut r: Vec<char> = Vec::new();
    let mut i: usize = lo;
    while i < hi
        invariant
            lo <= i <= hi <= s@.len(),
            r@ + unescaped(s@.subrange(i as int, hi as int)) == unescaped(s@.subrange(lo as int, hi as int)),
        decreases hi - i,
    {
        let ghost rest = s@.subrange(i as int, hi as int);
        if i + 1 < hi && s[i] == '\\' && s[i + 1] == '#' {
            r.push('\n');
            assert(rest.subrange(2, rest.len() as int) =~= s@.subrange(i + 2, hi as int));
            i += 2;
        } else {
            r.push(s[i]);
            assert(rest.subrange(1, rest.len() as int) =~= s@.subrange(i + 1, hi as int));
            i += 1;
        }
        assert(r@ + unescaped(s@.subrange(i as int, hi as int)) =~= unescaped(s@.subrange(lo as int, hi as int)));
    }
    assert(unescaped(s@.subrange(i as int, hi as int)) =~= Seq::<char>::empty());
    assert(r@ + Seq::<char>::empty() =~= r@);
    r
}

fn escape_into(out: &mut Vec<char>, s: &str)
    ensures
        final(out)@ == old(out)@ + escaped(s@),
{
    let v = chars_of(s);
    let ghost start = out@;
    let mut i: usize = 0;
    while i < v.len()
        invariant
            i <= v@.len(),
            v@ == s@,
            out@ == start + escaped(v@.take(i as int)),
        decreases v.len() - i,
    {
        assert(v@.take(i + 1).drop_last() =~= v@.take(i as int));
        if v[i] == '\n' {
            out.push('\\');
            out.push('#');
        } else {
            out.push(v[i]);
        }
        i += 1;
        assert(out@ =~= start + escaped(v@.take(i as int)));
    }
    assert(v@.take(v@.len() as int) =~= v@);
}

/// Reads the records of a line file. Returns them in order, with the 1-based numbers of the
/// lines that hold no separator; comment lines are kept only when `keep_comments` is set.
pub fn parse_translation(text: &str, keep_comments: bool) -> (r: (Vec<(String, String)>, Vec<usize>))
    ensures
        pair_views(r.0@) == parsed_file(text@, keep_comments).0,
        r.1@.map_values(|n: usize| n as int) == parsed_file(text@, keep_comments).1,
{
    let lines = crate::writeback::split_text_lines(&chars_of(text));
    let ghost lv = lines@.map_values(|v: Vec<char>| v@);
    let comment = vec!['<', '!', '-', '-'];
    let sep = vec!['<', '#', '>'];
    assert(comment@ == lit_comment());
    assert(sep@ == lit_separator());
    let mut recs: Vec<(String, String)> = Vec::new();
    let mut bad: Vec<usize> = Vec::new();
    let mut k: usize = 0;
    while k < lines.len()
        invariant
            k <= lines@.len(),
            lv == lines@.map_values(|v: Vec<char>| v@),
            comment@ == lit_comment(),
            sep@ == lit_separator(),
            (pair_views(recs@), bad@.map_values(|n: usize| n as int)) == parsed_upto(lv, keep_comments, k as int),
        decreases lines.len() - k,
    {
        let line = &lines[k];
        let ghost rv = pair_views(recs@);
        let ghost bv = bad@.map_values(|n: usize| n as int);
        if !keep_comments && starts_with(line, &comment) {
        } else {
            match find_from(line, &sep, 0) {
                Some(i) => {
                    assert(sep@.len() == 3);
                    let n = line.len();
                    assert(i + 3 <= n);
                    let o = string_of(&unescape(line, 0, i));
                    let t = string_of(&unescape(line, i + 3, n));
                    recs.push((o, t));
                    assert(pair_views(recs@) =~= rv.push((o@, t@)));
                },
                None => {
                    bad.push(k + 1);
                    assert(bad@.map_values(|n: usize| n as int) =~= bv.push(k + 1));
                },
            }
        }
        k += 1;
    }
    (recs, bad)
}

/// Writes records as line-file text, one per line, without a final line feed.
pub fn render_translation(entries: &Vec<(String, String)>) -> (r: String)
    ensures
        r@ == rendered(pair_views(entries@)),
{
    let ghost ev = pair_views(entries@);
    let mut out: Vec<char> = Vec::new();
    let mut i: usize = 0;
    while i < entries.len()
        invariant
            i <= entries@.len(),
            ev == pair_views(entries@),
            out@ == rendered(ev.take(i as int)),
        decreases entries.len() - i,
    {
        assert(ev.take(i + 1).drop_last() =~= ev.take(i as int));
        if i > 0 {
            out.push('\n');
        }
        escape_into(&mut out, entries[i].0.as_str());
        out.push('<');
        out.push('#');
        out.push('>');
        escape_into(&mut out, entries[i].1.as_str());
        assert(out@ =~= rendered(ev.take(i + 1)));
        i += 1;
    }
    assert(ev.take(entries@.len() as int) =~= ev);
    string_of(&out)
}

/// The blocks of an ignore file from its first `n` lines: a line starting with
/// `<!-- File:` opens a block for that file; each other non-empty line is an original of the
/// block open at that point; lines before the first marker are passed over.
pub open spec fn ignore_upto(lines: Seq<Seq<char>>, n: int) -> Seq<(Seq<char>, Seq<Seq<char>>)>
    decreases n,
{
    if n <= 0 {
        seq![]
    } else {
        let prev = ignore_upto(lines, n - 1);
        let line = lines[n - 1];
        if starts_with_seq(line, "<!-- File:"@) {
            prev.push((line, seq![]))
        } else if line.len() == 0 || prev.len() == 0 {
            prev
        } else {
            prev.update(prev.len() - 1, (prev.last().0, prev.last().1.push(line)))
        }
    }
}

/// The blocks of an ignore file.
pub open spec fn ignore_blocks(text: Seq<char>) -> Seq<(Seq<char>, Seq<Seq<char>>)> {
    ignore_upto(split_lines(text), split_lines(text).len() as int)
}

pub open spec fn ignore_views(v: Seq<(String, Vec<String>)>) -> Seq<(Seq<char>, Seq<Seq<char>>)> {
    v.map_values(|b: (String, Vec<String>)| (b.0@, b.1@.map_values(|s: String| s@)))
}

/// Reads an ignore file: for each file marker, the originals listed under it.
pub fn parse_ignore(text: &str) -> (r: Vec<(String, Vec<String>)>)
    ensures
        ignore_views(r@) == ignore_blocks(text@),
{
    let lines = crate::writeback::split_text_lines(&chars_of(text));
    let ghost lv = lines@.map_values(|v: Vec<char>| v@);
    let marker = chars_of("<!-- File:");
    let mut r: Vec<(String, Vec<String>)> = Vec::new();
    let mut k: usize = 0;
    while k < lines.len()
        invariant
            k <= lines@.len(),
            lv == lines@.map_values(|v: Vec<char>| v@),
            marker@ == "<!-- File:"@,
            ignore_views(r@) == ignore_upto(lv, k as int),
        decreases lines.len() - k,
    {
        let line = &lines[k];
        let ghost before = ignore_views(r@);
        if starts_with(line, &marker) {
            let empty: Vec<String> = Vec::new();
            assert(empty@.map_values(|s: String| s@) =~= Seq::<Seq<char>>::empty());
            r.push((string_of(line), empty));
            assert(ignore_views(r@) =~= before.push((line@, seq![])));
        } else if line.len() > 0 && r.len() > 0 {
            let last = r.len() - 1;
            let (file, mut list) = r.remove(last);
            let ghost lview = list@.map_values(|s: String| s@);
            list.push(string_of(line));
            assert(list@.map_values(|s: String| s@) =~= lview.push(line@));
            r.push((file, list));
            assert(ignore_views(r@) =~= before.update(before.len() - 1, (before.last().0, before.last().1.push(line@))));
        }
        k += 1;
    }
    r
}

/// An ignore file's text: each marker on its own line, followed by its originals, one per
/// line.
pub open spec fn rendered_ignore(blocks: Seq<(Seq<char>, Seq<Seq<char>>)>) -> Seq<char>
    decreases blocks.len(),
{
    if blocks.len() == 0 {
        seq![]
    } else {
        rendered_ignore(blocks.drop_last()) + blocks.last().0 + seq!['\n'] + lines_block(
            blocks.last().1,
        )
    }
}

/// Lines, each followed by a line feed.
pub open spec fn lines_block(lines: Seq<Seq<char>>) -> Seq<char>
    decreases lines.len(),
{
    if lines.len() == 0 {
        seq![]
    } else {
        lines_block(lines.drop_last()) + lines.last() + seq!['\n']
    }
}

/// Writes an ignore file (see `rendered_ignore`).
pub fn write_ignore(blocks: &Vec<(String, Vec<String>)>) -> (r: String)
    ensures
        r@ == rendered_ignore(ignore_views(blocks@)),
{
    let ghost bv = ignore_views(blocks@);
    let mut out: Vec<char> = Vec::new();
    let mut i: usize = 0;
    while i < blocks.len()
        invariant
            i <= blocks@.len(),
            bv == ignore_views(blocks@),
            out@ == rendered_ignore(bv.take(i as int)),
        decreases blocks.len() - i,
    {
        assert(bv.take(i + 1).drop_last() =~= bv.take(i as int));
        let mut f = chars_of(blocks[i].0.as_str());
        out.append(&mut f);
        out.push('\n');
        let ghost head = out@;
        let list = &blocks[i].1;
        let ghost lv = list@.map_values(|s: String| s@);
        let mut j: usize = 0;
        while j < list.len()
            invariant
                j <= list@.len(),
                lv == list@.map_values(|s: String| s@),
                out@ == head + lines_block(lv.take(j as int)),
            decreases list.len() - j,
        {
            assert(lv.take(j + 1).drop_last() =~= lv.take(j as int));
            let mut l = chars_of(list[j].as_str());
            out.append(&mut l);
            out.push('\n');
            assert(out@ =~= head + lines_block(lv.take(j + 1)));
            j += 1;
        }
        assert(lv.take(list@.len() as int) =~= lv);
        assert(bv[i as int].1 == lv);
        assert(out@ =~= rendered_ignore(bv.take(i + 1)));
        i += 1;
    }
    assert(bv.take(blocks@.len() as int) =~= bv);
    string_of(&out)
}

/// The position of the first block of `file`.
pub open spec fn block_of(blocks: Seq<(Seq<char>, Seq<Seq<char>>)>, file: Seq<char>, from: int) -> Option<int>
    decreases blocks.len() - from,
{
    if from < 0 || from >= blocks.len() {
        None
    } else if blocks[from].0 == file {
        Some(from)
    } else {
        block_of(blocks, file, from + 1)
    }
}

/// Ignore blocks after recording removed `lines` for `file`: appended to the file's first
/// block, those already listed there left out, or as a new block at the end.
pub open spec fn ignore_added(
    blocks: Seq<(Seq<char>, Seq<Seq<char>>)>,
    file: Seq<char>,
    lines: Seq<Seq<char>>,
) -> Seq<(Seq<char>, Seq<Seq<char>>)> {
    match block_of(blocks, file, 0) {
        Some(i) => blocks.update(i, (file, blocks[i].1 + crate::purge::unignored(lines, blocks[i].1))),
        None => blocks.push((file, lines)),
    }
}

/// Records removed lines of `file` in the ignore blocks (see `ignore_added`).
pub fn add_to_ignore(blocks: &mut Vec<(String, Vec<String>)>, file: String, lines: &Vec<String>)
    ensures
        ignore_views(final(blocks)@) == ignore_added(ignore_views(old(blocks)@), file@, crate::walker::str_views(lines@)),
{
    let ghost bv = ignore_views(blocks@);
    let target = chars_of(file.as_str());
    let mut i: usize = 0;
    assert(block_of(bv, file@, 0) == block_of(bv, file@, 0));
    while i < blocks.len()
        invariant
            i <= blocks@.len(),
            bv == ignore_views(blocks@),
            blocks@ == old(blocks)@,
            target@ == file@,
            block_of(bv, file@, 0) == block_of(bv, file@, i as int),
        decreases blocks.len() - i,
    {
        assert(bv[i as int].0 == blocks@[i as int].0@);
        if crate::text::same_chars(&chars_of(blocks[i].0.as_str()), &target) {
            let (f, old_list) = blocks.remove(i);
            let mut list = old_list;
            let ghost lv = crate::walker::str_views(list@);
            assert(lv == bv[i as int].1);
            let mut extra = crate::purge::drop_ignored(lines, &list);
            list.append(&mut extra);
            assert(crate::walker::str_views(list@) =~= lv + crate::purge::unignored(crate::walker::str_views(lines@), lv));
            blocks.insert(i, (file, list));
            assert(ignore_views(blocks@) =~= ignore_added(bv, file@, crate::walker::str_views(lines@)));
            return;
        }
        i += 1;
    }
    let none: Vec<String> = Vec::new();
    assert(crate::walker::str_views(none@) =~= Seq::<Seq<char>>::empty());
    let copy = crate::purge::drop_ignored(lines, &none);
    proof {
        lemma_unignored_none(crate::walker::str_views(lines@));
    }
    blocks.push((file, copy));
    assert(ignore_views(blocks@) =~= bv.push((file@, crate::walker::str_views(lines@))));
}

proof fn lemma_unignored_none(lines: Seq<Seq<char>>)
    ensures
        crate::purge::unignored(lines, seq![]) == lines,
    decreases lines.len(),
{
    if lines.len() > 0 {
        lemma_unignored_none(lines.drop_last());
        assert(lines.drop_last().push(lines.last()) =~= lines);
    }
}

} // verus!
