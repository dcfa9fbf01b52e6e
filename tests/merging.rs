use rvpacker_txt_rs::line_file::{parse_translation, render_translation};
use rvpacker_txt_rs::line_file::add_to_ignore;
use rvpacker_txt_rs::maps::{
    decimal_string, display_name_translation, drop_seen, event_name_comment, map_block, parse_map_number, purge_maps, read_preserved_maps,
    split_map_blocks, table_from_entries,
};
use rvpacker_txt_rs::merge::{merge_lines, merge_preserve};
use rvpacker_txt_rs::purge::{purge_entries, purge_untranslated};
use rvpacker_txt_rs::table::TranslationTable;
use rvpacker_txt_rs::types::{is_other_data_file, output_readiness, GameType, ProcessingMode, Readiness};

fn s(x: &str) -> String {
    x.to_string()
}

fn pairs(v: &[(&str, &str)]) -> Vec<(String, String)> {
    v.iter().map(|(a, b)| (s(a), s(b))).collect()
}

fn table(v: &[(&str, &str)]) -> TranslationTable {
    let mut t = TranslationTable::new();
    for (a, b) in v {
        t.insert(s(a), s(b));
    }
    t
}

#[test]
fn append_merge_follows_extraction_order_and_keeps_work() {
    let old = table(&[("A", "a"), ("B", "b")]);
    let fresh = vec![s("B"), s("C")];
    let r = merge_lines(&fresh, &old, ProcessingMode::Append);
    assert_eq!(r.entries(), pairs(&[("B", "b"), ("C", "")]));
}

#[test]
fn vanished_lines_are_dropped_unless_purged_with_leave_filled() {
    let saved = pairs(&[("A", "t_a"), ("B", "t_b")]);
    let fresh = vec![s("B"), s("C")];
    let merged = merge_lines(&fresh, &table_from_entries(&saved), ProcessingMode::Append).entries();
    assert_eq!(merged, pairs(&[("B", "t_b"), ("C", "")]));
    let (kept, gone) = purge_entries(&saved, &fresh, false);
    assert_eq!(kept, pairs(&[("B", "t_b")]));
    assert_eq!(gone, pairs(&[("A", "t_a")]));
    let (kept, gone) = purge_entries(&saved, &fresh, true);
    assert_eq!(kept, pairs(&[("A", "t_a"), ("B", "t_b")]));
    assert!(gone.is_empty());
}

#[test]
fn purge_keeps_comments_and_drops_untranslated_stale_lines_even_when_leaving_filled() {
    let old = pairs(&[("<!-- Map -->", "1"), ("Gone", ""), ("Kept", "k")]);
    let fresh = vec![s("Kept")];
    let (kept, gone) = purge_entries(&old, &fresh, true);
    assert_eq!(kept, pairs(&[("<!-- Map -->", "1"), ("Kept", "k")]));
    assert_eq!(gone, pairs(&[("Gone", "")]));
}

#[test]
fn merge_never_duplicates_originals() {
    let old = table(&[("A", "a")]);
    let fresh = vec![s("A"), s("B"), s("A"), s("B")];
    let r = merge_lines(&fresh, &old, ProcessingMode::Append);
    assert_eq!(r.entries(), pairs(&[("A", "a"), ("B", "")]));
    let r = merge_lines(&fresh, &old, ProcessingMode::Force);
    assert_eq!(r.entries(), pairs(&[("A", ""), ("B", "")]));
}

#[test]
fn preserve_merge_keeps_duplicates_in_order() {
    let fresh = vec![s("X"), s("Y"), s("X")];
    let r = merge_preserve(&fresh, Vec::new(), ProcessingMode::Default);
    assert_eq!(r, pairs(&[("X", ""), ("Y", ""), ("X", "")]));
}

#[test]
fn preserve_append_slots_in_new_occurrences() {
    let old = pairs(&[("X", "x"), ("X", "x2")]);
    let fresh = vec![s("X"), s("Y"), s("X"), s("Z")];
    let r = merge_preserve(&fresh, old, ProcessingMode::Append);
    assert_eq!(r, pairs(&[("X", "x"), ("Y", ""), ("X", "x2"), ("Z", "")]));
}

#[test]
fn table_lookup_and_update() {
    let mut t = table(&[("A", "a")]);
    t.insert(s("A"), s("b"));
    assert_eq!(t.len(), 1);
    assert_eq!(t.get("A"), Some(s("b")));
    assert_eq!(t.get("Z"), None);
    assert_eq!(t.position("A"), Some(0));
}

#[test]
fn line_file_round_trip() {
    let entries = pairs(&[("Hello\nworld", "Bonjour\nmonde"), ("Yes", "")]);
    let text = render_translation(&entries);
    assert_eq!(text, "Hello\\#world<#>Bonjour\\#monde\nYes<#>");
    let (back, bad) = parse_translation(&text, true);
    assert_eq!(back, entries);
    assert!(bad.is_empty());
}

#[test]
fn line_file_reports_records_without_separator() {
    let (recs, bad) = parse_translation("<!-- Map --><#>1\nbroken\nA<#>B", false);
    assert_eq!(recs, pairs(&[("A", "B")]));
    assert_eq!(bad, vec![2]);
    let (recs, _) = parse_translation("<!-- Map --><#>1\nA<#>B", true);
    assert_eq!(recs, pairs(&[("<!-- Map -->", "1"), ("A", "B")]));
}

#[test]
fn map_numbers_come_from_the_first_three_digits() {
    assert_eq!(parse_map_number("Map012.json"), Some(12));
    assert_eq!(parse_map_number("Map1234.json"), Some(123));
    assert_eq!(parse_map_number("Map.json"), None);
    assert_eq!(decimal_string(0), "0");
    assert_eq!(decimal_string(4096), "4096");
}

#[test]
fn map_block_rebuilds_header_and_keeps_display_translation() {
    let saved = pairs(&[
        ("<!-- Map -->", "3"),
        ("<!-- In-game Displayed Name: Old -->", "Vieux"),
        ("<!-- Order -->", "1"),
        ("Hi", "Salut"),
    ]);
    let fresh = vec![s("Hi"), s("Bye")];
    let r = map_block(3, "Town", "New", 2, &fresh, &saved, ProcessingMode::Append);
    assert_eq!(
        r,
        pairs(&[
            ("<!-- Map -->", "3"),
            ("<!-- Map Name: Town -->", ""),
            ("<!-- In-game Displayed Name: New -->", "Vieux"),
            ("<!-- Order -->", "2"),
            ("Hi", "Salut"),
            ("Bye", ""),
        ])
    );
    let r = map_block(3, "", "", 7, &fresh, &saved, ProcessingMode::Force);
    assert_eq!(r, pairs(&[("<!-- Map -->", "3"), ("<!-- Order -->", "7"), ("Hi", ""), ("Bye", "")]));
}

#[test]
fn saved_maps_split_into_blocks() {
    let saved = pairs(&[("<!-- Map -->", "1"), ("A", "a"), ("<!-- Map -->", "2"), ("B", "b")]);
    let blocks = split_map_blocks(&saved);
    assert_eq!(blocks.len(), 2);
    assert_eq!(blocks[1], pairs(&[("<!-- Map -->", "2"), ("B", "b")]));
    let t = table_from_entries(&blocks[0]);
    assert_eq!(t.entries(), pairs(&[("A", "a")]));
}

#[test]
fn lines_of_earlier_maps_are_dropped() {
    let mut seen = vec![s("A")];
    let r = drop_seen(&vec![s("A"), s("B")], &mut seen);
    assert_eq!(r, vec![s("B")]);
    assert_eq!(seen, vec![s("A"), s("B")]);
}

#[test]
fn ignored_lines_are_left_out() {
    let r = rvpacker_txt_rs::purge::drop_ignored(&vec![s("A"), s("B"), s("A")], &vec![s("A")]);
    assert_eq!(r, vec![s("B")]);
}

#[test]
fn header_values_are_put_back() {
    let merged = pairs(&[("<!-- Map -->", ""), ("Hi", "Salut")]);
    let r = rvpacker_txt_rs::maps::fill_payloads(merged, &vec![s("7"), s("")]);
    assert_eq!(r, pairs(&[("<!-- Map -->", "7"), ("Hi", "Salut")]));
}

#[test]
fn output_readiness_follows_the_mode() {
    assert_eq!(output_readiness(ProcessingMode::Default, true), Readiness::AlreadyExists);
    assert_eq!(output_readiness(ProcessingMode::Append, false), Readiness::NotParsed);
    assert_eq!(output_readiness(ProcessingMode::Force, true), Readiness::Ready);
    assert_eq!(output_readiness(ProcessingMode::Default, false), Readiness::Ready);
}

#[test]
fn map_blocks_are_purged_against_their_own_map() {
    let saved = pairs(&[
        ("<!-- Map -->", "1"),
        ("Moved", "m"),
        ("Stay", ""),
        ("<!-- Map -->", "2"),
        ("Other", "o"),
    ]);
    let maps = vec![(1u16, vec![s("Stay")]), (2u16, vec![s("Other"), s("Moved")])];
    let (kept, gone) = purge_maps(&saved, &maps, false);
    assert_eq!(kept, pairs(&[("<!-- Map -->", "1"), ("Stay", ""), ("<!-- Map -->", "2"), ("Other", "o")]));
    assert_eq!(gone, pairs(&[("Moved", "m")]));
}

#[test]
fn untranslated_lines_can_be_purged() {
    let saved = pairs(&[("<!-- Map -->", "1"), ("A", ""), ("B", "b")]);
    let (kept, gone) = purge_untranslated(&saved);
    assert_eq!(kept, pairs(&[("<!-- Map -->", "1"), ("B", "b")]));
    assert_eq!(gone, pairs(&[("A", "")]));
}

#[test]
fn removed_lines_are_appended_to_the_ignore_list() {
    let mut blocks = vec![(s("<!-- File: map1 -->"), vec![s("A")])];
    add_to_ignore(&mut blocks, s("<!-- File: map1 -->"), &vec![s("A"), s("B")]);
    add_to_ignore(&mut blocks, s("<!-- File: system -->"), &vec![s("C")]);
    assert_eq!(
        blocks,
        vec![(s("<!-- File: map1 -->"), vec![s("A"), s("B")]), (s("<!-- File: system -->"), vec![s("C")])]
    );
}

#[test]
fn display_names_and_event_names() {
    assert_eq!(event_name_comment("Intro"), "<!-- Event Name: Intro -->");
    let saved = pairs(&[("<!-- In-game Displayed Name: Town -->", ""), ("<!-- In-game Displayed Name: Town -->", "Ville")]);
    assert_eq!(display_name_translation(&saved, "Town"), Some(s("Ville")));
    assert_eq!(display_name_translation(&saved, "Cave"), None);
}

#[test]
fn data_files_with_text() {
    assert!(is_other_data_file("Actors", None));
    assert!(!is_other_data_file("Map001", None));
    assert!(!is_other_data_file("Tilesets", None));
    assert!(is_other_data_file("States", None));
    assert!(!is_other_data_file("States", Some(GameType::Termina)));
}

#[test]
fn preserved_maps_read_keeps_every_occurrence_in_order() {
    let maps = vec![
        (pairs(&[("<!-- Map -->", "1"), ("<!-- Order -->", "0")]), vec![s("X"), s("X")]),
        (pairs(&[("<!-- Map -->", "2"), ("<!-- Order -->", "1")]), vec![s("Y")]),
    ];
    let r = read_preserved_maps(&maps, Vec::new(), ProcessingMode::Force);
    assert_eq!(
        r,
        pairs(&[
            ("<!-- Map -->", "1"),
            ("<!-- Order -->", "0"),
            ("X", ""),
            ("X", ""),
            ("<!-- Map -->", "2"),
            ("<!-- Order -->", "1"),
            ("Y", ""),
        ])
    );
}
