use rvpacker_txt_rs::lexer::extract_strings;
use rvpacker_txt_rs::line_file::{parse_ignore, write_ignore};
use rvpacker_txt_rs::plugins::{plugin_text, plugin_translation, plugins_json_text};
use rvpacker_txt_rs::scripts::{decode_script, pack_script, script_lines, script_source, translate_script};
use rvpacker_txt_rs::table::TranslationTable;
use rvpacker_txt_rs::types::{get_maps_labels, get_other_labels, get_system_labels, EngineType, GameType, Variable};
use rvpacker_txt_rs::variables::{
    extract_record, menu_category_lines, process_variable, replace_menu_categories, system_value, translate_variable,
};
use rvpacker_txt_rs::walker::{Command, Parameter};
use rvpacker_txt_rs::writeback::write_list_preserve;

fn s(x: &str) -> String {
    x.to_string()
}

#[test]
fn lexer_finds_literals_once_and_skips_comments() {
    let src = "a = \"Hello\"\n# \"comment\"\nb = 'World' # \"tail\"\n=begin\n\"hidden\"\n=end\nc = \"Hello\"\nd = \"\"\n";
    let (found, ranges) = extract_strings(src, true);
    assert_eq!(found, vec![s("Hello"), s("World")]);
    assert_eq!(ranges, vec![(5, 10), (29, 34)]);
    let (_, none) = extract_strings(src, false);
    assert!(none.is_empty());
}

#[test]
fn lexer_respects_escaped_quotes_and_multiline_literals() {
    let (found, _) = extract_strings("x = \"say \\\"hi\\\"\"\ny = \"a\r\nb\"\n", false);
    assert_eq!(found, vec![s("say \\\"hi\\\""), s("a\nb")]);
}

#[test]
fn script_archives_round_trip_through_compression() {
    let packed = pack_script("p \"Hello\"").unwrap();
    assert_ne!(packed, b"p \"Hello\"".to_vec());
    assert_eq!(script_source(&vec![packed.clone(), packed]).unwrap(), "p \"Hello\"p \"Hello\"");
    assert_eq!(script_source(&vec![vec![1, 2, 3]]), None);
}

#[test]
fn script_bytes_decode_in_the_first_fitting_encoding() {
    assert_eq!(decode_script("héllo".as_bytes()), "héllo");
    assert_eq!(decode_script(&[0x63, 0x61, 0x66, 0xE9]), "café");
}

#[test]
fn script_lines_drop_identifiers_paths_and_calls() {
    let src = "a = \"Hello there\"\nb = \"Graphics/Pictures/x\"\nc = \"my_var\"\nd = \"Window\"\ne = \"call(\"\nf = \"123\"\n";
    let lines = script_lines(src, false, &Vec::new()).unwrap();
    assert_eq!(lines, vec![s("Hello there")]);
    let lines = script_lines(src, false, &vec![s("Hello there")]).unwrap();
    assert!(lines.is_empty());
}

#[test]
fn script_translation_replaces_literal_contents() {
    let mut t = TranslationTable::new();
    t.insert(s("Hello"), s("Bonjour"));
    t.insert(s("Bye"), s(""));
    let out = translate_script("a = \"Hello\"; b = \"Bye\"; c = 'Hello'", &t, false);
    assert_eq!(out, "a = \"Bonjour\"; b = \"Bye\"; c = 'Hello'");
}

#[test]
fn record_fields_follow_the_name() {
    let fields = vec![s(" Potion "), s(""), s("Heals  \n  a bit"), s(""), s(""), s(""), s(""), s("")];
    let lines = extract_record(&fields, "Items", None, EngineType::New, false);
    assert_eq!(lines, vec![s("Potion"), s("Heals\na bit")]);
    let nameless = vec![s(""), s(""), s("Heals"), s(""), s(""), s(""), s(""), s("")];
    assert!(extract_record(&nameless, "Items", None, EngineType::New, false).is_empty());
}

#[test]
fn termina_rules_for_fields() {
    let t = Some(GameType::Termina);
    assert_eq!(process_variable("Hi", "", Variable::Message1, "Skills", t, EngineType::New, false), None);
    assert_eq!(
        process_variable("A knife.", "Sharp.\nmore", Variable::Description, "Items", t, EngineType::New, false),
        Some(s("A knife.\nSharp."))
    );
    assert_eq!(
        process_variable("Sharp.\nmore", "", Variable::Note, "Items", t, EngineType::New, false),
        Some(s("more"))
    );
    assert_eq!(
        process_variable("line\r\nnext", "", Variable::Name, "Items", None, EngineType::XP, false),
        Some(s("line\nnext"))
    );
}

#[test]
fn field_translations_are_finished() {
    let mut table = TranslationTable::new();
    table.insert(s("casts a spell"), s("lance un sort"));
    table.insert(s("Blade"), s("Lame"));
    let m = translate_variable("casts a spell", "", Variable::Message1, "Skills", None, EngineType::New, false, &table);
    assert_eq!(m, Some(s(" lance un sort")));
    let m2 = translate_variable("casts a spell", "", Variable::Message2, "Skills", None, EngineType::New, false, &table);
    assert_eq!(m2, Some(s("lance un sort")));
    let n = translate_variable("Blade", "", Variable::Name, "Weapons", None, EngineType::New, false, &table);
    assert_eq!(n, Some(s("Lame")));
    assert_eq!(translate_variable("Other", "", Variable::Name, "Weapons", None, EngineType::New, false, &table), None);
}

#[test]
fn system_strings_are_trimmed() {
    assert_eq!(system_value("  Gold ", false), Some(s("Gold")));
    assert_eq!(system_value("   ", false), None);
    assert_eq!(system_value("Ⅱ", true), Some(s("II")));
}

#[test]
fn plugin_strings_and_queue() {
    assert_eq!(plugins_json_text("var $plugins =\n[1];\n"), Some(s("\n[1]")));
    assert_eq!(plugins_json_text("nothing"), None);
    assert_eq!(plugin_text("Text", " Hello ", false), Some(s("Hello")));
    assert_eq!(plugin_text("Text", "true", false), None);
    assert_eq!(plugin_text("LATIN", "true", false), Some(s("true")));
    let queue = vec![(s("Hello"), s("Salut")), (s("Bye"), s(""))];
    let mut cursor = 0;
    assert_eq!(plugin_translation("k", "Hello", false, &queue, &mut cursor), Some(s("Salut")));
    assert_eq!(cursor, 1);
    assert_eq!(plugin_translation("k", "Unknown", false, &queue, &mut cursor), None);
    assert_eq!(cursor, 1);
    assert_eq!(plugin_translation("k", "Bye", false, &queue, &mut cursor), None);
    assert_eq!(cursor, 2);
}

#[test]
fn preserve_write_back_takes_translations_in_order() {
    let mut cmds = vec![
        Command { code: 401, parameters: vec![Parameter::Text(s("Hi"))] },
        Command { code: 0, parameters: vec![] },
        Command { code: 401, parameters: vec![Parameter::Text(s("Hi"))] },
    ];
    let queue = vec![(s("Hi"), s("Salut")), (s("Hi"), s("Coucou"))];
    let mut cursor = 0;
    write_list_preserve(&mut cmds, &queue, &mut cursor, None, EngineType::New, false);
    assert_eq!(cursor, 2);
    match (&cmds[0].parameters[0], &cmds[2].parameters[0]) {
        (Parameter::Text(a), Parameter::Text(b)) => {
            assert_eq!(a, "Salut");
            assert_eq!(b, "Coucou");
        }
        _ => panic!("parameters changed kind"),
    }
}

#[test]
fn ignore_file_round_trip() {
    let blocks = vec![(s("<!-- File: map1 -->"), vec![s("A"), s("B")]), (s("<!-- File: system -->"), vec![])];
    let text = write_ignore(&blocks);
    assert_eq!(text, "<!-- File: map1 -->\nA\nB\n<!-- File: system -->\n");
    assert_eq!(parse_ignore(&text), blocks);
}

#[test]
fn label_tables() {
    assert_eq!(get_system_labels(EngineType::XP).3, "__symbol__words");
    assert_eq!(get_maps_labels(EngineType::New).1, "events");
    assert_eq!(get_other_labels(EngineType::VX)[7], "__symbol__note");
}

#[test]
fn choice_options_peek_at_the_preserve_queue() {
    let mut cmds = vec![
        Command { code: 102, parameters: vec![Parameter::List(vec![s("Yes"), s("No")])] },
        Command { code: 401, parameters: vec![Parameter::Text(s("Hi"))] },
    ];
    let queue = vec![(s("Yes"), s("Oui")), (s("Hi"), s("Salut"))];
    let mut cursor = 0;
    write_list_preserve(&mut cmds, &queue, &mut cursor, None, EngineType::New, false);
    assert_eq!(cursor, 1);
    match (&cmds[0].parameters[0], &cmds[1].parameters[0]) {
        (Parameter::List(v), Parameter::Text(t)) => {
            assert_eq!(v, &vec![s("Oui"), s("Oui")]);
            assert_eq!(t, "Oui");
        }
        _ => panic!("parameters changed kind"),
    }
}

#[test]
fn item_notes_get_translated_menu_categories() {
    assert_eq!(menu_category_lines("Items", Some(GameType::Termina)).len(), 4);
    assert!(menu_category_lines("Items", None).is_empty());
    assert!(menu_category_lines("Weapons", Some(GameType::Termina)).is_empty());
    let mut table = TranslationTable::new();
    table.insert(s("<Menu Category: Food>"), s("<Menu Category: Nourriture>"));
    table.insert(s("<Menu Category: Items>"), s(""));
    let note = "<Menu Category: Food>\n<Menu Category: Items> <Menu Category: Food>";
    assert_eq!(
        replace_menu_categories(note, &table),
        "<Menu Category: Nourriture>\n<Menu Category: Items> <Menu Category: Nourriture>"
    );
}
