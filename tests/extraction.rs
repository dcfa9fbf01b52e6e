use rvpacker_txt_rs::classify::{
    ends_with_if_index, find_lisa_prefix_index, process_parameter, romanize_string,
    string_is_only_symbols,
};
use rvpacker_txt_rs::types::{code_from_number, determine_extension, is_allowed_code, Code, EngineType, GameType};
use rvpacker_txt_rs::walker::{collect_occurrences, extract_list, Command, Parameter};

fn chars(s: &str) -> Vec<char> {
    s.chars().collect()
}

fn text(code: u16, s: &str) -> Command {
    Command { code, parameters: vec![Parameter::Text(s.to_string())] }
}

fn key(code: Code, s: &str, game: Option<GameType>, engine: EngineType) -> Option<String> {
    process_parameter(code, s, game, engine, false).map(|f| f.key)
}

#[test]
fn romanize_replaces_fullwidth_punctuation_and_numerals() {
    assert_eq!(romanize_string("「はい」。".to_string()), "'はい'.");
    assert_eq!(romanize_string("Ⅻ…！".to_string()), "XII...!");
    assert_eq!(romanize_string("plain".to_string()), "plain");
}

#[test]
fn only_symbols_detects_punctuation_and_digits() {
    assert!(string_is_only_symbols(&chars("...!? 123")));
    assert!(string_is_only_symbols(&chars("")));
    assert!(!string_is_only_symbols(&chars("a.")));
}

#[test]
fn junk_and_symbol_text_is_rejected() {
    let e = EngineType::New;
    assert_eq!(key(Code::Dialogue, "  true ", None, e), None);
    assert_eq!(key(Code::Dialogue, "off", None, e), None);
    assert_eq!(key(Code::Dialogue, "!!!", None, e), None);
    assert_eq!(key(Code::Dialogue, "this.call(1)", None, e), None);
    assert_eq!(key(Code::Dialogue, "rgba(0,0,0)", None, e), None);
    assert_eq!(key(Code::Dialogue, "   ", None, e), None);
    assert_eq!(key(Code::Dialogue, "  Hello there  ", None, e), Some("Hello there".to_string()));
}

#[test]
fn if_suffix_is_set_aside_on_legacy_engines() {
    assert_eq!(ends_with_if_index(&chars("Go home if(s[1])")), Some(7));
    assert_eq!(ends_with_if_index(&chars("Go home")), None);
    let f = process_parameter(Code::System, "Go home if(s[1])", None, EngineType::XP, false).unwrap();
    assert_eq!(f.key, "Go home");
    assert_eq!(f.suffix, " if(s[1])");
    assert_eq!(f.prefix, "");
    assert_eq!(key(Code::System, "Go home if(s[1])", None, EngineType::New), Some("Go home if(s[1])".to_string()));
}

#[test]
fn shop_lines_keep_the_quoted_value() {
    let f = process_parameter(Code::Shop, "shop_talk = \"Welcome!\"", None, EngineType::VXAce, false).unwrap();
    assert_eq!(f.key, "Welcome!");
    assert_eq!(f.prefix, "shop_talk =\"");
    assert_eq!(f.suffix, "\"");
    assert_eq!(key(Code::Shop, "other = \"Welcome!\"", None, EngineType::VXAce), None);
    assert_eq!(key(Code::Shop, "shop_talk = \"...\"", None, EngineType::VXAce), None);
}

#[test]
fn lisa_prefix_is_stripped_and_kept() {
    assert_eq!(find_lisa_prefix_index(&chars("\\et[12]Hi")), Some(7));
    assert_eq!(find_lisa_prefix_index(&chars("\\nbtHi")), Some(4));
    assert_eq!(find_lisa_prefix_index(&chars("\\et[]Hi")), None);
    let f = process_parameter(Code::Dialogue, "\\nbtHello", Some(GameType::LisaRPG), EngineType::XP, false).unwrap();
    assert_eq!(f.prefix, "\\nbt");
    assert_eq!(f.key, "Hello");
    assert_eq!(key(Code::Dialogue, "\\et[3]...", Some(GameType::LisaRPG), EngineType::XP), None);
}

#[test]
fn termina_system_lines_need_known_prefixes() {
    let t = Some(GameType::Termina);
    assert_eq!(key(Code::System, "Gab Hello", t, EngineType::New), Some("Gab Hello".to_string()));
    assert_eq!(key(Code::System, "choice_text Yes", t, EngineType::New), Some("choice_text Yes".to_string()));
    assert_eq!(key(Code::System, "choice_text ????", t, EngineType::New), None);
    assert_eq!(key(Code::System, "Hello", t, EngineType::New), None);
}

#[test]
fn romanized_keys() {
    let f = process_parameter(Code::Dialogue, "はい。", None, EngineType::New, true).unwrap();
    assert_eq!(f.key, "はい.");
}

#[test]
fn codes_map_to_tags() {
    assert!(is_allowed_code(401));
    assert!(!is_allowed_code(0));
    assert_eq!(code_from_number(401, EngineType::New), Code::Dialogue);
    assert_eq!(code_from_number(101, EngineType::XP), Code::DialogueStart);
    assert_eq!(code_from_number(101, EngineType::VXAce), Code::Bad);
    assert_eq!(code_from_number(999, EngineType::XP), Code::Bad);
    assert_eq!(determine_extension(EngineType::VXAce), ".rvdata2");
}

#[test]
fn dialogue_commands_join_and_choices_stay_apart() {
    let cmds = vec![text(401, "Hello"), text(401, "world"), text(402, "Yes")];
    let lines = extract_list(&cmds, EngineType::New, None, false);
    assert_eq!(lines, vec!["Hello\nworld".to_string(), "Yes".to_string()]);
}

#[test]
fn choice_array_options_are_separate_lines() {
    let cmds = vec![Command {
        code: 102,
        parameters: vec![Parameter::List(vec!["Yes".to_string(), " ".to_string(), "No".to_string()])],
    }];
    let occs = collect_occurrences(&cmds, EngineType::New);
    assert_eq!(occs.len(), 2);
    assert_eq!(occs[1].item, 2);
    assert_eq!(extract_list(&cmds, EngineType::New, None, false), vec!["Yes".to_string(), "No".to_string()]);
}

#[test]
fn dialogue_block_ends_at_end_of_list_and_at_other_codes() {
    let cmds = vec![text(401, "A"), text(0, ""), text(401, "B"), text(401, " ")];
    assert_eq!(extract_list(&cmds, EngineType::New, None, false), vec!["A".to_string(), "B".to_string()]);
}

#[test]
fn xp_sequence_opener_starts_a_new_block() {
    let cmds = vec![text(101, "One"), text(401, "two"), text(101, "Three")];
    assert_eq!(
        extract_list(&cmds, EngineType::XP, None, false),
        vec!["One\ntwo".to_string(), "Three".to_string()]
    );
    // outside the XP engine the opener is not a text command
    assert_eq!(extract_list(&cmds, EngineType::VX, None, false), vec!["two".to_string()]);
}

#[test]
fn misc_commands_read_their_second_parameter() {
    let cmds = vec![Command {
        code: 320,
        parameters: vec![Parameter::Other, Parameter::Text("Hero".to_string())],
    }];
    assert_eq!(extract_list(&cmds, EngineType::New, None, false), vec!["Hero".to_string()]);
}
