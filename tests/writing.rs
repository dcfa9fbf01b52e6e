use rvpacker_txt_rs::table::TranslationTable;
use rvpacker_txt_rs::types::EngineType;
use rvpacker_txt_rs::walker::{Command, Parameter};
use rvpacker_txt_rs::writeback::{split_translation, write_list};

fn text(code: u16, s: &str) -> Command {
    Command { code, parameters: vec![Parameter::Text(s.to_string())] }
}

fn texts(cmds: &[Command]) -> Vec<String> {
    cmds.iter()
        .map(|c| {
            c.parameters
                .iter()
                .map(|p| match p {
                    Parameter::Text(s) => s.clone(),
                    Parameter::List(v) => v.join("|"),
                    Parameter::Other => "-".to_string(),
                })
                .collect::<Vec<_>>()
                .join(",")
        })
        .collect()
}

#[test]
fn dialogue_and_choice_are_written_back() {
    let mut cmds = vec![text(401, "Hello"), text(401, "world"), text(402, "Yes")];
    let mut t = TranslationTable::new();
    t.insert("Hello\nworld".to_string(), "Bonjour\nmonde".to_string());
    t.insert("Yes".to_string(), "Oui".to_string());
    write_list(&mut cmds, &t, None, EngineType::New, false);
    assert_eq!(texts(&cmds), vec!["Bonjour", "monde", "Oui"]);
}

#[test]
fn empty_table_leaves_commands_untouched() {
    let mut cmds = vec![text(401, "Hello"), text(401, "world"), Command {
        code: 102,
        parameters: vec![Parameter::List(vec!["A".to_string(), "B".to_string()])],
    }];
    let before = texts(&cmds);
    write_list(&mut cmds, &TranslationTable::new(), None, EngineType::New, false);
    assert_eq!(texts(&cmds), before);
    let mut t = TranslationTable::new();
    t.insert("Hello\nworld".to_string(), String::new());
    write_list(&mut cmds, &t, None, EngineType::New, false);
    assert_eq!(texts(&cmds), before);
}

#[test]
fn choice_array_options_are_translated_one_by_one() {
    let mut cmds = vec![Command {
        code: 102,
        parameters: vec![Parameter::List(vec!["Yes".to_string(), "No".to_string()])],
    }];
    let mut t = TranslationTable::new();
    t.insert("No".to_string(), "Non".to_string());
    write_list(&mut cmds, &t, None, EngineType::New, false);
    assert_eq!(texts(&cmds), vec!["Yes|Non"]);
}

#[test]
fn stripped_affixes_are_put_back() {
    let mut cmds = vec![Command {
        code: 655,
        parameters: vec![Parameter::Text("shop_talk = \"Welcome\" if(v[2])".to_string())],
    }];
    let mut t = TranslationTable::new();
    t.insert("Welcome".to_string(), "Bienvenue".to_string());
    write_list(&mut cmds, &t, None, EngineType::XP, false);
    assert_eq!(texts(&cmds), vec!["shop_talk =\"Bienvenue\" if(v[2])"]);
}

#[test]
fn resplit_pads_short_translations_with_spaces() {
    assert_eq!(split_translation("one", 3), vec!["one", " ", " "]);
}

#[test]
fn resplit_joins_surplus_lines_into_the_last_slot() {
    assert_eq!(split_translation("a\nb\nc\nd", 2), vec!["a", "b\nc\nd"]);
    assert_eq!(split_translation("a\nb", 1), vec!["a\nb"]);
}

#[test]
fn resplit_matches_line_for_line() {
    assert_eq!(split_translation("a\nb", 2), vec!["a", "b"]);
}

#[test]
fn written_block_shorter_than_original_keeps_slots_valid() {
    let mut cmds = vec![text(401, "L1"), text(401, "L2"), text(401, "L3")];
    let mut t = TranslationTable::new();
    t.insert("L1\nL2\nL3".to_string(), "Only".to_string());
    write_list(&mut cmds, &t, None, EngineType::New, false);
    assert_eq!(texts(&cmds), vec!["Only", " ", " "]);
}
