//! Engine variants, title rule sets, processing policies and command classification.
use vstd::prelude::*;

verus! {

/// The engine variant whose data layout and serialization a game uses.
#[derive(Clone, Copy, Debug, PartialEq, Eq, Structural)]
pub enum EngineType {
    New,
    VXAce,
    VX,
    XP,
}

/// A title with its own extraction rules.
#[derive(Clone, Copy, Debug, PartialEq, Eq, Structural)]
pub enum GameType {
    Termina,
    LisaRPG,
}

/// What to do with an existing line file.
#[derive(Clone, Copy, Debug, PartialEq, Eq, Structural)]
pub enum ProcessingMode {
    /// Refuse to overwrite existing output.
    Default,
    /// Regenerate, discarding earlier translations.
    Force,
    /// Merge new text into the existing output, keeping finished translations.
    Append,
}

/// How lines of map files are deduplicated and partitioned.
#[derive(Clone, Copy, Debug, PartialEq, Eq, Structural)]
pub enum MapsProcessingMode {
    /// One table for all maps, no duplicate originals.
    Default,
    /// One table per map, no duplicate originals within a map.
    Separate,
    /// Every occurrence kept, in order.
    Preserve,
}

/// The closed classification of an event command.
#[derive(Clone, Copy, Debug, PartialEq, Eq, Structural)]
pub enum Code {
    Dialogue,
    DialogueStart,
    ChoiceArray,
    Choice,
    Credit,
    Shop,
    System,
    Misc1,
    Misc2,
    Bad,
}

/// The named fields of a database record that may carry text.
#[derive(Clone, Copy, Debug, PartialEq, Eq, Structural)]
pub enum Variable {
    Name,
    Nickname,
    Description,
    Message1,
    Message2,
    Message3,
    Message4,
    Note,
}

pub open spec fn allowed_code(code: u16) -> bool {
    code == 101 || code == 102 || code == 320 || code == 324 || code == 356 || code == 401
        || code == 402 || code == 405 || code == 655
}

/// The tag of a numeric command code under an engine variant.
pub open spec fn code_of(code: u16, engine: EngineType) -> Code {
    if code == 401 {
        Code::Dialogue
    } else if code == 101 {
        if engine == EngineType::XP {
            Code::DialogueStart
        } else {
            Code::Bad
        }
    } else if code == 102 {
        Code::ChoiceArray
    } else if code == 402 {
        Code::Choice
    } else if code == 405 {
        Code::Credit
    } else if code == 655 {
        Code::Shop
    } else if code == 356 {
        Code::System
    } else if code == 320 {
        Code::Misc1
    } else if code == 324 {
        Code::Misc2
    } else {
        Code::Bad
    }
}

/// Codes whose consecutive commands join into one logical dialogue line.
pub open spec fn is_dialogue_family(code: Code) -> bool {
    code == Code::Dialogue || code == Code::DialogueStart || code == Code::Credit
}

/// Index of the parameter that holds a command's text.
pub open spec fn text_slot(code: Code) -> nat {
    if code == Code::Misc1 || code == Code::Misc2 {
        1
    } else {
        0
    }
}

/// Whether a line file is generated, given the processing mode and whether it already exists.
#[derive(Clone, Copy, Debug, PartialEq, Eq, Structural)]
pub enum Readiness {
    Ready,
    /// It exists, and the mode does not allow replacing it.
    AlreadyExists,
    /// The mode appends to it, and it does not exist.
    NotParsed,
}

/// Whether a line file is generated: not when it exists under the default mode, nor when it
/// is to be appended to and does not exist.
pub fn output_readiness(mode: ProcessingMode, exists: bool) -> (r: Readiness)
    ensures
        r == (if mode == ProcessingMode::Default && exists {
            Readiness::AlreadyExists
        } else if mode == ProcessingMode::Append && !exists {
            Readiness::NotParsed
        } else {
            Readiness::Ready
        }),
{
    if mode == ProcessingMode::Default && exists {
        Readiness::AlreadyExists
    } else if mode == ProcessingMode::Append && !exists {
        Readiness::NotParsed
    } else {
        Readiness::Ready
    }
}

/// Whether a numeric command code can carry translatable text.
pub fn is_allowed_code(code: u16) -> (r: bool)
    ensures
        r == allowed_code(code),
{
    code == 101 || code == 102 || code == 320 || code == 324 || code == 356 || code == 401
        || code == 402 || code == 405 || code == 655
}

/// Maps a numeric command code to its tag; anything unknown, and a sequence opener outside
/// the XP engine, is `Bad`.
pub fn code_from_number(code: u16, engine: EngineType) -> (r: Code)
    ensures
        r == code_of(code, engine),
        r != Code::Bad ==> allowed_code(code),
{
    match code {
        401 => Code::Dialogue,
        101 => if engine == EngineType::XP {
            Code::DialogueStart
        } else {
            Code::Bad
        },
        102 => Code::ChoiceArray,
        402 => Code::Choice,
        405 => Code::Credit,
        655 => Code::Shop,
        356 => Code::System,
        320 => Code::Misc1,
        324 => Code::Misc2,
        _ => Code::Bad,
    }
}

pub fn is_dialogue_code(code: Code) -> (r: bool)
    ensures
        r == is_dialogue_family(code),
{
    code == Code::Dialogue || code == Code::DialogueStart || code == Code::Credit
}

pub fn text_slot_of(code: Code) -> (r: usize)
    ensures
        r == text_slot(code),
{
    if code == Code::Misc1 || code == Code::Misc2 {
        1
    } else {
        0
    }
}

/// File extension of the data files of an engine variant.
pub fn determine_extension(engine_type: EngineType) -> (r: &'static str)
    ensures
        engine_type == EngineType::New ==> r@ == ".json"@,
        engine_type == EngineType::VXAce ==> r@ == ".rvdata2"@,
        engine_type == EngineType::VX ==> r@ == ".rvdata"@,
        engine_type == EngineType::XP ==> r@ == ".rxdata"@,
{
    match engine_type {
        EngineType::New => ".json",
        EngineType::VXAce => ".rvdata2",
        EngineType::VX => ".rvdata",
        EngineType::XP => ".rxdata",
    }
}

/// Field names of the system file: armor types, elements, skill types, terms, weapon types and
/// game title.
pub fn get_system_labels(engine_type: EngineType) -> (r: (
    &'static str,
    &'static str,
    &'static str,
    &'static str,
    &'static str,
    &'static str,
))
    ensures
        engine_type == EngineType::New ==> r.0@ == "armorTypes"@ && r.3@ == "terms"@ && r.5@
            == "gameTitle"@,
        engine_type == EngineType::XP ==> r.3@ == "__symbol__words"@,
        engine_type == EngineType::VX || engine_type == EngineType::VXAce ==> r.3@
            == "__symbol__terms"@,
        engine_type != EngineType::New ==> r.0@ == "__symbol__armor_types"@ && r.5@
            == "__symbol__game_title"@,
{
    match engine_type {
        EngineType::New => ("armorTypes", "elements", "skillTypes", "terms", "weaponTypes", "gameTitle"),
        EngineType::XP => (
            "__symbol__armor_types",
            "__symbol__elements",
            "__symbol__skill_types",
            "__symbol__words",
            "__symbol__weapon_types",
            "__symbol__game_title",
        ),
        _ => (
            "__symbol__armor_types",
            "__symbol__elements",
            "__symbol__skill_types",
            "__symbol__terms",
            "__symbol__weapon_types",
            "__symbol__game_title",
        ),
    }
}

/// Field names of map files: display name, events, pages, command list, code and parameters.
pub fn get_maps_labels(engine_type: EngineType) -> (r: (
    &'static str,
    &'static str,
    &'static str,
    &'static str,
    &'static str,
    &'static str,
))
    ensures
        engine_type == EngineType::New ==> r.0@ == "displayName"@ && r.1@ == "events"@ && r.4@
            == "code"@,
        engine_type != EngineType::New ==> r.0@ == "__symbol__display_name"@ && r.1@
            == "__symbol__events"@ && r.4@ == "__symbol__code"@,
{
    match engine_type {
        EngineType::New => ("displayName", "events", "pages", "list", "code", "parameters"),
        _ => (
            "__symbol__display_name",
            "__symbol__events",
            "__symbol__pages",
            "__symbol__list",
            "__symbol__code",
            "__symbol__parameters",
        ),
    }
}

/// Field names of database records: the eight text fields in extraction order, then pages,
/// command list, code and parameters.
pub fn get_other_labels(engine_type: EngineType) -> (r: [&'static str; 12])
    ensures
        engine_type == EngineType::New ==> r@[0]@ == "name"@ && r@[7]@ == "note"@,
        engine_type != EngineType::New ==> r@[0]@ == "__symbol__name"@ && r@[7]@
            == "__symbol__note"@,
{
    match engine_type {
        EngineType::New => [
            "name",
            "nickname",
            "description",
            "message1",
            "message2",
            "message3",
            "message4",
            "note",
            "pages",
            "list",
            "code",
            "parameters",
        ],
        _ => [
            "__symbol__name",
            "__symbol__nickname",
            "__symbol__description",
            "__symbol__message1",
            "__symbol__message2",
            "__symbol__message3",
            "__symbol__message4",
            "__symbol__note",
            "__symbol__pages",
            "__symbol__list",
            "__symbol__code",
            "__symbol__parameters",
        ],
    }
}

/// Whether a data file, named without its extension, holds database records or command
/// lists to translate: not maps, not the files read separately or holding no text, and not the
/// states of one title.
pub open spec fn other_data_file(name: Seq<char>, game: Option<GameType>) -> bool {
    &&& !(name.len() >= 3 && name.subrange(0, 3) == "Map"@)
    &&& name != "Areas"@
    &&& name != "Tilesets"@
    &&& name != "Animations"@
    &&& name != "System"@
    &&& name != "Scripts"@
    &&& !(game == Some(GameType::Termina) && name == "States"@)
}

/// Whether a data file holds text read as records or command lists (see `other_data_file`).
pub fn is_other_data_file(name: &str, game_type: Option<GameType>) -> (r: bool)
    ensures
        r == other_data_file(name@, game_type),
{
    let v = crate::text::chars_of(name);
    let map = crate::text::chars_of("Map");
    proof {
        reveal_strlit("Map");
    }
    if crate::text::starts_with(&v, &map) {
        return false;
    }
    let same = |w: &str| -> (b: bool)
        ensures
            b == (name@ == w@),
        { crate::text::same_chars(&v, &crate::text::chars_of(w)) };
    if same("Areas") || same("Tilesets") || same("Animations") || same("System") || same("Scripts") {
        return false;
    }
    !(game_type == Some(GameType::Termina) && same("States"))
}

} // verus!
