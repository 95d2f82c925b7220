use retrotex::definition::TextureDefinition;
use retrotex::file::{autosave_due, file_contents, parse_file_contents, DefinitionFile, FileHeaderError, RenameCheck, UndoStack, UNDO_LIMIT};
use retrotex::text::ParseIntKind;
use retrotex::util::single_hash;

#[test]
fn file_text_layout() {
    assert_eq!(file_contents(42, "{\"a\":1}"), "RETROTEX\n1\n42\n{\"a\":1}");
}

#[test]
fn written_file_reads_back() {
    for &id in &[0u128, 7, u128::MAX, 340282366920938463463374607431768211000] {
        let text = file_contents(id, "{\n  \"passes\": []\n}\n");
        let (got_id, json) = parse_file_contents(&text).unwrap();
        assert_eq!(got_id, id);
        assert_eq!(json, "{\n  \"passes\": []\n}\n");
    }
}

#[test]
fn header_lines_are_trimmed() {
    let (id, json) = parse_file_contents("  RETROTEX \r\n 1\t\n 99 \n[]").unwrap();
    assert_eq!(id, 99);
    assert_eq!(json, "[]");
}

#[test]
fn header_errors() {
    assert_eq!(parse_file_contents("RETRO\n1\n2\n{}"), Err(FileHeaderError::MissingMagic));
    assert_eq!(parse_file_contents(""), Err(FileHeaderError::MissingMagic));
    assert_eq!(
        parse_file_contents("RETROTEX\nx\n2\n{}"),
        Err(FileHeaderError::BadVersion(ParseIntKind::InvalidDigit))
    );
    assert_eq!(
        parse_file_contents("RETROTEX\n\n2\n{}"),
        Err(FileHeaderError::BadVersion(ParseIntKind::Empty))
    );
    assert_eq!(
        parse_file_contents("RETROTEX\n99999999999\n2\n{}"),
        Err(FileHeaderError::BadVersion(ParseIntKind::PosOverflow))
    );
    assert_eq!(parse_file_contents("RETROTEX\n2\n2\n{}"), Err(FileHeaderError::UnsupportedVersion(2)));
    assert_eq!(
        parse_file_contents("RETROTEX\n1\n-3\n{}"),
        Err(FileHeaderError::BadId(ParseIntKind::InvalidDigit))
    );
    assert_eq!(parse_file_contents("RETROTEX\n1\n"), Err(FileHeaderError::BadId(ParseIntKind::Empty)));
}

#[test]
fn header_error_messages() {
    assert_eq!(FileHeaderError::MissingMagic.message(), "Invalid file format: missing magic header");
    assert_eq!(
        FileHeaderError::BadVersion(ParseIntKind::InvalidDigit).message(),
        "Failed to parse version: invalid digit found in string"
    );
    assert_eq!(FileHeaderError::UnsupportedVersion(7).message(), "Unsupported version: 7, expected 1");
    assert_eq!(
        FileHeaderError::BadId(ParseIntKind::PosOverflow).message(),
        "Failed to parse hash: number too large to fit in target type"
    );
    assert_eq!(
        FileHeaderError::BadId(ParseIntKind::Empty).message(),
        "Failed to parse hash: cannot parse integer from empty string"
    );
}

#[test]
fn version_is_one() {
    assert_eq!(TextureDefinition::VERSION, 1);
}

#[test]
fn undo_and_redo_walk_the_history() {
    let mut u = UndoStack::new();
    assert_eq!(u.undo(), None);
    assert_eq!(u.redo(), None);
    u.push("a".to_string());
    assert_eq!(u.undo(), None);
    u.push("b".to_string());
    u.push("c".to_string());
    assert_eq!(u.undo().as_deref(), Some("b"));
    assert_eq!(u.undo().as_deref(), Some("a"));
    assert_eq!(u.undo(), None);
    assert_eq!(u.redo().as_deref(), Some("b"));
    assert_eq!(u.redo().as_deref(), Some("c"));
    assert_eq!(u.redo(), None);
}

#[test]
fn push_after_undo_drops_the_redo_states() {
    let mut u = UndoStack::new();
    u.push("a".to_string());
    u.push("b".to_string());
    assert_eq!(u.undo().as_deref(), Some("a"));
    u.push("c".to_string());
    assert_eq!(u.redo(), None);
    assert_eq!(u.undo().as_deref(), Some("a"));
}

#[test]
fn history_keeps_the_last_thousand_states() {
    let mut u = UndoStack::new();
    for i in 0..(UNDO_LIMIT + 5) {
        u.push(i.to_string());
    }
    let mut steps = 0;
    let mut last = None;
    while let Some(s) = u.undo() {
        steps += 1;
        last = Some(s);
    }
    assert_eq!(steps, UNDO_LIMIT - 1);
    assert_eq!(last.as_deref(), Some("5"));
}

#[test]
fn new_file_is_unsaved_and_dirty_until_saved() {
    let mut f = DefinitionFile::new("tex".to_string());
    assert_eq!(f.name(), "tex");
    assert!(f.def().passes.is_empty());
    assert!(f.is_dirty() || f.definition_hash() == 0);
    f.mark_saved("{}".to_string());
    assert!(!f.is_dirty());
    let text = f.file_contents("{}");
    let (id, json) = parse_file_contents(&text).unwrap();
    assert_eq!(id, f.id());
    assert_eq!(json, "{}");
}

#[test]
fn loaded_file_is_clean() {
    let f = DefinitionFile::new_with_def_and_id("x".to_string(), TextureDefinition::demo(), 77, true);
    assert_eq!(f.id(), 77);
    assert!(!f.is_dirty());
    let g = DefinitionFile::new_with_def_and_id("x".to_string(), TextureDefinition::default(), 78, false);
    assert_eq!(g.is_dirty(), g.definition_hash() != 0);
}

#[test]
fn modifying_the_definition_reports_a_changed_hash() {
    let mut f = DefinitionFile::new_with_def_and_id("x".to_string(), TextureDefinition::default(), 1, true);
    let same = TextureDefinition::default();
    assert!(!f.modify_definition(same));
    assert!(!f.is_dirty());
    let mut other = TextureDefinition::default();
    other.ao_settings.radius = 9;
    assert!(f.modify_definition(other));
    assert!(f.is_dirty());
    assert_eq!(f.def().ao_settings.radius, 9);
}

#[test]
fn file_undo_gives_the_previous_saved_json() {
    let mut f = DefinitionFile::new("x".to_string());
    f.mark_saved("first".to_string());
    f.mark_saved("second".to_string());
    assert_eq!(f.undo().as_deref(), Some("first"));
    assert_eq!(f.undo(), None);
    assert_eq!(f.redo().as_deref(), Some("second"));
    let mut d = TextureDefinition::default();
    d.lighting_settings.impact = 3;
    f.restore(d);
    assert_eq!(f.def().lighting_settings.impact, 3);
}

#[test]
fn rename_checks() {
    let mut f = DefinitionFile::new("old".to_string());
    assert_eq!(f.check_rename(""), RenameCheck::Empty);
    assert_eq!(f.check_rename("old"), RenameCheck::Unchanged);
    assert_eq!(f.check_rename("new"), RenameCheck::Proceed);
    f.set_name("new");
    assert_eq!(f.name(), "new");
}

#[test]
fn load_or_create_falls_back_to_the_demo() {
    let (f, save) = DefinitionFile::load_by_name_or_create("brick", Err("no such file".to_string()));
    assert!(save);
    assert_eq!(f.name(), "brick");
    assert_eq!(f.def().passes.len(), 5);
    assert_eq!(f.def().passes[0].name.as_deref(), Some("Background"));
    let loaded = DefinitionFile::new_with_def_and_id("stone".to_string(), TextureDefinition::default(), 5, true);
    let (g, save) = DefinitionFile::load_by_name_or_create("stone", Ok(loaded));
    assert!(!save);
    assert_eq!(g.id(), 5);
    assert!(g.def().passes.is_empty());
}

#[test]
fn stored_hash_follows_the_definition() {
    let mut f = DefinitionFile::new("x".to_string());
    assert_eq!(f.definition_hash(), single_hash(&TextureDefinition::default()));
    assert!(f.is_dirty());
    let mut d = TextureDefinition::default();
    d.ao_settings.strength = 7;
    let expected = single_hash(&d);
    f.modify_definition(d);
    assert_eq!(f.definition_hash(), expected);
    f.mark_saved("saved".to_string());
    assert!(!f.is_dirty());
    let back = TextureDefinition::default();
    let back_hash = single_hash(&back);
    f.restore(back);
    assert_eq!(f.definition_hash(), back_hash);
    assert_eq!(f.is_dirty(), back_hash != expected);
}

#[test]
fn new_file_has_default_settings() {
    let f = DefinitionFile::new("n".to_string());
    assert_eq!(f.name(), "n");
    assert!(f.def().passes.is_empty());
    assert_eq!(f.def().ao_settings.radius, 4);
    assert_eq!(f.def().ao_settings.strength, 50);
    assert_eq!(f.def().ao_settings.bias, 50);
    assert!(!f.def().ao_settings.ignore_surface_normal);
    assert_eq!(f.def().lighting_settings.direction, [10, -50, 20]);
    assert_eq!(f.def().lighting_settings.impact, 50);
}

#[test]
fn dirty_follows_the_hash_of_the_definition() {
    let mut f = DefinitionFile::new_with_def_and_id("x".to_string(), TextureDefinition::default(), 3, true);
    assert!(!f.is_dirty());
    let mut d = TextureDefinition::default();
    d.lighting_settings.impact = 1;
    assert!(f.modify_definition(d.clone()));
    assert_eq!(f.definition_hash(), single_hash(&d));
    assert!(f.is_dirty());
    assert!(!f.modify_definition(d));
    assert!(f.is_dirty());
    f.restore(TextureDefinition::default());
    assert!(!f.is_dirty());
    assert_eq!(f.id(), 3);
    assert_eq!(f.name(), "x");
}

#[test]
fn autosave_waits_for_a_change_and_the_delay() {
    assert!(!autosave_due(false, false, true, 1000));
    assert!(!autosave_due(true, false, false, 199));
    assert!(autosave_due(true, false, false, 200));
    assert!(autosave_due(false, true, true, 0));
    assert!(autosave_due(false, true, false, 5000));
}

#[test]
fn undo_and_redo_on_a_new_file_change_nothing() {
    let mut f = DefinitionFile::new("fresh".to_string());
    let hash = f.definition_hash();
    assert_eq!(f.undo(), None);
    assert_eq!(f.redo(), None);
    f.mark_saved("only".to_string());
    assert_eq!(f.undo(), None);
    assert_eq!(f.redo(), None);
    assert_eq!(f.definition_hash(), hash);
    assert_eq!(f.name(), "fresh");
}
