use retrotex::definition::TextureDefinition;
use retrotex::file::DefinitionFile;
use retrotex::storage::{keep_first_of_each_id, sort_by_name};

#[test]
fn files_come_in_name_order() {
    let files = vec![(3u128, "wall".to_string()), (1, "brick".to_string()), (2, "Zinc".to_string()), (4, "brick2".to_string())];
    let sorted = sort_by_name(files);
    let names: Vec<&str> = sorted.iter().map(|(_, n)| n.as_str()).collect();
    assert_eq!(names, ["Zinc", "brick", "brick2", "wall"]);
    let ids: Vec<u128> = sorted.iter().map(|(i, _)| *i).collect();
    assert_eq!(ids, [2, 1, 4, 3]);
}

#[test]
fn sorting_keeps_every_entry() {
    let files = vec![("a", "x".to_string()), ("b", "x".to_string()), ("c", "".to_string())];
    let sorted = sort_by_name(files);
    assert_eq!(sorted.len(), 3);
    assert_eq!(sorted[0], ("c", "".to_string()));
    let mut rest: Vec<&str> = sorted[1..].iter().map(|(t, _)| *t).collect();
    rest.sort();
    assert_eq!(rest, ["a", "b"]);
    assert!(sort_by_name(Vec::<(u8, String)>::new()).is_empty());
}

fn file(id: u128, name: &str) -> (DefinitionFile, String) {
    (DefinitionFile::new_with_def_and_id(name.to_string(), TextureDefinition::default(), id, true), name.to_string())
}

#[test]
fn first_file_of_each_id_is_kept() {
    let files = vec![file(1, "a"), file(2, "b"), file(1, "c"), file(3, "d"), file(2, "e"), file(1, "f")];
    let (kept, skipped) = keep_first_of_each_id(files);
    let kept: Vec<(u128, &str)> = kept.iter().map(|(f, n)| (f.id(), n.as_str())).collect();
    let skipped: Vec<(u128, &str)> = skipped.iter().map(|(f, n)| (f.id(), n.as_str())).collect();
    assert_eq!(kept, [(1, "a"), (2, "b"), (3, "d")]);
    assert_eq!(skipped, [(1, "c"), (2, "e"), (1, "f")]);
    let (kept, skipped) = keep_first_of_each_id(Vec::new());
    assert!(kept.is_empty() && skipped.is_empty());
}
