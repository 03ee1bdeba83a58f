use obsidian_vault::joining::strategies::{Branded, Strategy, TypeAndKey};
use obsidian_vault::joining::{find_by, index_notes, JoinedNote, WriteOutcome};
use obsidian_vault::{Error, NoteReference};
use serde_yaml::{Mapping, Value};

fn mapping(pairs: &[(&str, Value)]) -> Mapping {
    let mut m = Mapping::new();
    for (k, v) in pairs {
        m.insert(Value::from(*k), v.clone());
    }
    m
}

#[test]
fn branded_reads_key() {
    let s = Branded::new("id");
    let r = s.extract(NoteReference::from_path("a.md"), "---\nid: 7\nother: x\n---\nhello");
    let (k, n) = r.unwrap();
    assert_eq!(k, 7);
    assert_eq!(n.path(), "a.md");
}

#[test]
fn branded_swallows_failures() {
    let s = Branded::new("id");
    assert!(s.extract(NoteReference::from_path("b.md"), "no frontmatter at all").is_none());
    assert!(s.extract(NoteReference::from_path("c.md"), "---\nid: 7").is_none());
    assert!(s.extract(NoteReference::from_path("d.md"), "---\nid: [7\n---\n").is_none());
    assert!(s.extract(NoteReference::from_path("e.md"), "---\nname: x\n---\n").is_none());
    assert!(s.extract(NoteReference::from_path("f.md"), "---\nid: seven\n---\n").is_none());
}

#[test]
fn type_and_key_requires_matching_type() {
    let s = TypeAndKey::new("type", "person", "id");
    let good = "---\ntype: person\nid: 3\n---\n";
    let wrong = "---\ntype: place\nid: 3\n---\n";
    let missing = "---\nid: 3\n---\n";
    let r = s.extract(NoteReference::from_path("p.md"), good).unwrap();
    assert_eq!(r.0, 3);
    assert!(s.extract(NoteReference::from_path("p.md"), wrong).is_none());
    assert!(s.extract(NoteReference::from_path("p.md"), missing).is_none());
}

#[test]
fn pick_on_mappings() {
    let m = mapping(&[("type", Value::from("person")), ("id", Value::from(4u64))]);
    assert_eq!(Branded::new("id").pick(&m), Some(4));
    assert_eq!(Branded::new("type").pick(&m), None);
    assert_eq!(TypeAndKey::new("type", "person", "id").pick(&m), Some(4));
    assert_eq!(TypeAndKey::new("type", "Person", "id").pick(&m), None);
}

#[test]
fn index_keeps_last_note_for_a_key() {
    let found = vec![
        (1u64, NoteReference::from_path("a.md")),
        (2u64, NoteReference::from_path("b.md")),
        (1u64, NoteReference::from_path("c.md")),
    ];
    let index = index_notes(found);
    assert_eq!(index.len(), 2);
    assert_eq!(index[&1].path(), "c.md");
    assert_eq!(index[&2].path(), "b.md");
}

#[test]
fn find_by_indexes_branded_notes() {
    let notes = vec![
        (NoteReference::from_path("V/a.md"), String::from("---\nid: 7\n---\nhello")),
        (NoteReference::from_path("V/b.md"), String::from("no frontmatter at all")),
    ];
    let index = find_by(&notes, &Branded::new("id"));
    assert_eq!(index.len(), 1);
    assert_eq!(index[&7].path(), "V/a.md");
}

fn joined(default_path: &str) -> JoinedNote<u64> {
    JoinedNote {
        note_id: 7,
        default_path: String::from(default_path),
        metadata: mapping(&[("id", Value::from(7u64))]),
        contents: String::from("hello"),
    }
}

#[test]
fn write_over_existing_note_updates_it() {
    let plan = joined("people/7.md").write(Some("a.md")).unwrap();
    assert_eq!(plan.outcome, WriteOutcome::Updated);
    assert_eq!(plan.path, "a.md");
    assert!(plan.create_dir.is_none());
    assert_eq!(plan.text, "---\nid: 7\n---\nhello");
}

#[test]
fn write_new_note_creates_it() {
    let plan = joined("people/7.md").write(None).unwrap();
    assert_eq!(plan.outcome, WriteOutcome::Created);
    assert_eq!(plan.path, "people/7.md");
    assert_eq!(plan.create_dir.as_deref(), Some("people"));
    assert_eq!(plan.text, "---\nid: 7\n---\nhello");
}

#[test]
fn write_bare_file_name_is_malformed() {
    let r = joined("7.md").write(None);
    assert!(matches!(r, Err(Error::MalformedVault(_))));
}

#[test]
fn plan_with_rendered_metadata() {
    let n = joined("people/7.md");
    let plan = n.plan(None, Some(String::from("people")), Ok(String::from("x: 1\n"))).unwrap();
    assert_eq!(plan.text, "---\nx: 1\n---\nhello");
    assert!(matches!(n.plan(None, Some(String::new()), Ok(String::new())), Err(Error::MalformedVault(_))));
    let bad: Result<String, serde_yaml::Error> = Err(serde_yaml::from_str::<Mapping>("[").unwrap_err());
    assert!(matches!(n.plan(Some("a.md"), None, bad), Err(Error::MetadataError(_))));
}

#[test]
fn join_against_index_updates_found_note() {
    let notes = vec![(NoteReference::from_path("a.md"), String::from("---\nid: 7\n---\nhello"))];
    let index = find_by(&notes, &Branded::new("id"));
    let existing = index.get(&7).map(|n| n.path());
    let plan = joined("people/7.md").write(existing).unwrap();
    assert_eq!(plan.outcome, WriteOutcome::Updated);
    assert_eq!(plan.path, "a.md");
}

#[test]
fn join_with_empty_metadata_replaces_found_note() {
    let notes = vec![(NoteReference::from_path("V/a.md"), String::from("---\nid: 7\n---\nhello"))];
    let index = find_by(&notes, &Branded::new("id"));
    let j = JoinedNote {
        note_id: 7u64,
        default_path: String::from("people/7.md"),
        metadata: Mapping::new(),
        contents: String::from("bio"),
    };
    let plan = j.write(index.get(&7).map(|n| n.path())).unwrap();
    assert_eq!(plan.outcome, WriteOutcome::Updated);
    assert_eq!(plan.path, "V/a.md");
    assert!(plan.create_dir.is_none());
    assert_eq!(plan.text, "---\n{}\n---\nbio");
}
