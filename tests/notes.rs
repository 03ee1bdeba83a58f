use obsidian_vault::frontmatter::{split_frontmatter, Frontmatter};
use obsidian_vault::note::{finish_block, frame_note, is_hidden, is_markdown};
use obsidian_vault::{Error, NoteReference, Vault};
use serde_yaml::{Mapping, Value};

fn note() -> NoteReference {
    NoteReference::from_path("vault/a.md")
}

#[test]
fn parts_without_delimiter_returns_whole_text() {
    let (meta, body) = note().parts("hello\n---\nworld\n").unwrap();
    assert!(meta.is_none());
    assert_eq!(body, "hello\n---\nworld\n");
}

#[test]
fn parts_of_empty_text() {
    let (meta, body) = note().parts("").unwrap();
    assert!(meta.is_none());
    assert_eq!(body, "");
}

#[test]
fn parts_with_block() {
    let (meta, body) = note().parts("---\nid: 7\n---\nhello").unwrap();
    let meta = meta.unwrap();
    assert_eq!(meta.get("id"), Some(&Value::from(7u64)));
    assert_eq!(body, "hello");
}

#[test]
fn parts_body_lines_are_rejoined() {
    let (meta, body) = note().parts("---\na: x\n---\nline one\nline two\n").unwrap();
    assert!(meta.is_some());
    assert_eq!(body, "line one\nline two");
}

#[test]
fn parts_unclosed_block() {
    let r = note().parts("---\nid: 7");
    assert!(matches!(r, Err(Error::UnclosedMetadata)));
}

#[test]
fn parts_rejected_block() {
    let r = note().parts("---\nid: [1, 2\n---\nbody");
    assert!(matches!(r, Err(Error::MetadataError(_))));
}

#[test]
fn metadata_missing_without_block() {
    let r = note().metadata("no frontmatter at all");
    assert!(matches!(r, Err(Error::MissingMetadata)));
}

#[test]
fn metadata_read_from_block() {
    let m = note().metadata("---\ntitle: Hi\n---\n").unwrap();
    assert_eq!(m.get("title"), Some(&Value::from("Hi")));
}

#[test]
fn parse_keeps_path_and_body() {
    let n = note().parse("---\ntitle: Hi\n---\nbody").unwrap();
    assert_eq!(n.path(), "vault/a.md");
    assert_eq!(n.content, "body");
    assert_eq!(n.metadata.get("title"), Some(&Value::from("Hi")));
}

#[test]
fn parse_without_block_fails() {
    assert!(matches!(note().parse("plain"), Err(Error::MissingMetadata)));
}

#[test]
fn split_strips_carriage_returns() {
    match split_frontmatter("---\r\nid: 1\r\n---\r\nbody\r\nmore\r\n") {
        Frontmatter::Present { block, closed, body } => {
            assert_eq!(block, "id: 1");
            assert!(closed);
            assert_eq!(body, "body\nmore");
        }
        Frontmatter::Absent { .. } => panic!("expected a block"),
    }
}

#[test]
fn split_multi_line_block() {
    match split_frontmatter("---\na: 1\nb: 2\n---\n") {
        Frontmatter::Present { block, closed, body } => {
            assert_eq!(block, "a: 1\nb: 2");
            assert!(closed);
            assert_eq!(body, "");
        }
        Frontmatter::Absent { .. } => panic!("expected a block"),
    }
}

#[test]
fn split_unclosed_block() {
    match split_frontmatter("---\na: 1\nb: 2") {
        Frontmatter::Present { block, closed, .. } => {
            assert_eq!(block, "a: 1\nb: 2");
            assert!(!closed);
        }
        Frontmatter::Absent { .. } => panic!("expected a block"),
    }
}

#[test]
fn split_indented_delimiter_is_body() {
    match split_frontmatter(" ---\na: 1\n---\n") {
        Frontmatter::Absent { body } => assert_eq!(body, " ---\na: 1\n---\n"),
        Frontmatter::Present { .. } => panic!("expected no block"),
    }
}

#[test]
fn finish_block_checks_codec_first() {
    let bad: Result<Mapping, serde_yaml::Error> = serde_yaml::from_str("[1, 2");
    let r = finish_block(bad, false, String::new());
    assert!(matches!(r, Err(Error::MetadataError(_))));
    let r = finish_block(Ok(5u64), false, String::from("b"));
    assert!(matches!(r, Err(Error::UnclosedMetadata)));
    let (m, b) = finish_block(Ok(5u64), true, String::from("b")).unwrap();
    assert_eq!(m, Some(5));
    assert_eq!(b, "b");
}

#[test]
fn frame_note_layout() {
    assert_eq!(frame_note("id: 7\n", "hello"), "---\nid: 7\n---\nhello");
}

#[test]
fn codec_round_trip() {
    let mut m = Mapping::new();
    m.insert(Value::from("id"), Value::from(7u64));
    m.insert(Value::from("title"), Value::from("A note"));
    let n = NoteReference::from_path("x.md").parse("---\nplaceholder: 1\n---\nbody").unwrap();
    let n = obsidian_vault::VaultNote { path: n.path, metadata: m.clone(), content: n.content };
    let text = n.write().unwrap();
    let (back, body) = NoteReference::from_path("x.md").parts(&text).unwrap();
    assert_eq!(back, Some(m));
    assert_eq!(body, "body");
}

#[test]
fn hidden_entries() {
    assert!(is_hidden(Some(".git")));
    assert!(!is_hidden(Some("notes")));
    assert!(!is_hidden(Some("")));
    assert!(!is_hidden(None));
}

#[test]
fn markdown_extension() {
    assert!(is_markdown(Some("md")));
    assert!(!is_markdown(Some("mdx")));
    assert!(!is_markdown(Some("txt")));
    assert!(!is_markdown(None));
}

#[test]
fn note_reference_paths() {
    let n = NoteReference::from_path("v/a.md");
    assert_eq!(n.path(), "v/a.md");
    assert_eq!(n.to_path_buf(), "v/a.md");
    assert_eq!(Vault::open("v").get_root(), "v");
}

#[test]
fn metadata_missing_exactly_when_parts_has_none() {
    for text in ["plain", "", "---\nid: 1\n---\nx", "x\n---\nid: 1\n---\n"] {
        let parts_none = matches!(note().parts(text), Ok((None, _)));
        let missing = matches!(note().metadata(text), Err(Error::MissingMetadata));
        assert_eq!(parts_none, missing);
    }
}
