//! Notes, their metadata and body, and the vault that holds them.
//!
//! Reading files is left to the caller: each operation here takes the text
//! that was read from the note's path.
use vstd::prelude::*;

use crate::codec::{decode_mapping, decoded, encode_mapping, rendered, renders, yaml_accepts};
use crate::error::Error;
use crate::frontmatter::{
    block_closed, block_text, body_text, closing_line, delimiter, lemma_closing_at,
    lemma_join_lines_from, lemma_lines_after_delimiter, lemma_lines_shift, lemma_lines_split,
    lines, no_crlf, opens_block, split_frontmatter, Frontmatter,
};

verus! {

/// The note's text opens and closes a metadata block that the codec reads.
pub open spec fn has_metadata(c: Seq<char>) -> bool {
    &&& opens_block(c)
    &&& yaml_accepts(block_text(c))
    &&& block_closed(c)
}

/// The text written to a note file: a metadata block, then the body.
pub open spec fn framed(metadata: Seq<char>, body: Seq<char>) -> Seq<char> {
    seq!['-', '-', '-', '\n'] + metadata + seq!['-', '-', '-', '\n'] + body
}

/// The text of a note laid out as a delimiter line, `a`, a delimiter line, then `b`.
pub open spec fn note_text(a: Seq<char>, b: Seq<char>) -> Seq<char> {
    delimiter() + seq!['\n'] + a + seq!['\n'] + delimiter() + seq!['\n'] + b
}

/// A note laid out as a delimiter line, `a`, a delimiter line and `b` splits
/// back into exactly `a` and `b`: `parts` gives metadata read from `a` where
/// the codec reads `a`, and body `b`. Lines drop a carriage return before a
/// line feed and a final line feed, and a delimiter line inside `a` would
/// close the block early, so those are left out.
pub proof fn lemma_framed_note_parts(a: Seq<char>, b: Seq<char>)
    requires
        no_crlf(a + seq!['\n']),
        no_crlf(b),
        b.len() == 0 || b.last() != '\n',
        !lines(a + seq!['\n']).contains(delimiter()),
    ensures
        opens_block(note_text(a, b)),
        block_closed(note_text(a, b)),
        block_text(note_text(a, b)) == a,
        body_text(note_text(a, b)) == b,
        has_metadata(note_text(a, b)) <==> yaml_accepts(a),
{
    let c = note_text(a, b);
    let an = a + seq!['\n'];
    let rest = an + delimiter() + seq!['\n'] + b;
    assert(c =~= delimiter() + seq!['\n'] + rest);
    lemma_lines_after_delimiter(rest);
    let p: int = a.len() as int + 1;
    lemma_lines_split(rest, 0, 0, p);
    assert(rest.take(p) =~= an);
    lemma_lines_shift(rest, p, p, p);
    assert(rest.skip(p) =~= delimiter() + seq!['\n'] + b);
    lemma_lines_after_delimiter(b);
    let la = lines(an);
    let n: int = la.len() as int;
    let ls = lines(c);
    assert(ls =~= seq![delimiter()] + la + seq![delimiter()] + lines(b));
    assert forall|i: int| 1 <= i < n + 1 implies ls[i] != delimiter() by {
        assert(ls[i] == la[i - 1]);
    }
    lemma_closing_at(ls, 1, n + 1);
    assert(closing_line(c) == n + 1);
    assert(ls.subrange(1, n + 1) =~= la);
    lemma_join_lines_from(an, 0, 0);
    assert(an.subrange(0, an.len() - 1) =~= a);
    assert(ls.subrange(n + 2, ls.len() as int) =~= lines(b));
    if b.len() > 0 {
        lemma_join_lines_from(b, 0, 0);
        assert(b.subrange(0, b.len() as int) =~= b);
    } else {
        assert(lines(b) =~= Seq::<Seq<char>>::empty());
    }
}

/// A note that opens a block in its first line and holds no second
/// delimiter line never has its block closed, so it has no metadata:
/// `parts` fails with `UnclosedMetadata` where the codec reads the block.
/// The block is `a` itself unless lines drop a carriage return before a
/// line feed or a final line feed.
pub proof fn lemma_unclosed_note(a: Seq<char>)
    requires
        !lines(a).contains(delimiter()),
    ensures
        opens_block(delimiter() + seq!['\n'] + a),
        !block_closed(delimiter() + seq!['\n'] + a),
        !has_metadata(delimiter() + seq!['\n'] + a),
        no_crlf(a) && (a.len() == 0 || a.last() != '\n') ==> block_text(
            delimiter() + seq!['\n'] + a,
        ) == a,
{
    let c = delimiter() + seq!['\n'] + a;
    lemma_lines_after_delimiter(a);
    let ls = lines(c);
    assert forall|i: int| 1 <= i < ls.len() implies ls[i] != delimiter() by {
        assert(ls[i] == lines(a)[i - 1]);
    }
    lemma_closing_at(ls, 1, ls.len() as int);
    assert(ls.subrange(1, ls.len() as int) =~= lines(a));
    if no_crlf(a) && (a.len() == 0 || a.last() != '\n') {
        if a.len() > 0 {
            lemma_join_lines_from(a, 0, 0);
            assert(a.subrange(0, a.len() as int) =~= a);
        } else {
            assert(lines(a) =~= Seq::<Seq<char>>::empty());
        }
    }
}

/// A reference to one note file by its path.
#[derive(Debug)]
pub struct NoteReference {
    path: String,
}

/// A note read in full: its path, metadata and body.
#[derive(Debug)]
pub struct VaultNote {
    pub path: String,
    pub metadata: serde_yaml::Mapping,
    pub content: String,
}

/// A directory tree of notes.
#[derive(Debug)]
pub struct Vault {
    root: String,
}

impl View for NoteReference {
    type V = Seq<char>;

    closed spec fn view(&self) -> Seq<char> {
        self.path@
    }
}

/// Ends a metadata block that the codec has read: the block must also be
/// closed. The codec's verdict is looked at first.
pub fn finish_block<T>(decoded: Result<T, serde_yaml::Error>, closed: bool, body: String) -> (r:
    Result<(Option<T>, String), Error>)
    ensures
        match decoded {
            Err(e) => r == Err::<(Option<T>, String), Error>(Error::MetadataError(e)),
            Ok(m) => if closed {
                r == Ok::<(Option<T>, String), Error>((Some(m), body))
            } else {
                r is Err && r->Err_0 is UnclosedMetadata
            },
        },
{
    match decoded {
        Err(e) => Err(Error::MetadataError(e)),
        Ok(m) => {
            if closed {
                Ok((Some(m), body))
            } else {
                Err(Error::UnclosedMetadata)
            }
        },
    }
}

/// Frames rendered metadata and a body into the text of a note file.
pub fn frame_note(metadata: &str, body: &str) -> (r: String)
    ensures
        r@ == framed(metadata@, body@),
{
    let mut out = String::new();
    out.append("---\n");
    out.append(metadata);
    out.append("---\n");
    out.append(body);
    proof {
        reveal_strlit("---\n");
        assert(out@ =~= framed(metadata@, body@));
    }
    out
}

impl Clone for NoteReference {
    fn clone(&self) -> (r: NoteReference)
        ensures
            r == *self,
    {
        NoteReference { path: self.path.clone() }
    }
}

impl NoteReference {
    pub fn path(&self) -> (r: &str)
        ensures
            r@ == self@,
    {
        self.path.as_str()
    }

    pub fn to_path_buf(self) -> (r: String)
        ensures
            r@ == self@,
    {
        self.path
    }

    pub fn from_path(path: &str) -> (r: NoteReference)
        ensures
            r@ == path@,
    {
        NoteReference { path: path.to_owned() }
    }

    /// Splits `content`, the text of this note, into its metadata and body.
    /// Where no block is opened the whole text is body; an opened block is
    /// handed to the codec first and must then be closed.
    pub fn parts(&self, content: &str) -> (r: Result<(Option<serde_yaml::Mapping>, String), Error>)
        ensures
            !opens_block(content@) ==> r is Ok && r->Ok_0.0 is None && r->Ok_0.1@ == content@,
            opens_block(content@) && !yaml_accepts(block_text(content@)) ==> r is Err
                && r->Err_0 is MetadataError,
            opens_block(content@) && yaml_accepts(block_text(content@)) && !block_closed(
                content@,
            ) ==> r is Err && r->Err_0 is UnclosedMetadata,
            has_metadata(content@) ==> r is Ok && r->Ok_0.0 == Some(decoded(block_text(content@)))
                && r->Ok_0.1@ == body_text(content@),
            (r is Ok && r->Ok_0.0 is None) <==> !opens_block(content@),
    {
        match split_frontmatter(content) {
            Frontmatter::Absent { body } => Ok((None, body)),
            Frontmatter::Present { block, closed, body } => {
                finish_block(decode_mapping(block.as_str()), closed, body)
            },
        }
    }

    /// The metadata of `content`, the text of this note, which must open a block.
    pub fn metadata(&self, content: &str) -> (r: Result<serde_yaml::Mapping, Error>)
        ensures
            !opens_block(content@) ==> r is Err && r->Err_0 is MissingMetadata,
            opens_block(content@) && !yaml_accepts(block_text(content@)) ==> r is Err
                && r->Err_0 is MetadataError,
            opens_block(content@) && yaml_accepts(block_text(content@)) && !block_closed(
                content@,
            ) ==> r is Err && r->Err_0 is UnclosedMetadata,
            r is Ok <==> has_metadata(content@),
            r is Ok ==> r->Ok_0 == decoded(block_text(content@)),
            (r is Err && r->Err_0 is MissingMetadata) <==> !opens_block(content@),
    {
        match self.parts(content) {
            Ok((Some(m), _)) => Ok(m),
            Ok((None, _)) => Err(Error::MissingMetadata),
            Err(e) => Err(e),
        }
    }

    /// Reads `content`, the text of this note, as a note with metadata.
    pub fn parse(&self, content: &str) -> (r: Result<VaultNote, Error>)
        ensures
            !opens_block(content@) ==> r is Err && r->Err_0 is MissingMetadata,
            opens_block(content@) && !yaml_accepts(block_text(content@)) ==> r is Err
                && r->Err_0 is MetadataError,
            opens_block(content@) && yaml_accepts(block_text(content@)) && !block_closed(
                content@,
            ) ==> r is Err && r->Err_0 is UnclosedMetadata,
            r is Ok <==> has_metadata(content@),
            r is Ok ==> r->Ok_0.path@ == self@ && r->Ok_0.content@ == body_text(content@)
                && r->Ok_0.metadata == decoded(block_text(content@)),
    {
        let (metadata, content) = match self.parts(content) {
            Ok((Some(m), body)) => (m, body),
            Ok((None, _)) => {
                return Err(Error::MissingMetadata);
            },
            Err(e) => {
                return Err(e);
            },
        };
        Ok(VaultNote { path: self.path.clone(), metadata, content })
    }
}

impl VaultNote {
    /// The path the note was read from.
    pub fn path(&self) -> (r: &str)
        ensures
            r@ == self.path@,
    {
        self.path.as_str()
    }

    /// The text to store at the note's path: its metadata rendered by the
    /// codec in a fresh block, then its body.
    pub fn write(&self) -> (r: Result<String, Error>)
        ensures
            r is Ok <==> renders(self.metadata),
            r is Err ==> r->Err_0 is MetadataError,
            r is Ok ==> r->Ok_0@ == framed(rendered(self.metadata), self.content@),
    {
        match encode_mapping(&self.metadata) {
            Ok(y) => Ok(frame_note(y.as_str(), self.content.as_str())),
            Err(e) => Err(Error::MetadataError(e)),
        }
    }
}

impl Vault {
    pub closed spec fn root(&self) -> Seq<char> {
        self.root@
    }

    pub fn open(root: &str) -> (r: Vault)
        ensures
            r.root() == root@,
    {
        Vault { root: root.to_owned() }
    }

    /// The directory that holds the vault's notes.
    pub fn get_root(&self) -> (r: &str)
        ensures
            r@ == self.root(),
    {
        self.root.as_str()
    }
}

/// An entry is hidden when its name starts with a dot.
pub fn is_hidden(file_name: Option<&str>) -> (r: bool)
    ensures
        r == (file_name is Some && file_name->0@.len() > 0 && file_name->0@[0] == '.'),
{
    match file_name {
        Some(name) => {
            if name.is_empty() {
                false
            } else {
                name.get_char(0) == '.'
            }
        },
        None => false,
    }
}

/// A file is a note when its extension is `md`.
pub fn is_markdown(extension: Option<&str>) -> (r: bool)
    ensures
        r == (extension is Some && extension->0@ == seq!['m', 'd']),
{
    match extension {
        Some(ext) => {
            if ext.unicode_len() != 2 {
                return false;
            }
            let r = ext.get_char(0) == 'm' && ext.get_char(1) == 'd';
            if r {
                assert(ext@ =~= seq!['m', 'd']);
            } else {
                assert(ext@ != seq!['m', 'd']) by {
                    if ext@ == seq!['m', 'd'] {
                        assert(ext@[0] == 'm' && ext@[1] == 'd');
                    }
                }
            }
            r
        },
        None => false,
    }
}

} // verus!
