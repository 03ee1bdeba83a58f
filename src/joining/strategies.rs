//! Ways of reading a note's key out of its metadata.
use vstd::prelude::*;

use crate::codec::{decoded, field_key, field_text, key_fields, text_fields};
use crate::frontmatter::block_text;
use crate::note::{has_metadata, NoteReference};

verus! {

/// Reads the key that ties a note to an outside record.
pub trait Strategy {
    /// The key that this strategy reads from the metadata `m`, if any.
    spec fn key_of(&self, m: serde_yaml::Mapping) -> Option<u64>;

    /// Reads the key from a note's metadata.
    fn pick(&self, m: &serde_yaml::Mapping) -> (r: Option<u64>)
        ensures
            r == self.key_of(*m),
    ;

    /// The key of the note whose text is `content`, paired with the note.
    /// Every failure to read the note's metadata yields nothing.
    fn extract(&self, note_reference: NoteReference, content: &str) -> (r: Option<(u64, NoteReference)>)
        ensures
            !has_metadata(content@) ==> r is None,
            has_metadata(content@) ==> r == match self.key_of(decoded(block_text(content@))) {
                Some(k) => Some((k, note_reference)),
                None => None::<(u64, NoteReference)>,
            },
    ;
}

/// The key that `strategy` reads from a note whose text is `c`: none where
/// the note has no readable metadata.
pub open spec fn note_key<S: Strategy + ?Sized>(strategy: &S, c: Seq<char>) -> Option<u64> {
    if has_metadata(c) {
        strategy.key_of(decoded(block_text(c)))
    } else {
        None
    }
}

/// The key stands in one fixed field.
pub struct Branded {
    pub brand_key: String,
}

/// The key stands in one field, but only where a second field names the
/// expected kind of note.
pub struct TypeAndKey {
    pub type_key: String,
    pub note_type: String,
    pub id_key: String,
}

impl Branded {
    pub fn new(brand_key: &str) -> (r: Branded)
        ensures
            r.brand_key@ == brand_key@,
    {
        Branded { brand_key: brand_key.to_owned() }
    }
}

impl TypeAndKey {
    pub fn new(type_key: &str, note_type: &str, id_key: &str) -> (r: TypeAndKey)
        ensures
            r.type_key@ == type_key@,
            r.note_type@ == note_type@,
            r.id_key@ == id_key@,
    {
        TypeAndKey {
            type_key: type_key.to_owned(),
            note_type: note_type.to_owned(),
            id_key: id_key.to_owned(),
        }
    }
}

impl Strategy for Branded {
    open spec fn key_of(&self, m: serde_yaml::Mapping) -> Option<u64> {
        if key_fields(m).contains_key(self.brand_key@) {
            Some(key_fields(m)[self.brand_key@])
        } else {
            None
        }
    }

    fn pick(&self, m: &serde_yaml::Mapping) -> (r: Option<u64>) {
        field_key(m, self.brand_key.as_str())
    }

    fn extract(&self, note_reference: NoteReference, content: &str) -> (r: Option<(u64, NoteReference)>) {
        match note_reference.metadata(content) {
            Ok(m) => match self.pick(&m) {
                Some(k) => Some((k, note_reference)),
                None => None,
            },
            Err(_) => None,
        }
    }
}

impl Strategy for TypeAndKey {
    open spec fn key_of(&self, m: serde_yaml::Mapping) -> Option<u64> {
        if text_fields(m).contains_key(self.type_key@) && text_fields(m)[self.type_key@]
            == self.note_type@ && key_fields(m).contains_key(self.id_key@) {
            Some(key_fields(m)[self.id_key@])
        } else {
            None
        }
    }

    fn pick(&self, m: &serde_yaml::Mapping) -> (r: Option<u64>) {
        let note_type = match field_text(m, self.type_key.as_str()) {
            Some(t) => t,
            None => {
                return None;
            },
        };
        if note_type != self.note_type {
            return None;
        }
        field_key(m, self.id_key.as_str())
    }

    fn extract(&self, note_reference: NoteReference, content: &str) -> (r: Option<(u64, NoteReference)>) {
        match note_reference.metadata(content) {
            Ok(m) => match self.pick(&m) {
                Some(k) => Some((k, note_reference)),
                None => None,
            },
            Err(_) => None,
        }
    }
}

/// `TypeAndKey` gives a key only where the type field holds exactly the
/// expected text.
pub proof fn lemma_type_and_key_checks_type(s: TypeAndKey, m: serde_yaml::Mapping)
    ensures
        s.key_of(m) is Some ==> text_fields(m).contains_key(s.type_key@) && text_fields(m)[s.type_key@]
            == s.note_type@,
{
}

/// `Branded` gives the key of its field wherever that field holds one,
/// whatever the other fields hold.
pub proof fn lemma_branded_reads_brand(s: Branded, m: serde_yaml::Mapping)
    requires
        key_fields(m).contains_key(s.brand_key@),
    ensures
        s.key_of(m) == Some(key_fields(m)[s.brand_key@]),
{
}

} // verus!
