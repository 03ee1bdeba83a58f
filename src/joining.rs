//! Joining notes to outside records by a key read from their metadata.
use std::collections::HashMap;
use vstd::prelude::*;

use crate::codec::{encode_mapping, parent_of, path_parent, rendered, renders};
use crate::error::Error;
use crate::note::{frame_note, framed, NoteReference};
use strategies::{note_key, Strategy};

pub mod strategies;

verus! {

broadcast use vstd::std_specs::hash::group_hash_axioms;

/// The index of keyed notes: each key with the last note that carried it.
pub open spec fn index_of(found: Seq<(u64, NoteReference)>) -> Map<u64, NoteReference>
    decreases found.len(),
{
    if found.len() == 0 {
        Map::empty()
    } else {
        index_of(found.drop_last()).insert(found.last().0, found.last().1)
    }
}

/// Builds the index of keyed notes; where two notes carry one key, the later one stays.
pub fn index_notes(found: Vec<(u64, NoteReference)>) -> (r: HashMap<u64, NoteReference>)
    ensures
        r@ == index_of(found@),
{
    let ghost all = found@;
    let mut rest = found;
    let mut index: HashMap<u64, NoteReference> = HashMap::new();
    while rest.len() > 0
        invariant
            all.len() >= rest@.len(),
            rest@ == all.take(rest@.len() as int),
            index_of(all) == index_of(rest@).union_prefer_right(index@),
        decreases rest.len(),
    {
        let ghost before = rest@;
        let (k, n) = rest.pop().unwrap();
        proof {
            assert(rest@ == before.drop_last());
            assert(rest@ == all.take(rest@.len() as int));
        }
        if !index.contains_key(&k) {
            let ghost old_index = index@;
            index.insert(k, n);
            assert(index_of(before).union_prefer_right(old_index) =~= index_of(
                rest@,
            ).union_prefer_right(index@));
        } else {
            assert(index_of(before).union_prefer_right(index@) =~= index_of(
                rest@,
            ).union_prefer_right(index@));
        }
    }
    assert(index_of(rest@) =~= Map::empty());
    assert(index_of(all) =~= index@);
    index
}

/// The keyed notes among `notes`, in order: each note from which `strategy`
/// reads a key, with that key.
pub open spec fn keyed<S: Strategy>(notes: Seq<(NoteReference, String)>, strategy: &S) -> Seq<
    (u64, NoteReference),
>
    decreases notes.len(),
{
    if notes.len() == 0 {
        seq![]
    } else {
        let prev = keyed(notes.drop_last(), strategy);
        match note_key(strategy, notes.last().1@) {
            Some(k) => prev.push((k, notes.last().0)),
            None => prev,
        }
    }
}

/// Indexes the notes of a vault, given with the text read from each, by the
/// key that `strategy` reads from their metadata. Notes whose metadata cannot
/// be read, or that carry no key, are left out; where two notes carry one
/// key, the later one stays.
pub fn find_by<S: Strategy>(notes: &Vec<(NoteReference, String)>, strategy: &S) -> (r: HashMap<
    u64,
    NoteReference,
>)
    ensures
        r@ == index_of(keyed(notes@, strategy)),
{
    let mut found: Vec<(u64, NoteReference)> = Vec::new();
    for i in 0..notes.len()
        invariant
            found@ == keyed(notes@.take(i as int), strategy),
    {
        let (note, content) = &notes[i];
        let ghost before = found@;
        match strategy.extract(note.clone(), content.as_str()) {
            Some(pair) => {
                found.push(pair);
            },
            None => {},
        }
        assert(notes@.take(i + 1).drop_last() =~= notes@.take(i as int));
    }
    assert(notes@.take(notes.len() as int) =~= notes@);
    index_notes(found)
}

/// Whether a write created a note or replaced an existing one.
#[derive(Clone, Copy, Debug, PartialEq, Eq, Structural)]
pub enum WriteOutcome {
    Created,
    Updated,
}

/// A note tied to an outside record: where it goes when no note exists yet,
/// and the metadata and body it should hold.
pub struct JoinedNote<K> {
    pub note_id: K,
    pub default_path: String,
    pub metadata: serde_yaml::Mapping,
    pub contents: String,
}

/// What a write does: the directory to create first, if any, the file to
/// replace and its full new text.
#[derive(Debug)]
pub struct WritePlan {
    pub outcome: WriteOutcome,
    pub path: String,
    pub create_dir: Option<String>,
    pub text: String,
}

/// The path has a parent directory that is not empty.
pub open spec fn meaningful_parent(p: Seq<char>) -> bool {
    parent_of(p) is Some && parent_of(p)->0.len() > 0
}

/// The plan that writes where `existing` points, or else at `default_path`
/// after creating `parent`.
pub open spec fn plan_matches(
    plan: WritePlan,
    existing: Option<Seq<char>>,
    default_path: Seq<char>,
    parent: Option<Seq<char>>,
) -> bool {
    match existing {
        Some(p) => plan.outcome == WriteOutcome::Updated && plan.path@ == p
            && plan.create_dir is None,
        None => plan.outcome == WriteOutcome::Created && plan.path@ == default_path
            && plan.create_dir is Some && parent == Some(plan.create_dir->0@),
    }
}

pub open spec fn view_of_path(existing: Option<&str>) -> Option<Seq<char>> {
    match existing {
        Some(p) => Some(p@),
        None => None,
    }
}

pub open spec fn view_of_parent(parent: Option<String>) -> Option<Seq<char>> {
    match parent {
        Some(p) => Some(p@),
        None => None,
    }
}

impl<K> JoinedNote<K> {
    /// Plans the write once the default path's `parent` has been found and
    /// the metadata rendered as `rendered`. Without an `existing` note the
    /// parent must be present and not empty; that is looked at before the
    /// rendering.
    pub fn plan(
        &self,
        existing: Option<&str>,
        parent: Option<String>,
        rendered: Result<String, serde_yaml::Error>,
    ) -> (r: Result<WritePlan, Error>)
        ensures
            existing is None && (parent is None || parent->0@.len() == 0) ==> r is Err
                && r->Err_0 is MalformedVault,
            existing is Some || (parent is Some && parent->0@.len() > 0) ==> match rendered {
                Ok(y) => r is Ok && plan_matches(
                    r->Ok_0,
                    view_of_path(existing),
                    self.default_path@,
                    view_of_parent(parent),
                ) && r->Ok_0.text@ == framed(y@, self.contents@),
                Err(e) => r == Err::<WritePlan, Error>(Error::MetadataError(e)),
            },
    {
        let (outcome, path, create_dir) = match existing {
            Some(p) => (WriteOutcome::Updated, p.to_owned(), None),
            None => {
                let parent = match parent {
                    Some(q) => q,
                    None => {
                        return Err(
                            Error::MalformedVault(
                                "Invalid note location, lacks meaningful parent".to_owned(),
                            ),
                        );
                    },
                };
                if parent.as_str().is_empty() {
                    return Err(
                        Error::MalformedVault(
                            "Invalid note location, lacks meaningful parent".to_owned(),
                        ),
                    );
                }
                (WriteOutcome::Created, self.default_path.clone(), Some(parent))
            },
        };
        match rendered {
            Ok(y) => Ok(
                WritePlan {
                    outcome,
                    path,
                    create_dir,
                    text: frame_note(y.as_str(), self.contents.as_str()),
                },
            ),
            Err(e) => Err(Error::MetadataError(e)),
        }
    }

    /// Plans the write of this note: over `existing` where a note was found,
    /// else at the default path, whose parent directory is created first.
    /// The file gets a fresh metadata block and this note's body.
    pub fn write(&self, existing: Option<&str>) -> (r: Result<WritePlan, Error>)
        ensures
            existing is None && !meaningful_parent(self.default_path@) ==> r is Err
                && r->Err_0 is MalformedVault,
            (existing is Some || meaningful_parent(self.default_path@)) && !renders(self.metadata)
                ==> r is Err && r->Err_0 is MetadataError,
            (existing is Some || meaningful_parent(self.default_path@)) && renders(self.metadata)
                ==> r is Ok && plan_matches(
                r->Ok_0,
                view_of_path(existing),
                self.default_path@,
                parent_of(self.default_path@),
            ) && r->Ok_0.text@ == framed(rendered(self.metadata), self.contents@),
    {
        let parent = if existing.is_none() {
            path_parent(self.default_path.as_str())
        } else {
            None
        };
        self.plan(existing, parent, encode_mapping(&self.metadata))
    }
}

} // verus!
