//! Notes with an optional metadata block, and joining them to outside records.
use vstd::prelude::*;

pub mod codec;
pub mod error;
pub mod frontmatter;
pub mod joining;
pub mod note;

pub use error::Error;
pub use note::{NoteReference, Vault, VaultNote};

verus! {

} // verus!
