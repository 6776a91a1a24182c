//! Index entries: the flat, generation-frozen table that the runtime query
//! surface reads. One entry per traversed taxonomy node, in traversal order,
//! carrying the string identifier, display name, kind, parent identifier and
//! the assigned identifier-space member.

use vstd::prelude::*;
use crate::ident::GenreId;

verus! {

/// Distinguishes a top-level genre entry from a subgenre entry.
#[derive(Clone, Copy, PartialEq, Eq, Structural, Debug)]
pub enum GenreType {
    Genre,
    Subgenre,
}

/// One entry of the runtime index: a genre or subgenre with its metadata.
/// For a `Genre` entry `parent_id` is absent; for a `Subgenre` entry it is
/// the owning genre's identifier.
#[derive(Debug)]
pub struct GenreEntry {
    pub id: String,
    pub name: String,
    pub genre_type: GenreType,
    pub parent_id: Option<String>,
    pub genre_id: GenreId,
}

impl Clone for GenreEntry {
    fn clone(&self) -> (r: Self)
        ensures
            r == *self,
    {
        GenreEntry {
            id: self.id.clone(),
            name: self.name.clone(),
            genre_type: self.genre_type,
            parent_id: match &self.parent_id {
                Some(p) => Some(p.clone()),
                None => None,
            },
            genre_id: self.genre_id,
        }
    }
}

impl GenreEntry {
    /// The machine-readable string identifier.
    pub fn id(&self) -> (r: String)
        ensures
            r == self.id,
    {
        self.id.clone()
    }

    /// The human-readable display name.
    pub fn name(&self) -> (r: String)
        ensures
            r == self.name,
    {
        self.name.clone()
    }

    /// Whether this entry is a genre or a subgenre.
    pub fn genre_type(&self) -> (r: GenreType)
        ensures
            r == self.genre_type,
    {
        self.genre_type
    }

    /// The owning genre's identifier, absent for a top-level genre.
    pub fn parent_id(&self) -> (r: Option<String>)
        ensures
            r == self.parent_id,
    {
        match &self.parent_id {
            Some(p) => Some(p.clone()),
            None => None,
        }
    }

    /// The identifier-space member assigned to this entry.
    pub fn genre_id(&self) -> (r: GenreId)
        ensures
            r == self.genre_id,
    {
        self.genre_id
    }

    /// The identifier-space member, under the name used by foreign callers.
    pub fn to_native_type(&self) -> (r: GenreId)
        ensures
            r == self.genre_id,
    {
        self.genre_id
    }
}

} // verus!
