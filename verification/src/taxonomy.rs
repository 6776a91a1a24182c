//! The taxonomy model: the in-memory source of truth, a list of categories,
//! each owning an ordered list of subcategories. Order is semantically
//! meaningful: it determines ordinal assignment.

use vstd::prelude::*;

verus! {

/// A subcategory of the taxonomy source. The display name is optional in the
/// compact source form; when absent it is derived from the identifier.
#[derive(Debug)]
pub struct Subcategory {
    pub id: String,
    pub name: Option<String>,
}

/// A category of the taxonomy source, with its ordered subcategories.
#[derive(Debug)]
pub struct Category {
    pub id: String,
    pub name: String,
    pub subcategories: Vec<Subcategory>,
}

impl Subcategory {
    /// Builds a subcategory carrying only its machine identifier; the display
    /// name will be derived from it.
    pub fn new(id: String) -> (r: Subcategory)
        ensures
            r.id == id,
            r.name is None,
    {
        Subcategory { id, name: None }
    }

    /// Builds a subcategory with an explicit display name.
    pub fn with_name(id: String, name: String) -> (r: Subcategory)
        ensures
            r.id == id,
            r.name == Some(name),
    {
        Subcategory { id, name: Some(name) }
    }
}

impl Category {
    /// Builds a category with its ordered subcategories.
    pub fn new(id: String, name: String, subcategories: Vec<Subcategory>) -> (r: Category)
        ensures
            r.id == id,
            r.name == name,
            r.subcategories == subcategories,
    {
        Category { id, name, subcategories }
    }
}

} // verus!
