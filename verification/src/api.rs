//! The runtime query surface: read-only hierarchy and membership queries
//! over the generation-frozen index table. No operation mutates the
//! snapshot, and absence ("not found", "no subcategories") is a normal
//! negative result, never a fault.

use vstd::prelude::*;
use crate::compile::compile;
use crate::compile::entries_match;
use crate::compile::flatten;
use crate::compile::has_collision;
use crate::compile::names_collision;
use crate::compile::CollisionError;
use crate::entry::GenreEntry;
use crate::entry::GenreType;
use crate::ident::GenreId;
use crate::normalize::normalize_id;
use crate::normalize::str_equal;
use crate::normalize::symbolic_name;
use crate::taxonomy::Category;

verus! {

/// Whether an entry is a top-level genre.
pub open spec fn is_genre(e: GenreEntry) -> bool {
    e.genre_type == GenreType::Genre
}

/// Whether an entry is a subgenre owned by the genre with identifier `pid`.
pub open spec fn has_parent(e: GenreEntry, pid: Seq<char>) -> bool {
    e.parent_id matches Some(p) && p@ == pid
}

/// The top-level genre entries of a snapshot, order preserved.
pub open spec fn genres_of(s: Seq<GenreEntry>) -> Seq<GenreEntry> {
    s.filter(|e: GenreEntry| is_genre(e))
}

/// The subgenre entries of a snapshot owned by the genre with identifier
/// `pid`, order preserved.
pub open spec fn subgenres_in(s: Seq<GenreEntry>, pid: Seq<char>) -> Seq<GenreEntry> {
    s.filter(|e: GenreEntry| has_parent(e, pid))
}

/// The first entry of a snapshot whose identifier is `id`, if any.
pub open spec fn find_entry(s: Seq<GenreEntry>, id: Seq<char>) -> Option<GenreEntry>
    decreases s.len(),
{
    if s.len() == 0 {
        Option::None
    } else if s[0].id@ == id {
        Option::Some(s[0])
    } else {
        find_entry(s.skip(1), id)
    }
}

/// Filtering a snapshot extended by one entry keeps the filtered prefix and
/// appends the new entry exactly when it satisfies the predicate.
proof fn lemma_filter_push(s: Seq<GenreEntry>, e: GenreEntry, pred: spec_fn(GenreEntry) -> bool)
    ensures
        s.push(e).filter(pred) == if pred(e) {
            s.filter(pred).push(e)
        } else {
            s.filter(pred)
        },
{
    reveal(Seq::filter);
    assert(s.push(e).drop_last() =~= s);
    assert(s.push(e).last() == e);
}

/// A hierarchical view item: one genre together with its own subgenre
/// entries, reproducing the source parent/child structure.
#[derive(Debug)]
pub struct HierarchicalGenre {
    pub id: String,
    pub name: String,
    pub genre_id: GenreId,
    pub subgenres: Vec<GenreEntry>,
}

/// Whether a hierarchical view item is the faithful image of the genre entry
/// `g` within the snapshot `all`.
pub open spec fn hier_matches(h: HierarchicalGenre, g: GenreEntry, all: Seq<GenreEntry>) -> bool {
    &&& h.id == g.id
    &&& h.name == g.name
    &&& h.genre_id == g.genre_id
    &&& h.subgenres@ == subgenres_in(all, g.id@)
}

/// The genre query API: read-only operations over one generation-frozen
/// snapshot of index entries.
#[derive(Debug)]
pub struct GenreApi {
    pub entries: Vec<GenreEntry>,
}

impl GenreApi {
    /// An API over an empty snapshot: every lookup is a miss.
    pub fn new() -> (r: GenreApi)
        ensures
            r.entries@.len() == 0,
    {
        GenreApi { entries: Vec::new() }
    }

    /// An API over an already-built snapshot.
    pub fn from_entries(entries: Vec<GenreEntry>) -> (r: GenreApi)
        ensures
            r.entries == entries,
    {
        GenreApi { entries }
    }

    /// Compiles a taxonomy and freezes the resulting index table as the
    /// snapshot; fails exactly when two identifiers normalize to the same
    /// symbolic name, naming both.
    pub fn from_taxonomy(taxonomy: &Vec<Category>) -> (r: Result<GenreApi, CollisionError>)
        ensures
            match r {
                Ok(api) => !has_collision(flatten(taxonomy@)) && entries_match(
                    api.entries@,
                    flatten(taxonomy@),
                ),
                Err(e) => names_collision(taxonomy@, e),
            },
    {
        match compile(taxonomy) {
            Ok(c) => Ok(GenreApi { entries: c.entries }),
            Err(e) => Err(e),
        }
    }

    /// All genre and subgenre entries, in traversal order.
    pub fn get_all_genres(&self) -> (r: Vec<GenreEntry>)
        ensures
            r@ == self.entries@,
    {
        let mut out: Vec<GenreEntry> = Vec::new();
        let mut i: usize = 0;
        proof {
            assert(self.entries@.take(0) =~= Seq::<GenreEntry>::empty());
        }
        while i < self.entries.len()
            invariant
                i <= self.entries@.len(),
                out@ == self.entries@.take(i as int),
            decreases self.entries@.len() - i,
        {
            out.push(self.entries[i].clone());
            proof {
                assert(self.entries@.take(i + 1) =~= self.entries@.take(i as int).push(
                    self.entries@[i as int],
                ));
            }
            i = i + 1;
        }
        proof {
            assert(self.entries@.take(self.entries@.len() as int) =~= self.entries@);
        }
        out
    }

    /// Only the top-level genre entries, order preserved.
    pub fn get_genres(&self) -> (r: Vec<GenreEntry>)
        ensures
            r@ == genres_of(self.entries@),
    {
        let mut out: Vec<GenreEntry> = Vec::new();
        let mut i: usize = 0;
        proof {
            assert(self.entries@.take(0) =~= Seq::<GenreEntry>::empty());
            reveal(Seq::filter);
        }
        while i < self.entries.len()
            invariant
                i <= self.entries@.len(),
                out@ == genres_of(self.entries@.take(i as int)),
            decreases self.entries@.len() - i,
        {
            let e = &self.entries[i];
            if matches!(e.genre_type, GenreType::Genre) {
                out.push(e.clone());
            }
            proof {
                assert(self.entries@.take(i + 1) =~= self.entries@.take(i as int).push(
                    self.entries@[i as int],
                ));
                lemma_filter_push(
                    self.entries@.take(i as int),
                    self.entries@[i as int],
                    |x: GenreEntry| is_genre(x),
                );
            }
            i = i + 1;
        }
        proof {
            assert(self.entries@.take(self.entries@.len() as int) =~= self.entries@);
        }
        out
    }

    /// The subgenre entries owned by the genre with the given identifier;
    /// empty when none match or the identifier is unknown.
    pub fn get_subgenres_of(&self, parent_id: &str) -> (r: Vec<GenreEntry>)
        ensures
            r@ == subgenres_in(self.entries@, parent_id@),
    {
        let mut out: Vec<GenreEntry> = Vec::new();
        let mut i: usize = 0;
        proof {
            assert(self.entries@.take(0) =~= Seq::<GenreEntry>::empty());
            reveal(Seq::filter);
        }
        while i < self.entries.len()
            invariant
                i <= self.entries@.len(),
                out@ == subgenres_in(self.entries@.take(i as int), parent_id@),
            decreases self.entries@.len() - i,
        {
            let e = &self.entries[i];
            let hit = match &e.parent_id {
                Some(p) => str_equal(p.as_str(), parent_id),
                None => false,
            };
            if hit {
                out.push(e.clone());
            }
            proof {
                assert(self.entries@.take(i + 1) =~= self.entries@.take(i as int).push(
                    self.entries@[i as int],
                ));
                lemma_filter_push(
                    self.entries@.take(i as int),
                    self.entries@[i as int],
                    |x: GenreEntry| has_parent(x, parent_id@),
                );
            }
            i = i + 1;
        }
        proof {
            assert(self.entries@.take(self.entries@.len() as int) =~= self.entries@);
        }
        out
    }

    /// The first entry whose identifier equals the given string exactly, or
    /// absence when no entry matches.
    pub fn get_genre_by_id(&self, id: &str) -> (r: Option<GenreEntry>)
        ensures
            r == find_entry(self.entries@, id@),
    {
        let mut i: usize = 0;
        proof {
            assert(self.entries@.skip(0) =~= self.entries@);
        }
        while i < self.entries.len()
            invariant
                i <= self.entries@.len(),
                find_entry(self.entries@, id@) == find_entry(self.entries@.skip(i as int), id@),
            decreases self.entries@.len() - i,
        {
            proof {
                assert(self.entries@.skip(i as int)[0] == self.entries@[i as int]);
                assert(self.entries@.skip(i as int).skip(1) =~= self.entries@.skip(i + 1));
            }
            let e = &self.entries[i];
            if str_equal(e.id.as_str(), id) {
                return Some(e.clone());
            }
            i = i + 1;
        }
        proof {
            assert(self.entries@.skip(self.entries@.len() as int) =~= Seq::<GenreEntry>::empty());
        }
        None
    }

    /// The display name behind an identifier, composed from the lookup by
    /// identifier.
    pub fn get_genre_name(&self, id: &str) -> (r: Option<String>)
        ensures
            r == match find_entry(self.entries@, id@) {
                Option::Some(e) => Option::Some(e.name),
                Option::None => Option::None::<String>,
            },
    {
        match self.get_genre_by_id(id) {
            Some(e) => Some(e.name),
            None => None,
        }
    }

    /// Whether some entry of the snapshot carries the given identifier.
    pub fn is_valid_genre_id(&self, id: &str) -> (r: bool)
        ensures
            r == (find_entry(self.entries@, id@) is Some),
    {
        match self.get_genre_by_id(id) {
            Some(_) => true,
            None => false,
        }
    }

    /// The canonical string form of an identifier-space member: the symbolic
    /// name of the entry at its ordinal position; absence when the ordinal
    /// lies outside the snapshot.
    pub fn genre_id_to_string(&self, genre_id: GenreId) -> (r: Option<String>)
        ensures
            match r {
                Option::Some(s) => genre_id.ordinal < self.entries@.len() && s@ == symbolic_name(
                    self.entries@[genre_id.ordinal as int].id@,
                ),
                Option::None => genre_id.ordinal >= self.entries@.len(),
            },
    {
        if genre_id.ordinal < self.entries.len() {
            Some(normalize_id(self.entries[genre_id.ordinal].id.as_str()))
        } else {
            None
        }
    }

    /// The hierarchical view: every genre, in order, carrying its own
    /// subgenre entries, reproducing the source parent/child structure.
    pub fn get_hierarchical_genres(&self) -> (r: Vec<HierarchicalGenre>)
        ensures
            r@.len() == genres_of(self.entries@).len(),
            forall|k: int| 0 <= k < r@.len() ==> hier_matches(
                #[trigger] r@[k],
                genres_of(self.entries@)[k],
                self.entries@,
            ),
    {
        let mut out: Vec<HierarchicalGenre> = Vec::new();
        let mut i: usize = 0;
        proof {
            assert(self.entries@.take(0) =~= Seq::<GenreEntry>::empty());
            reveal(Seq::filter);
        }
        while i < self.entries.len()
            invariant
                i <= self.entries@.len(),
                out@.len() == genres_of(self.entries@.take(i as int)).len(),
                forall|k: int| 0 <= k < out@.len() ==> hier_matches(
                    #[trigger] out@[k],
                    genres_of(self.entries@.take(i as int))[k],
                    self.entries@,
                ),
            decreases self.entries@.len() - i,
        {
            let e = &self.entries[i];
            if matches!(e.genre_type, GenreType::Genre) {
                let subgenres = self.get_subgenres_of(e.id.as_str());
                out.push(HierarchicalGenre {
                    id: e.id.clone(),
                    name: e.name.clone(),
                    genre_id: e.genre_id,
                    subgenres,
                });
            }
            proof {
                assert(self.entries@.take(i + 1) =~= self.entries@.take(i as int).push(
                    self.entries@[i as int],
                ));
                lemma_filter_push(
                    self.entries@.take(i as int),
                    self.entries@[i as int],
                    |x: GenreEntry| is_genre(x),
                );
            }
            i = i + 1;
        }
        proof {
            assert(self.entries@.take(self.entries@.len() as int) =~= self.entries@);
        }
        out
    }
}

} // verus!
