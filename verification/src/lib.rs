//! A two-level music-genre taxonomy compiled into a flat, ordinally stable
//! identifier space, together with a runtime index for hierarchy and
//! membership queries over human-readable string identifiers.

pub mod api;
pub mod compile;
pub mod emit;
pub mod entry;
pub mod genres;
pub mod ident;
pub mod laws;
pub mod normalize;
pub mod taxonomy;

pub use api::GenreApi;
pub use api::HierarchicalGenre;
pub use entry::GenreEntry;
pub use entry::GenreType;
pub use ident::GenreId;
pub use taxonomy::Category;
pub use taxonomy::Subcategory;
