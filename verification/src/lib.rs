//! A verified core for a small blog: the post model, slug derivation, and the
//! query rules that the HTTP layer delegates to.

pub mod error;
pub mod laws;
pub mod models;
pub mod order;
pub mod pattern;
pub mod query;
pub mod respond;
pub mod slug;
pub mod table;
pub mod text;

pub use error::RepoError;
pub use models::{NewPost, NewPostHandler, Post, SimplifiedPost};
pub use order::{Direction, OrderBy, SortField};
pub use query::{PostQuery, SlugFilter};
pub use respond::Outcome;
pub use table::{PostChanges, PostTable};
