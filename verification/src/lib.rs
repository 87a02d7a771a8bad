//! Named watch lists: titled, ordered collections of text items, with the
//! operations to create, fill, query, search and delete them.

pub mod cli;
pub mod codec;
pub mod console;
pub mod error;
pub mod laws;
pub mod text;
pub mod watchlist;

pub use error::WatchListError;
pub use watchlist::{Lists, WatchList, WatchListEntry, WatchListFuncs};
