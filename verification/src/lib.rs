//! Query construction and feed parsing for the arXiv search API.
//!
//! The crate builds the percent-encoded boolean search expression and the
//! request URL that the API expects, and turns the Atom feed it answers with
//! into one [`Paper`] per entry.

pub mod category;
pub mod encoding;
pub mod error;
pub mod feed;
pub mod paper;
pub mod query;
pub mod request;
pub mod sort;
pub mod text;
pub mod time;
pub mod xml;

pub use category::Category;
pub use error::{ContractError, MalformedFeedError};
pub use paper::Paper;
pub use query::{Combinator, QueryParams};
pub use request::ArXiv;
pub use sort::{SortBy, SortOrder};
