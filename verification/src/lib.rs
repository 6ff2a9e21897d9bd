//! Typed decoding of the responses of a code-search service.
//!
//! The service answers a query with a JSON document whose sections carry their
//! categories in the member names (`"Definitions (BrowserChild)"`), and which
//! writes an empty string where it has nothing to say. This library turns such
//! a document into a [`Response`], and turns down a document that does not
//! follow the wire format: none of the empty strings reaches the response, and
//! no member of a section is passed over because its name is not understood.
//!
//! [`Response::parse`] reads a response from JSON text, and
//! [`Response::from_json`] from a document that was read already. What each
//! function returns is stated over what the values stand for: a `String` is
//! seen as its characters, a `Vec` as a sequence, and the maps of matches as
//! maps.

pub mod assoc;
pub mod category;
pub mod decode;
pub mod error;
pub mod file_matches;
pub mod fuzzy_matches;
pub mod json;
pub mod line;
pub mod matches;
pub mod normalize;
pub mod parse;
pub mod raw;
pub mod response;
pub mod text;

pub use crate::category::{classify, CategoryTag};
pub use crate::error::DecodeError;
pub use crate::file_matches::FileMatches;
pub use crate::fuzzy_matches::FuzzyMatches;
pub use crate::json::Json;
pub use crate::line::{LineMatch, MatchContext};
pub use crate::matches::Matches;
pub use crate::normalize::{normalize_context, normalize_optional_string};
pub use crate::raw::RawMatch;
pub use crate::response::Response;
