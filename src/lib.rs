//! Composes request URLs from a base, a path template with `:name`
//! placeholders, substitution values and query-string parameters, with every
//! user-supplied piece percent-encoded on the way in.

pub mod encoding;
pub mod path;
pub mod query;
pub mod url;

pub use encoding::encode_component;
pub use path::{SubstitutePairs, format_path, replace_all, strip_double_slash};
pub use query::{EncodingMode, QueryPairs, format_query};
pub use url::{FormatUrlV2, format_url};
