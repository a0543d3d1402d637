//! The response filters: status-code exclusion, content-length matching
//! and body-substring matching, OR'd into one keep/discard predicate.

pub mod body;
pub mod content_length;
pub mod response_filter;

pub use body::FilterBody;
pub use content_length::FilterContentLength;
pub use response_filter::ProbeResponseFilters;
