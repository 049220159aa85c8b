//! Streaming annotator for traceroute-style hop listings.
//!
//! Each input line is normalized to upper case, classified as a
//! "no response" marker, a "reserved identifier" marker, or a candidate
//! carrying a bracketed autonomous-system token; consecutive duplicate
//! tokens are suppressed, and the rest are resolved to a display name
//! through an external directory lookup.

pub mod classify;
pub mod driver;
pub mod extract;
pub mod resolve;
pub mod text;

pub use classify::check_no_response;
pub use classify::check_reserved;
pub use classify::classify;
pub use classify::Classification;
pub use driver::render;
pub use driver::Annotator;
pub use driver::LineOutput;
pub use extract::get_asn_str;
pub use resolve::clean_token;
pub use resolve::display_name_of;
pub use resolve::parse_asn;
pub use resolve::parse_u32;
pub use resolve::ResolutionError;
pub use text::normalize;
