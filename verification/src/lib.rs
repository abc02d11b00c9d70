//! A client library for a fundraising-campaign service: it builds the query
//! payload, decodes the "data or errors" response envelope into a typed
//! [`Campaign`] model, and prepares the progress lines that a front end
//! prints.  The transport itself (an HTTP POST) stays with the caller.
//!
//! Currency amounts travel on the wire as decimal strings (for example
//! `"333333.33"`); this library represents them exactly as whole cents.

pub mod currency;
pub mod decode;
pub mod errors;
pub mod json;
pub mod model;
pub mod present;
pub mod query;
pub mod text;

pub use currency::Usd;
pub use decode::decode_response;
pub use errors::DecodeError;
pub use model::{ApiError, Campaign, Location, Milestone};
pub use present::{render_lines, sort_milestones};
pub use query::build_graph_ql_query;
