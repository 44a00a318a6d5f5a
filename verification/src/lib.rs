//! Verified core of a tool that copies the top-rated entries of a user's
//! Bangumi and NeoDB collections into a public list on each site.
//!
//! The library holds the decisions and the data: how requests are addressed
//! and what they carry, how the paged downloads advance and end, which saved
//! ratings are kept, how the list is filled and when that counts as done, and
//! how the settings are read. The HTTP traffic and the files live in the
//! program around it.

pub mod api_bangumi;
pub mod api_neodb;
pub mod app_config;
pub mod filling;
pub mod http;
pub mod json;
pub mod paging;
pub mod text;
