//! A verified core for a local file-serving HTTP application.
//!
//! The library resolves raw request paths against a configured root
//! directory, classifies the outcome, sorts and renders directory
//! listings, chooses content types for files, and formats access-log
//! lines. All filesystem and network work stays outside: callers hand
//! in plain values (the raw path, the classification they observed,
//! the enumerated entries) and get plain values back.

pub mod config;
pub mod dispatch;
pub mod entries;
pub mod logfmt;
pub mod mimetype;
pub mod pathres;
pub mod ports;
pub mod render;

pub use config::LogMode;
pub use config::RenderMode;
pub use config::ServerConfig;
pub use dispatch::BodyKind;
pub use dispatch::HttpResponse;
pub use dispatch::ListingOutcome;
pub use dispatch::Observation;
pub use entries::DirEntry;
pub use pathres::ResolvedPath;
