//! A trace ingestion core: signed agent telemetry records are parsed,
//! validated against a versioned schema catalog, their Ed25519 signatures
//! verified over canonical encodings, scrubbed of personal data at the
//! strictest tier, scanned for injection patterns, their fields extracted
//! under catalog rules, and routed to one of four destinations.

pub mod canonical;
pub mod context;
pub mod json;
pub mod json_path;
pub mod logging;
pub mod metadata;
pub mod parse;
pub mod pattern;
pub mod pii;
pub mod pipeline;
pub mod routing;
pub mod sanitizer;
pub mod schema;
pub mod signature;
pub mod storage;
pub mod strmap;
pub mod text;
