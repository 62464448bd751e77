//! Structured error governance: reasons, operation context, the runtime error
//! carrier, and the report / snapshot / protocol projections built from it.
pub mod text;
pub mod metadata;
pub mod reason;
pub mod universal;
pub mod context;
pub mod source;
pub mod error;
pub mod conversion;
pub mod report;
pub mod protocol;
pub mod snapshot;
pub mod derive_plan;
pub mod attr_syntax;
