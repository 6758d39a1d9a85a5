//! Structural validation of a fixed-depth prefix index whose components are
//! hash-linked link records.
//!
//! The library is split into the tag codec, the link record model, the
//! positional rules with their rule table, the backward chain walk, and the
//! forward validator that applies a rule table to an ancestry.

pub mod codec;
pub mod address;
pub mod record;
pub mod text;
pub mod rules;
pub mod table;
pub mod validate;
pub mod walk;
pub mod laws;
