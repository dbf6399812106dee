//! Image normalisation, byte-budget encoding and admission control for an
//! image conversion service.
//!
//! - `geometry`: aspect cropping and resizing that never enlarges.
//! - `encode`: encoding under a byte budget over a quality ladder and a
//!   shrinking scale.
//! - `rate_limit`: per-identity token buckets with an optional lockout.
//! - `quota`: rolling daily and monthly usage quotas per identity.
//! - `pipeline`: one conversion unit, from query parameters to encoded bytes.
//! - `presets`, `query`, `formats`, `identity`, `config`, `delivery`,
//!   `cache`: request parameters, file sniffing, identities, credentials,
//!   storage names and cache keys.
//! - `registry`, `text`: a keyed table and text helpers used by the above.

pub mod cache;
pub mod config;
pub mod delivery;
pub mod encode;
pub mod formats;
pub mod geometry;
pub mod identity;
pub mod pipeline;
pub mod presets;
pub mod query;
pub mod quota;
pub mod rate_limit;
pub mod registry;
pub mod text;
