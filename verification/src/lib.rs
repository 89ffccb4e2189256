//! Verified core of the zen workspace utilities: public-API snapshots of
//! whole workspaces and fuzz-regression corpus replays.
//!
//! - [`text`], [`order`]: character-sequence primitives and the byte order
//!   of texts, with their specifications.
//! - [`syntax`], [`classify`], [`transform`], [`render`]: the encoding of a
//!   crate's public-API lines (prefix stripping, trait rosters, auto-trait
//!   exceptions, re-export annotations, the summary taxonomy) and its text.
//! - [`workspace`], [`apidoc`]: what a run reads from `cargo metadata`, its
//!   configuration, and the decisions around its builds and files.
//! - [`snapshot`], [`files`]: one crate's builds as a state machine and the
//!   three files rendered from them.
//! - [`fuzz`]: seed expectations, corpus entries and replay reports.
use vstd::prelude::*;

pub mod text;
pub mod order;
pub mod syntax;
pub mod classify;
pub mod transform;
pub mod render;
pub mod workspace;
pub mod apidoc;
pub mod snapshot;
pub mod files;
pub mod fuzz;

verus! {

} // verus!
