//! Reads the C header that a modelling tool emits for a fixed-step model and
//! writes Rust declarations that wrap the model's compiled routines.
//!
//! - `text`: character-level helpers.
//! - `field`: the grammar of one field line of a struct body.
//! - `header`: the scan of a whole header into its three field lists.
//! - `emit`: the owned-state wrapper (records, zero defaults, `new`/`step`).
//! - `indexed`: the enum-indexed views and their controller over the
//!   model's global storage.
//! - `model`: the model's name and header file, and the controller alias.
//! - `laws`: what holds across the parser and the generator.

pub mod text;
pub mod field;
pub mod header;
pub mod emit;
pub mod indexed;
pub mod model;
pub mod laws;

pub use emit::{generate, GenError};
pub use field::{parse_field_line, IO};
pub use header::{parse_header, parse_header_with, Header, List, ParseError, ParseMode, Section};
pub use indexed::{generate_views, ViewError};
pub use model::{alias_decl, is_model_header, model_name};
