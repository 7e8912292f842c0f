//! Column-aligned listings of the dependencies that one section of a
//! project manifest declares.
//!
//! A [`Manifest`] maps section names to sections, and a section maps
//! dependency names to declarations. [`list_section`] renders one section:
//! one line for each dependency, with the names and the version texts in
//! two columns.

pub mod declaration;
pub mod error;
pub mod listing;
pub mod manifest;
pub mod ordered_map;
pub mod render;
pub mod text;

pub use declaration::{normalize, Declaration, Value};
pub use error::{FetchError, ListError};
pub use listing::list_section;
pub use manifest::{Manifest, Section};
pub use ordered_map::OrderedMap;
pub use render::{render_rows, Row};
