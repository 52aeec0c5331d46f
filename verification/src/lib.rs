//! Reads Office Open XML packages and other document formats into one format-independent
//! document model.

use vstd::prelude::*;

pub mod archive;
pub mod document;
pub mod docx;
pub mod email;
pub mod error;
pub mod excel_styles;
pub mod format;
pub mod html;
pub mod image;
pub mod legacy;
pub mod license;
pub mod metadata;
pub mod parser;
pub mod pdf;
pub mod plain;
pub mod pptx;
pub mod registry;
pub mod relationships;
pub mod render;
pub mod render_html;
pub mod sandbox;
pub mod server;
pub mod shapes;
pub mod slides;
pub mod strmap;
pub mod styles;
pub mod tables;
pub mod text;
pub mod theme;
pub mod utils;
pub mod xlsx;
pub mod xml;

verus! {

/// Version of this library.
pub const VERSION: &'static str = "0.1.0";

/// Prepares the library for use. There is nothing to prepare: the library keeps no state.
pub fn init() {
}

} // verus!
