//! Source generation for an icon component library: turns a tree of SVG icon
//! files into component source text, and scans generated source text to
//! produce example snippets.

pub mod casing;
pub mod component;
pub mod constants;
pub mod error;
pub mod example;
pub mod extract;
pub mod library;
pub mod manifest;
pub mod names;
pub mod pattern;
pub mod svg;
pub mod text;
