//! Renders an interface-definition document as raw foreign-function
//! declarations: C-layout type definitions and imported function prototypes.

pub mod atoms;
pub mod datatypes;
pub mod document;
pub mod functions;
pub mod model;
pub mod resolve;
pub mod text;

pub use document::generate;
