//! The MDZ container format: a markdown document bundled with its images and
//! stylesheet in one archive, with a parser, a structural validator and a
//! renderer.

pub mod archive;
pub mod document;
pub mod engines;
pub mod error;
pub mod laws;
pub mod parser;
pub mod renderer;
pub mod text;
pub mod validator;

pub use document::{DocumentMetadata, ImageEntry, MdzDocument, Timestamp};
pub use error::{ErrorKind, MdzError};
pub use parser::MdzParser;
pub use renderer::{MdzRenderer, RenderOptions};
pub use validator::{MdzValidator, ValidationResult};
