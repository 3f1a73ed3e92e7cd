//! Turns a list of followed accounts into an OPML subscription document.
//!
//! The work is done in stages, each with its own contract:
//! records are checked and mapped to outlines, the outlines are laid out as
//! a sequence of XML tokens, and the tokens are handed to an XML writer.

pub mod builder;
pub mod emit;
pub mod format;
pub mod json;
pub mod outline;
pub mod record;
pub mod token;
pub mod tokenize;

pub use builder::{build, generate_opml, serialize};
pub use emit::{render_tokens, Formatting, RenderError};
pub use format::{feed_url, OutlineFormat};
pub use json::records_from_json;
pub use outline::{build_document, Outline, OutlineDocument};
pub use record::{first_malformed, BuildError, UserRecord};
pub use token::{Attribute, XmlToken};
pub use tokenize::{tokenize_document, OutlineStyle};
