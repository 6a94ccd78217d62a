//! Turns the free-form text of a generative model into a checked user-interface
//! command: the text is normalized, a JSON object is extracted and validated,
//! every style string is reduced to a safe subset of CSS, and the resulting
//! per-element styles are merged into the styles a chat session has accumulated.

pub mod command;
pub mod css_laws;
pub mod css_sanitizer;
pub mod extractor;
pub mod json;
pub mod merge;
pub mod normalizer;
pub mod pipeline;
pub mod prompt;
pub mod text;
pub mod validator;
