//! Request-scoped diagnostic library: a TTL-cached snapshot store, a
//! content negotiator that picks JSON or HTML from request signals, a
//! parser for free-text isolation reports, and a renderer that turns a
//! diagnostic snapshot into a JSON document or an HTML page.

pub mod format;
pub mod glyphs;
pub mod isolation;
pub mod json;
pub mod negotiate;
pub mod render;
pub mod store;
pub mod text;
