pub mod text;
pub mod split;
pub mod slug;
pub mod headings;
pub mod render;
pub mod pipeline;
pub mod laws;
pub mod document;

pub use document::{AppState, FileInfo};
pub use headings::{extract_headings, Heading};
pub use pipeline::{export_html, parse_markdown, ParseResult};
pub use slug::slugify;
pub use split::count_words;
