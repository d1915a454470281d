//! The value objects of the domain.

pub mod generation_unit;
pub mod html_tags;
pub mod text_format;
pub mod text_length;
pub mod text_length_category;

pub use generation_unit::GenerationUnit;
pub use html_tags::{HtmlTag, HtmlTags};
pub use text_format::TextFormat;
pub use text_length::TextLength;
pub use text_length_category::{HtmlComplexity, TextLengthCategory};
