//! The decisions of a PDF renderer, verified: loading a document's fonts and images,
//! choosing fonts, paints and line styles, paginating content, and cutting laid-out glyph
//! runs into batches of one style.

pub mod codec;
pub mod fonts;
pub mod glyphs;
pub mod images;
pub mod model;
pub mod paginate;
pub mod paint;
