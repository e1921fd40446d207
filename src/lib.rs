//! Text extraction from PDF page content: `ToUnicode` CMap decoding, string
//! decoding under a font's encoding, and a content-stream interpreter that
//! tracks the current font across operators and pages.

pub mod account_notes;
pub mod cmap;
pub mod content;
pub mod utf16;
