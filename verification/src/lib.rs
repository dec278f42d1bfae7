//! Verified core of Analog Library: Crossref metadata, BibTeX rendering,
//! JATS abstract translation, cache bookkeeping and request routing.
pub mod bib;
pub mod cli;
pub mod context;
pub mod crossref;
pub mod jats;
pub mod keymap;
pub mod serve;
pub mod ss;
pub mod text;
pub mod view;
pub mod webcache;
