//! A crawler's core: the crawl state shared by its workers, each worker's
//! decisions, link extraction, and the extraction, decoding and validation of
//! the email addresses found in page text.

pub mod rot13;
pub mod text;
pub mod email;
pub mod state;
pub mod links;
pub mod crawl;
