//! Archive and search of group chat messages: segmentation of texts for a full-text
//! index, the entry that archiving a text writes, the per-user archiving switch, the
//! decisions taken on a posted text, and the display of search results.
pub mod text;
pub mod tokenizer;
pub mod record;
pub mod consent;
pub mod user;
pub mod command;
