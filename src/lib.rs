//! Conversion of text to and from Windows code pages.
//!
//! A code page number is resolved once into a [`Coding`], which then encodes
//! text into bytes and decodes bytes into text, strictly or lossily.
//!
//! `coding` holds the coding and the model its contracts are stated over,
//! `tables` the two families of outside code page tables, `unicode` the
//! UTF-8 and UTF-16 models, and `laws` the properties proved of them.
pub mod coding;
pub mod error;
pub mod laws;
pub mod tables;
pub mod unicode;

pub use coding::{Backend, Coding, Endian};
pub use error::ConvertError;
