//! Decoder for a chunk-tagged binary track database: a file header, a fixed
//! run of region records each holding track records, and a footer. Every
//! chunk carries a one-byte tag, a declared length and padding; the decoder
//! walks the buffer with an explicit cursor and accounts for every byte.

pub mod facts;
pub mod grammar;
pub mod models;
pub mod parsers;
