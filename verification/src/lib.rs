//! A store of tokenizer dictionaries on disk, and the bookkeeping of nested scans.

pub mod atomic;
pub mod dictionary;
pub mod ensure;
pub mod envelope;
pub mod failure;
pub mod laws;
pub mod layout;
pub mod load;
pub mod materialize;
pub mod scan;
pub mod subprocess;
pub mod text;
