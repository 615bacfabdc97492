//! What holds of whole runs.

pub mod ensure;
pub mod load;
pub mod materialize;
pub mod scan;
pub mod subprocess;
pub mod write;
