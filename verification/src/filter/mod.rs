//! Cheap filters run before any heavy I/O. They only rule files out: none of
//! them is ever a reason to treat two files as equal.

pub mod magic;
pub mod temp_names;
pub mod prefilter;

pub use magic::kiem_file;
pub use prefilter::{Prefilter, PrefilterError, Reject};
