//! What a session does with the outcome of a read or a write.

pub mod readable;
pub mod writable;

pub use readable::handle_readable;
pub use writable::handle_writable;
