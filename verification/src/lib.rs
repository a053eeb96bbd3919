//! Native backend for a FictionBook (.fb2) reader: a single-entry zip codec,
//! a suffix-based format router, and a take-once startup path cell.
//!
//! Paths and document content are handled as byte strings; the shell around
//! this library converts to and from the platform's path and text types.

pub mod bytes;
pub mod codec;
pub mod compress;
pub mod errors;
pub mod router;
pub mod startup;
