//! Discovery of the native OpenCL runtime library: which paths are tried, in
//! which order, and which attempt decides the outcome that is kept for the
//! rest of the process.
//!
//! The library decides; it loads nothing itself. A [`RuntimeLoader`] names the
//! path to attempt next, the caller tries to load the library there and
//! reports how it went, and the loader caches the first success, or else the
//! failure on the platform's default path.

pub mod laws;
pub mod loader;
pub mod platform;
pub mod search;

pub use crate::loader::{is_opencl_runtime_available, load_library, RuntimeLoader, Step};
pub use crate::platform::Platform;
