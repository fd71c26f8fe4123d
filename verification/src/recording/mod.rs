//! Recording: request options, media naming and frame timestamp handling.
pub mod media;
pub mod options;
pub mod replay;
pub mod capture;
pub mod sidecar;
pub mod sessions;
pub mod samplers;
pub mod answers;
