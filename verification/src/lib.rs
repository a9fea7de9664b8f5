//! Listener-side core of a virtual machine display client.
//!
//! The crate decodes and validates the notifications that a remote display
//! producer pushes over a private peer connection, normalises raw pixel data
//! into tightly packed RGBA, and keeps track of the ownership of foreign
//! buffer descriptors and of the current listener connection.

pub mod dmabuf;
pub mod error;
pub mod format;
pub mod frames;
pub mod listener;
pub mod mapping;
pub mod raster;
pub mod session;
