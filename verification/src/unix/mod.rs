//! Transport over Unix domain sockets: the decisions that the runtime-specific
//! streams take while they move bytes and file descriptors.

pub mod stream;
