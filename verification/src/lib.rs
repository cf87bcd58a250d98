//! Verified core of a Varlink connection library: connection halves, the
//! mock sockets used to exercise them, and the decision logic of the Unix
//! domain socket transports.

pub mod connection;
pub mod error;
pub mod sys;
pub mod test_utils;
pub mod unix;
pub mod unix_utils;

pub use error::{Error, Result};

