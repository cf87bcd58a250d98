//! Socket implementations for exercising connections without a real transport.

pub mod mock_socket;
