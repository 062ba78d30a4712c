//! What each HTTP endpoint decides, given the outcome of the I/O it needs.
pub mod capture;
pub mod macros;
pub mod ports;
