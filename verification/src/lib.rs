//! The verified core of a web front end for serial ports.
pub mod api;
pub mod assets;
pub mod db;
pub mod hex;
pub mod models;
pub mod serial;
pub mod stream;
pub mod text;
