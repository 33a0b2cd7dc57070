//! The UCI protocol: parsing the commands a GUI sends and the session position.
pub mod parser;
pub mod session;
