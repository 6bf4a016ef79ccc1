//! Wireless network scanning and connection workflow: parsing of the
//! platform's textual reports, the requests sent to the platform, and the
//! application state machine that decides which of them to make.
pub mod text;
pub mod parser;
pub mod state;
pub mod connect;
pub mod speed;
