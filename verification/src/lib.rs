//! A debugger for 32-bit Windows programs that speaks the Debug Adapter Protocol: its logic, without
//! the system calls.
pub mod arguments;
pub mod breakpoints;
pub mod connection;
pub mod context;
pub mod dap;
pub mod debug_controller;
pub mod debug_engine;
pub mod debugger;
pub mod encoding;
pub mod event_laws;
pub mod json;
pub mod launcher;
pub mod line_server;
pub mod runs;
pub mod server;
pub mod server_laws;
pub mod session;
pub mod session_laws;
pub mod symbols;
pub mod system;
pub mod task;
pub mod text;
pub mod to_json;
pub mod tooling;
pub mod utility;
