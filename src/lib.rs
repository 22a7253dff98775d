//! A line-and-cell console model: a screen buffer whose every mutation is
//! described by an operation, a classifier that bounds what each operation
//! invalidates, a per-row render cache driven by those operations, and a modal
//! input dispatcher that turns raw input events into actions.
pub mod text;
pub mod command;
pub mod config;
pub mod fixed_config;
pub mod input;
pub mod lua_bridge;
pub mod renderer;
pub mod shell;
pub mod types;
pub mod utils;
