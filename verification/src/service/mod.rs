//! Taking over Apple's "Apple Mobile Device Service": the service's ImagePath is pointed at this
//! daemon, so that the Service Control Manager launches it, and is put back on request.
//!
//! Nothing here talks to Windows. Each procedure is a state machine: a state names the Win32
//! call to make next, and the reply to that call gives the next state.

pub mod binpath;
pub mod bounce;
pub mod calls;
pub mod history;
pub mod host;
pub mod install;
pub mod laws;
pub mod machine;
pub mod manager;
pub mod registry;
pub mod uninstall;
