//! Inspecting and driving a running GPUI app over MCP: the logic of the
//! server, apart from its sockets, files and pipes.
//!
//! - [`protocol`] and [`ipc`]: what is said between the server and the app, and
//!   [`dispatch`]: how the app answers.
//! - [`sockets`]: which app to talk to.
//! - [`mcp`], [`tools`], [`guide`] and [`docs`]: what is said between the
//!   server and an agent.
//! - [`screenshots`]: tool calls, and the images their answers carry.
//! - [`script`], [`recorder`] and [`replay`]: writing a session down, and doing
//!   it again.
//! - [`golden`]: whether the window still looks the way it looked.
//! - [`cli`]: the command line.
//! - [`json`], [`path`] and [`text`]: the values all of this is about.
pub mod cli;
pub mod dispatch;
pub mod docs;
pub mod golden;
pub mod guide;
pub mod ipc;
pub mod json;
pub mod mcp;
pub mod path;
pub mod protocol;
pub mod recorder;
pub mod replay;
pub mod screenshots;
pub mod script;
pub mod sockets;
pub mod text;
pub mod tools;
