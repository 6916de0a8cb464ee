//! The rules by which Gezellij keeps terminal sessions: services and their addresses, freezing and
//! thawing panes, handing a session from one server to the next, and the commands for all of it.
//!
//! Nothing here reads or writes a file, a socket or a terminal. A function is given what was read
//! and says what is to be done; the program around the library does it.
pub mod auto_freeze;
pub mod cgroups;
pub mod client_activity;
pub mod command;
pub mod fd_table;
pub mod freeze_commands;
pub mod handover;
pub mod ipv6;
pub mod net;
pub mod outside;
pub mod path;
pub mod pty;
pub mod service_commands;
pub mod services;
pub mod sorting;
pub mod text;
pub mod time;
pub mod upgrade;
pub mod upgrade_commands;
