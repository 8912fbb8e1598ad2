//! An editor for a list of remote-host connection profiles kept in a
//! line-oriented configuration file.
//!
//! - [`profile`]: one host's profile and its editable fields.
//! - [`codec`]: the configuration format, read and written; [`roundtrip`]
//!   proves that writing and reading give the same profiles back.
//! - [`store`]: the profiles of a session and the selection among them.
//! - [`session`]: the editor's state machine, from key presses to changes of
//!   the store and to actions for the caller.
//! - [`permissions`]: the sequence that tightens the permissions of a
//!   credential file, and its report.
//! - [`view`]: the projection of a session to what a renderer draws.
//! - [`layout`]: the place of the status popup on the screen.
//! - [`text`]: characters, white space and lines.
//!
//! The library does no input or output. The program around it reads the keys
//! and the file, runs the commands, and draws.

pub mod text;
pub mod profile;
pub mod codec;
pub mod roundtrip;
pub mod store;
pub mod session;
pub mod view;
pub mod permissions;
pub mod layout;
