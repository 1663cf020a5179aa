//! Control core of an interactive terminal text editor.
//!
//! The crate holds the decisions of the editor's control loop: which raw
//! input events are processed, which command each one stands for, what is
//! forwarded to the document view, when the loop ends, and what the terminal
//! lifecycle guard asks of the terminal device. Every effect on the outside
//! world is returned as a value for the caller to carry out.

pub mod command;
pub mod editor;
pub mod event;
pub mod guarantees;
pub mod keymap;
pub mod lifecycle;

