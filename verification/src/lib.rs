//! A terminal emulator core: the screen model, the interpreter of escape
//! sequences, the encoder of keyboard input, and the bookkeeping of sessions.
//!
//! Everything here computes on plain values. Opening windows, drawing glyphs,
//! running child processes and reading files is left to the caller.

pub mod app;
pub mod cell;
pub mod codec;
pub mod config;
pub mod connection;
pub mod control;
pub mod decode;
pub mod event;
pub mod frame_laws;
pub mod grid;
pub mod input;
pub mod key_laws;
pub mod laws;
pub mod manager;
pub mod modes;
pub mod parser;
pub mod program_laws;
pub mod render;
pub mod rows;
pub mod screen;
pub mod screen_laws;
pub mod selection;
pub mod sequence_laws;
pub mod session;
pub mod session_laws;
pub mod settings_laws;
pub mod text;
pub mod text_laws;
pub mod theme;
pub mod width;
pub mod window;
