//! The coordination core of a text overlay: a borderless, always-on-top window
//! that is driven by global hotkeys and a tray menu instead of the window
//! manager.
//!
//! Hotkey and tray producers put [`event::DomainEvent`]s on an
//! [`channel::EventQueue`]. The single consumer, [`coordinator::Coordinator`],
//! owns the [`state::WindowState`], applies every input in arrival order and
//! answers with the [`surface::Command`]s that the window has to carry out.

pub mod channel;
pub mod config;
pub mod coordinator;
pub mod decimal;
pub mod event;
pub mod guarantees;
pub mod hotkey;
pub mod state;
pub mod surface;
pub mod text_source;
pub mod tray;
