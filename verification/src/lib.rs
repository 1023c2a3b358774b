//! Dynamic plugin subsystem: a registry of loaded plugin handles sharing one
//! state blob, an event-dispatch loop over them in priority order, and the
//! naming, manifest and planning logic of the on-disk package lifecycle.

pub mod command;
pub mod compositer;
pub mod event;
pub mod identifier;
pub mod installer;
pub mod library;
pub mod line;
pub mod manifest;
pub mod persona;
pub mod state;
pub mod text;
pub mod tooltip;
