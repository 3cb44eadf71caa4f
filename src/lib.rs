//! Core of a component-based terminal UI toolkit: a normalized key model, a
//! focus-gated key-binding engine, component identity and one-shot definitions, and
//! the erased message and property types through which components are driven.

pub mod bindings;
pub mod component;
pub mod counter;
pub mod dynamic;
pub mod input;
pub mod key;
pub mod laws;
pub mod style;
