//! An arithmetic example plugin: a small command set (`add`, `sub`, `mul`,
//! `div`, `help`) dispatched over string tokens, with verified parsing,
//! formatting and arithmetic.

pub mod laws;
pub mod numtext;
pub mod plugin;

pub use plugin::ExamplePlugin;
