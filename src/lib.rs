//! An interactive terminal selection menu: the selection rules, the key
//! transitions and the rendered lines, verified.

pub mod menu;
mod escape;
pub mod laws;
