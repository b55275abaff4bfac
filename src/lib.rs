//! Synthesis of probabilistic padding and blocking state machines that
//! approximate website-fingerprinting defenses.

pub mod front;
pub mod laws;
pub mod model;
pub mod regulator;
pub mod states;
pub mod surakav;
