//! Game logic and board protocols of a rock-paper-scissors robot hand.

pub mod text;
pub mod rules;
pub mod bounded;
pub mod game;
pub mod servo;
pub mod protocol;
