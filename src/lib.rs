//! An Uno-style card game model: cards and their matching rule, a deck
//! dealt from the front, the game state, players, and the length-framed
//! message envelope that peers exchange.

pub mod card;
pub mod game;
pub mod packet;
pub mod frame;
pub mod codec;
