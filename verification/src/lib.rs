//! Rules engine and turn sequencing for a two-player fencing duel played with
//! cards on a strip of twenty-three cells.
//!
//! The modules, leaf first:
//! - [`cards`]: counting ranks in a sequence of cards;
//! - [`protocol`]: the two sides, the directions and the messages exchanged;
//! - [`rules`]: the mathematical model of a duel and of each action;
//! - [`deck`]: the shuffled pack of twenty-five cards;
//! - [`game`]: the executable board, hands and match engine;
//! - [`invariants`]: what holds of every state of a match;
//! - [`text`] and [`json`]: reading text and JSON documents;
//! - [`errors`]: what can go wrong;
//! - [`turn`]: the sequence of a turn, a round and a match;
//! - [`client_manager`]: the lines in which messages travel.
pub mod cards;
pub mod client_manager;
pub mod deck;
pub mod errors;
pub mod game;
pub mod invariants;
pub mod json;
pub mod protocol;
pub mod rules;
pub mod text;
pub mod turn;
