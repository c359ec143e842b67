//! Rules engine for the two-player card game Pisti: deck, dealing, play
//! resolution, captures, scoring and the opponent's choice of card.
pub mod card;
pub mod rules;
pub mod random;
pub mod game;
pub mod laws;
pub mod controller;
pub mod network;
