//! The rules of a chat bot that runs a small economy of generators and
//! political capital: who may give what to whom, what a motion and a vote cost,
//! when a motion passes, and what the bot answers.
//!
//! Every function takes and returns plain values, so the database and the chat
//! service stay with the caller.

pub mod ballot;
pub mod clock;
pub mod damm;
pub mod embed;
pub mod emoji;
pub mod give;
pub mod ids;
pub mod item;
pub mod ledger;
pub mod motion;
pub mod number;
pub mod tally;
pub mod text;
pub mod user;
pub mod vote;
