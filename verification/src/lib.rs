//! A chat bot for IRC, as a library of decisions.
//!
//! The bot leaves memos for users who are away and reminds them when they
//! come back, keeps a ledger of the words it overhears, looks words up in a
//! dictionary, and hands every other line to an evaluator. This library
//! holds what the bot knows and decides: [`bot`] reads lines as commands
//! and answers events with lists of actions, [`memo`] and [`words`] are its
//! two stores, [`urbandict`] picks and trims dictionary entries, and
//! [`supervisor`] says when to connect, dispatch, write the state out and
//! stop. Whoever runs the bot performs the actions; nothing here touches
//! the network or the disk.
//!
//! Every function carries a contract over a model of its data, and the
//! laws that tie the functions together are proved beside them. What is
//! believed instead of proved stands in [`trusted`].

pub mod bot;
pub mod clock;
pub mod memo;
pub mod supervisor;
pub mod table;
pub mod text;
pub mod trusted;
pub mod urbandict;
pub mod words;

pub use bot::JBot;
pub use memo::{Mailbox, Memo, Memos};
pub use words::Words;
