//! A broker for real-time two-player games: the board rules, the table of
//! running games, the registry of connected clients with its lobby, and the
//! decisions of a connection's handler.

pub mod board;
pub mod ident;
pub mod game;
pub mod session;
pub mod lobby;
pub mod client;
pub mod registry;
pub mod broker;
pub mod connection;
pub mod wire;
pub mod seqs;
pub mod conduit;
