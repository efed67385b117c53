//! Matchmaking-statistics toolkit for Team Fortress 2: the wire codec for the
//! Game Coordinator messages and the decisions of the exchange, the map
//! catalogue reader, the snapshot builder and its CSV tables, the Steam
//! library list and the command-line checks, each with its contract proved
//! by Verus.

pub mod protobuf;
pub mod text;
pub mod catalog;
pub mod export;
pub mod snapshot_laws;
pub mod mode_laws;
pub mod tables;
pub mod steam_gc;
pub mod discovery;
pub mod cli;
