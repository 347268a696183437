//! The logic of a TeamSpeak 3 voice bot that relays radio traffic between the players of a
//! flight simulator: who is where, who hears whom, and what the mixer does on each tick.
//!
//! Sockets, threads, clocks, codecs and floating-point signal processing stay outside; they hand
//! this library plain values and take plain values back.
pub mod audio;
pub mod config;
pub mod db;
pub mod fx_map;
mod lists;
pub mod number;
pub mod position;
pub mod rabbitmq;
pub mod roster_laws;
pub mod seq_logger;
pub mod test_load;
pub mod text;
pub mod ts3_client;
pub mod ts3_client_list;
