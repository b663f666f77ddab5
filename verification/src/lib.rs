//! Vote plan certificates with their canonical byte encoding, the node
//! service contract that carries them between peers, and what surrounds
//! them: the records of the voting service, its exit codes, and the layout
//! and settings of the test networks.

pub mod block_date;
pub mod byte_builder;
pub mod data;
pub mod decimal;
pub mod digest;
pub mod exit_codes;
pub mod mempack;
pub mod node;
pub mod real_network;
pub mod settings;
pub mod transaction;
pub mod vote_plan;
