pub mod snapshot;
pub mod board;
pub mod transfer;
