pub mod board;
pub mod snapshot;
