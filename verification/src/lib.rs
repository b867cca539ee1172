pub mod clock;
pub mod color;
pub mod commands;
pub mod database;
pub mod model;
