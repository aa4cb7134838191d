pub mod fixed;
pub mod dynamics;
pub mod config;
pub mod driver;
