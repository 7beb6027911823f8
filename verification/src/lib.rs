pub mod clock;
pub mod commands;
pub mod errors;
pub mod hashing;
pub mod imaging;
pub mod ledger;
pub mod models;
pub mod monitor;
pub mod notify;
pub mod resolver;
pub mod store;
