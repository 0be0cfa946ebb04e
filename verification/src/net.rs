pub mod chan;
pub mod conn;
pub mod manager;
