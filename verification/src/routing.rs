pub mod exchange;
pub mod key;
