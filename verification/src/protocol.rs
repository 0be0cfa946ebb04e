pub mod proto;
pub mod raw;
pub mod text;
