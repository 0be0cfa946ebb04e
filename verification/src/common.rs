pub mod context;
pub mod lookup;
