pub mod manager;
pub mod qbase;
pub mod queue_object;
