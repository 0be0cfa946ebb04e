pub mod manager;
pub mod vhost;
