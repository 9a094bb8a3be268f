pub mod date;
pub mod domain;
pub mod handlers;
pub mod store;
pub mod laws;
