pub mod store;
pub mod laws;
