pub mod cache;
pub mod language;
pub mod session;
pub mod store;
