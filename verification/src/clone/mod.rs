//! Turning a product's plans into cloned repositories.
pub mod coordinator;
pub mod report;
