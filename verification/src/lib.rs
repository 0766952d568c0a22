pub mod adapters;
pub mod decimal;
pub mod export;
pub mod laws;
pub mod reconcile;
pub mod tables;
pub mod types;
pub mod vocab;
