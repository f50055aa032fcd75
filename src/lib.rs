pub mod api;
pub mod chunker;
pub mod hashing;
pub mod model;
pub mod reconcile;
pub mod service;
pub mod text;
