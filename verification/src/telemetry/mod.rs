pub mod engine;
pub mod pc2;
