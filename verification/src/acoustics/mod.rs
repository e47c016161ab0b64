pub mod cache;
pub mod pipeline;
