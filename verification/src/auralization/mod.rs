pub mod assets;
pub mod convolver;
pub mod engine;
pub mod voice;
pub mod partitioned;
