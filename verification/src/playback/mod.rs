pub mod queue;
pub mod state;
pub mod device;
pub mod player;
