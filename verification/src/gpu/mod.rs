pub mod rt;
pub mod shader;
pub mod compute;
pub mod backend;
pub mod memory;
pub mod registry;
pub mod trace;
