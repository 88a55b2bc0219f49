pub mod pool;
pub mod ranking;
pub mod state_machine;
