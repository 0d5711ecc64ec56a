pub mod execute;
pub mod selector;
pub mod state;
pub mod status;
