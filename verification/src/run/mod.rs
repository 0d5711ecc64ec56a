pub mod action;
pub mod dhandlers;
pub mod globals;
pub mod handlers;
pub mod item;
pub mod prompt;
pub mod populate;
pub mod queue;
pub mod register;
pub mod reload;
pub mod rg;
pub mod selection;
pub mod stash;
pub mod state;
