pub mod toast;
pub mod temp;
pub mod tasks;
pub mod stack;
pub mod sort;
