pub mod ai;
pub mod focus;
pub mod pet;
pub mod stats;
pub mod tasks;
