pub mod model;
pub mod registry;
pub mod scheduler;
pub mod laws;
