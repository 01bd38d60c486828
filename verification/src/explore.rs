pub mod genetic;
pub mod model;
pub mod partition;
pub mod sweep;
