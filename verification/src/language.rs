pub mod completion;
pub mod definition;
pub mod model;
