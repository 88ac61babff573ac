pub mod anchor;
pub mod bootstrap;
pub mod laws;
pub mod load;
