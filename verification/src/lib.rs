pub mod domain;
pub mod laws;
pub mod services;
