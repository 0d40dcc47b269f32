pub mod dns;
pub mod laws;
