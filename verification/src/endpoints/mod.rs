pub mod dns;
pub mod zones;
