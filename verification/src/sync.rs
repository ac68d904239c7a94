pub mod client;
pub mod protocol;
