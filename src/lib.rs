pub mod base64;
pub mod decimal;
pub mod error;
pub mod message;
pub mod stream;
pub mod translate;
pub mod usage;
