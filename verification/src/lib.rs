pub mod codec;
pub mod content;
pub mod errors;
pub mod json;
pub mod message;
pub mod profile;
pub mod providers;
pub mod registry;
pub mod reply;
pub mod session;
pub mod tool;
