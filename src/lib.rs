pub mod cache;
pub mod extensions;
pub mod fs;
pub mod host;
pub mod loader;
pub mod permissions;
pub mod resolve;
pub mod text;
