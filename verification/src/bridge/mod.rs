pub mod executor;
pub mod ffi;
pub mod world;
