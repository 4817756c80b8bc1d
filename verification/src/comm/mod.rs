pub mod channel;
pub mod event;
