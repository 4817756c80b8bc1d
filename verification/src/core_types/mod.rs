pub mod action;
pub mod id;
pub mod math;
pub mod rng;
pub mod time;
