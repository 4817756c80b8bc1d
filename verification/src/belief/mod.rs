pub mod record;
pub mod store;
