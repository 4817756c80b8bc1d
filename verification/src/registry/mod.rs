pub mod bitset;
pub mod needs;
pub mod soa;
pub mod trace;
