pub mod candidates;
pub mod commit;
pub mod comms;
pub mod ingestion;
pub mod needs;
pub mod propagation;
pub mod utility;
