//! Planning and bookkeeping for token-transfer experiments on a Linera network.
//!
//! The library holds the decisions of the evaluation client: which chain each
//! transfer goes to, how outcomes and timings are recorded and summed up, how
//! the chain accounts are brought back to a common balance, and in which order
//! the experiments run.  Talking to the network, sleeping and writing files is
//! left to the program around it.

pub mod amount;
pub mod chain;
pub mod balancing;
pub mod cycle;
pub mod destinations;
pub mod task;
pub mod timings;
pub mod schedule;
pub mod names;
