//! Validation of a pruned node's horizon state: the checks made on each
//! downloaded header, and the balance check made once on the downloaded
//! output and kernel sets.

pub mod blocks;
pub mod consensus;
pub mod crypto;
pub mod error;
pub mod final_state_validator;
pub mod header_checks;
pub mod header_iter;
pub mod header_validator;
pub mod proof_of_work;
pub mod storage;
pub mod validation;
