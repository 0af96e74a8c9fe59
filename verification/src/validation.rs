//! The interface of a validator, and the pair of validators of a horizon sync.

use crate::blocks::BlockHeader;
use crate::error::ValidationError;
use std::sync::Arc;
use vstd::prelude::*;

verus! {

/// A validator that keeps no state between calls: it judges each item by
/// itself and by what its collaborators hold.
pub trait StatelessValidation<T> {
    /// Whether `item` is valid, and if not, why.
    fn validate(&self, item: &T) -> Result<(), ValidationError>;
}

/// The two validators of a horizon sync, each behind a shared handle, so
/// that a driver can hold and call both wherever it needs them.
pub struct HorizonSyncValidators<THeader, TFinal> {
    /// Validates each downloaded header.
    pub header: Arc<THeader>,
    /// Validates the downloaded state at the horizon height.
    pub final_state: Arc<TFinal>,
}

impl<THeader: StatelessValidation<BlockHeader>, TFinal: StatelessValidation<u64>> HorizonSyncValidators<
    THeader,
    TFinal,
> {
    /// The pair that holds the two given validators.
    pub fn new(header: THeader, final_state: TFinal) -> (v: Self)
        ensures
            *v.header == header,
            *v.final_state == final_state,
    {
        Self { header: Arc::new(header), final_state: Arc::new(final_state) }
    }
}

} // verus!
