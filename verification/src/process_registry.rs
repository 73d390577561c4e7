use vstd::prelude::*;

use crate::errors::DiscoveryError;

verus! {

/// The mathematical value of a stored discovery outcome: the snapshot as a
/// sequence of process handles, or the recorded failure.
pub open spec fn outcome_model(o: Result<Vec<u32>, DiscoveryError>) -> Result<
    Seq<u32>,
    DiscoveryError,
> {
    match o {
        Ok(v) => Ok(v@),
        Err(e) => Err(e),
    }
}

/// A cached snapshot of the audio-capable process handles, or the failure
/// recorded by the last discovery attempt. The stored result is replaced
/// atomically as a whole: a reader observes either the previous result or
/// the new one, never a partial update, and a failed refresh overwrites a
/// previously stored success.
#[derive(Debug)]
pub struct ProcessRegistry {
    last: Result<Vec<u32>, DiscoveryError>,
}

impl ProcessRegistry {
    /// What the registry currently stores.
    pub closed spec fn model(self) -> Result<Seq<u32>, DiscoveryError> {
        outcome_model(self.last)
    }

    /// Starts the registry from the outcome of the host's initial
    /// discovery query.
    pub fn new(initial: Result<Vec<u32>, DiscoveryError>) -> (r: Self)
        ensures
            r.model() == outcome_model(initial),
    {
        ProcessRegistry { last: initial }
    }

    /// Replaces the stored result with the outcome of a discovery query,
    /// success or failure recorded as a unit. The postcondition does not
    /// mention the registry's prior state: the new outcome alone determines
    /// what subsequent reads observe.
    pub fn record_refresh(&mut self, outcome: Result<Vec<u32>, DiscoveryError>)
        ensures
            final (self).model() == outcome_model(outcome),
    {
        self.last = outcome;
    }

    /// Returns the last stored result without triggering a new query.
    pub fn current(&self) -> (r: &Result<Vec<u32>, DiscoveryError>)
        ensures
            outcome_model(*r) == self.model(),
    {
        &self.last
    }
}

/// After a refresh records `outcome`, a read observes exactly `outcome`:
/// a successful refresh is read back as that very snapshot, and a failed
/// refresh is read back as the failure, never as a stale success. This
/// connects `record_refresh` (which establishes the premise) with
/// `current` (which returns the model).
pub proof fn lemma_current_reflects_last_refresh(
    reg: ProcessRegistry,
    outcome: Result<Seq<u32>, DiscoveryError>,
)
    requires
        reg.model() == outcome,
    ensures
        outcome is Ok ==> reg.model() == Ok::<Seq<u32>, DiscoveryError>(outcome->Ok_0),
        outcome is Err ==> reg.model() == Err::<Seq<u32>, DiscoveryError>(outcome->Err_0),
{
}

} // verus!
