//! The system prompts sent to the models, one set per locale.
use vstd::prelude::*;

verus! {

/// The system prompts of one locale.
#[derive(Clone)]
pub struct PromptStore {
    storage_decision: String,
    connections: String,
}

impl PromptStore {
    /// Holds the texts of the locale's `storage-decision.system.md` and
    /// `connections.system.md` prompt files.
    pub fn load(storage_decision: String, connections: String) -> (r: PromptStore)
        ensures
            r.spec_storage_decision() == storage_decision@,
            r.spec_connections() == connections@,
    {
        PromptStore { storage_decision, connections }
    }

    /// The storage-decision prompt.
    pub closed spec fn spec_storage_decision(&self) -> Seq<char> {
        self.storage_decision@
    }

    /// The connections prompt.
    pub closed spec fn spec_connections(&self) -> Seq<char> {
        self.connections@
    }

    /// The storage-decision prompt.
    pub fn storage_decision(&self) -> (r: &str)
        ensures
            r@ == self.spec_storage_decision(),
    {
        self.storage_decision.as_str()
    }

    /// The connections prompt.
    pub fn connections(&self) -> (r: &str)
        ensures
            r@ == self.spec_connections(),
    {
        self.connections.as_str()
    }
}

} // verus!
