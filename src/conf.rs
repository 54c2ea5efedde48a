use vstd::prelude::*;

verus! {

/// Limits of the session table.
#[derive(Clone, Debug)]
pub struct SwitchboardConfig {
    pub max_sessions_per_agent: usize,
    pub max_agents: Option<usize>,
}

} // verus!
