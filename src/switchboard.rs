//! In-memory table of sessions, keyed by session id.
use vstd::prelude::*;

use crate::conf::SwitchboardConfig;
use std::collections::HashMap;

verus! {

/// One registered session.
#[derive(Debug)]
pub struct Session {
    pub id: u64,
    pub user_id: u64,
    pub user_name: String,
}

/// The session table and its configuration.
#[derive(Debug)]
pub struct Switchboard {
    sessions: HashMap<u64, Session>,
    cfg: SwitchboardConfig,
}

impl Switchboard {
    /// The sessions held, by id.
    pub closed spec fn sessions(&self) -> Map<u64, Session> {
        self.sessions@
    }

    /// The table only ever holds finitely many sessions.
    pub proof fn lemma_sessions_finite(&self)
        ensures
            self.sessions().dom().finite(),
    {
    }

    /// The configuration the table was made with.
    pub closed spec fn config(&self) -> SwitchboardConfig {
        self.cfg
    }

    /// An empty table.
    pub fn new(cfg: SwitchboardConfig) -> (r: Self)
        ensures
            r.sessions() == Map::<u64, Session>::empty(),
            r.sessions().dom().finite(),
            r.config() == cfg,
    {
        Switchboard { sessions: HashMap::new(), cfg }
    }

    /// Inserts `session` under its id, replacing any session with that id.
    pub fn insert_new_session(&mut self, session: Session)
        ensures
            final(self).sessions() == old(self).sessions().insert(session.id, session),
            final(self).sessions().dom().finite(),
            final(self).sessions().len() == old(self).sessions().len() + (if old(
                self,
            ).sessions().contains_key(session.id) {
                0int
            } else {
                1int
            }),
            final(self).config() == old(self).config(),
    {
        proof {
            assert(self.sessions@.dom().finite());
        }
        let session_id = session.id;
        self.sessions.insert(session_id, session);
    }

    /// The number of sessions held.
    pub fn sessions_count(&self) -> (r: usize)
        ensures
            r == self.sessions().len(),
    {
        proof {
            assert(self.sessions@.dom().finite());
        }
        self.sessions.len()
    }
}

} // verus!
