//! The registry of connected agents: registration under a fresh random
//! UUID, lookup, activity tracking and removal of inactive agents.
//!
//! Times are milliseconds since the UNIX epoch.

use dashmap::DashMap;
use vstd::prelude::*;
use crate::clock::now_millis;
use crate::lock_manager::AgentId;
use crate::text::clone_opt;

verus! {

/// An active agent session.
#[derive(Debug, Clone, PartialEq, Eq)]
pub struct AgentSession {
    pub id: AgentId,
    pub name: Option<String>,
    pub registered_at: u64,
    pub last_active: u64,
}

impl AgentSession {
    /// A field-by-field copy.
    pub fn duplicate(&self) -> (r: Self)
        ensures
            r == *self,
    {
        AgentSession {
            id: self.id,
            name: clone_opt(&self.name),
            registered_at: self.registered_at,
            last_active: self.last_active,
        }
    }
}

/// The concurrent map of agent sessions, keyed by the agents' UUID values.
pub type AgentTable = DashMap<u128, AgentSession>;

/// What the agent table holds: each agent's session.
pub uninterp spec fn agent_table_contents(m: AgentTable) -> Map<u128, AgentSession>;

/// `DashMap::new`: an empty map.
#[verifier::external_body]
fn agent_table_new() -> (table: AgentTable)
    ensures
        agent_table_contents(table).dom() == Set::<u128>::empty(),
{
    DashMap::new()
}

/// `DashMap::view`: the session under `k`, if any, copied by the library's field-by-field `duplicate`.
#[verifier::external_body]
fn agent_table_get(m: &AgentTable, k: u128) -> (r: Option<AgentSession>)
    ensures
        r is Some <==> agent_table_contents(*m).contains_key(k),
        r matches Some(s) ==> s == agent_table_contents(*m)[k],
{
    m.view(&k, |_, v| v.duplicate())
}

/// `DashMap::insert`: stores `v` under `k`, replacing any previous session.
#[verifier::external_body]
fn agent_table_insert(m: &mut AgentTable, k: u128, v: AgentSession)
    ensures
        agent_table_contents(*final(m)) == agent_table_contents(*old(m)).insert(k, v),
{
    m.insert(k, v);
}

/// `DashMap::remove`: removes the session under `k`; whether there was one.
#[verifier::external_body]
fn agent_table_remove(m: &mut AgentTable, k: u128) -> (r: bool)
    ensures
        agent_table_contents(*final(m)) == agent_table_contents(*old(m)).remove(k),
        r == agent_table_contents(*old(m)).contains_key(k),
{
    match m.remove(&k) {
        Some(_) => true,
        None => false,
    }
}

/// `DashMap::iter`, keeping the keys: every key of the map once, in the
/// map's own (unspecified) order.
#[verifier::external_body]
fn agent_table_keys(m: &AgentTable) -> (r: Vec<u128>)
    ensures
        r@.no_duplicates(),
        r@.to_set() == agent_table_contents(*m).dom(),
{
    m.iter().map(|entry| *entry.key()).collect()
}

/// `uuid::Uuid::new_v4` as a 128-bit value: random, with the version
/// nibble 4 and the RFC 4122 variant bits set, as the crate's source
/// masks them in.
#[verifier::external_body]
fn new_agent_uuid() -> (r: u128)
    ensures
        r & 0xF000_C000_0000_0000_0000u128 == 0x4000_8000_0000_0000_0000u128,
{
    uuid::Uuid::new_v4().as_u128()
}

/// Whether a session counts as active at `now`: it was last active less
/// than `timeout` ms before (a last activity after `now` counts as zero).
pub open spec fn is_active(s: AgentSession, now: u64, timeout: u64) -> bool {
    (if now >= s.last_active { now - s.last_active } else { 0 }) < timeout
}

/// The registry of active agent sessions.
pub struct AgentRegistry {
    sessions: AgentTable,
}

impl AgentRegistry {
    /// The sessions, by agent UUID value.
    pub closed spec fn sessions(&self) -> Map<u128, AgentSession> {
        agent_table_contents(self.sessions)
    }

    /// Well-formedness: each session is stored under its own agent id.
    pub open spec fn wf(&self) -> bool {
        forall|k: u128| #[trigger] self.sessions().contains_key(k) ==> self.sessions()[k].id.0 == k
    }

    /// An empty registry.
    pub fn new() -> (r: Self)
        ensures
            r.wf(),
            r.sessions().dom() == Set::<u128>::empty(),
    {
        AgentRegistry { sessions: agent_table_new() }
    }

    /// Registers a new agent at time `now` under a fresh random id and
    /// returns the id.
    pub fn register_at(&mut self, name: Option<String>, now: u64) -> (id: AgentId)
        requires
            old(self).wf(),
        ensures
            final(self).wf(),
            final(self).sessions() == old(self).sessions().insert(
                id.0,
                AgentSession { id, name, registered_at: now, last_active: now },
            ),
    {
        let id = AgentId(new_agent_uuid());
        agent_table_insert(&mut self.sessions, id.0, AgentSession { id, name, registered_at: now, last_active: now });
        id
    }

    /// Registers a new agent at the current time.
    pub fn register(&mut self, name: Option<String>) -> (id: AgentId)
        requires
            old(self).wf(),
        ensures
            final(self).wf(),
            final(self).sessions().dom() == old(self).sessions().dom().insert(id.0),
            final(self).sessions()[id.0].id == id,
            final(self).sessions()[id.0].name == name,
            final(self).sessions()[id.0].registered_at == final(self).sessions()[id.0].last_active,
            forall|k: u128| k != id.0 && #[trigger] old(self).sessions().contains_key(k) ==> final(self).sessions()[k]
                == old(self).sessions()[k],
    {
        let now = now_millis();
        self.register_at(name, now)
    }

    /// Removes an agent; whether it was registered.
    pub fn deregister(&mut self, id: &AgentId) -> (r: bool)
        requires
            old(self).wf(),
        ensures
            final(self).wf(),
            final(self).sessions() == old(self).sessions().remove(id.0),
            r == old(self).sessions().contains_key(id.0),
    {
        agent_table_remove(&mut self.sessions, id.0)
    }

    /// A copy of an agent's session, if it is registered.
    pub fn get(&self, id: &AgentId) -> (r: Option<AgentSession>)
        ensures
            r is Some <==> self.sessions().contains_key(id.0),
            r matches Some(s) ==> s == self.sessions()[id.0],
    {
        agent_table_get(&self.sessions, id.0)
    }

    /// Copies of all sessions, each once, in no particular order.
    pub fn list(&self) -> (r: Vec<AgentSession>)
        requires
            self.wf(),
        ensures
            r@.map_values(|s: AgentSession| s.id.0).no_duplicates(),
            r@.map_values(|s: AgentSession| s.id.0).to_set() == self.sessions().dom(),
            forall|i: int| 0 <= i < r@.len() ==> #[trigger] r@[i] == self.sessions()[r@[i].id.0],
    {
        let keys = agent_table_keys(&self.sessions);
        let mut out: Vec<AgentSession> = Vec::new();
        let mut i: usize = 0;
        while i < keys.len()
            invariant
                keys@.no_duplicates(),
                keys@.to_set() == self.sessions().dom(),
                forall|k: u128| #[trigger] self.sessions().contains_key(k) ==> self.sessions()[k].id.0 == k,
                i <= keys@.len(),
                out@.len() == i,
                forall|k: int| 0 <= k < i ==> (#[trigger] out@[k]) == self.sessions()[keys@[k]] && out@[k].id.0
                    == keys@[k],
            decreases keys@.len() - i,
        {
            assert(keys@.to_set().contains(keys@[i as int]));
            match agent_table_get(&self.sessions, keys[i]) {
                Some(s) => out.push(s),
                None => {
                    assert(false);
                },
            }
            i = i + 1;
        }
        assert(out@.map_values(|s: AgentSession| s.id.0) =~= keys@);
        out
    }

    /// Marks an agent active at time `now`; nothing happens for an unknown
    /// agent.
    pub fn touch_at(&mut self, id: &AgentId, now: u64)
        requires
            old(self).wf(),
        ensures
            final(self).wf(),
            old(self).sessions().contains_key(id.0) ==> final(self).sessions() == old(self).sessions().insert(
                id.0,
                AgentSession { last_active: now, ..old(self).sessions()[id.0] },
            ),
            !old(self).sessions().contains_key(id.0) ==> final(self).sessions() == old(self).sessions(),
    {
        match agent_table_get(&self.sessions, id.0) {
            Some(s) => {
                let mut s = s;
                s.last_active = now;
                agent_table_insert(&mut self.sessions, id.0, s);
            },
            None => {},
        }
    }

    /// Marks an agent active at the current time.
    pub fn touch(&mut self, id: &AgentId)
        requires
            old(self).wf(),
        ensures
            final(self).wf(),
            final(self).sessions().dom() == old(self).sessions().dom(),
            forall|k: u128| k != id.0 && #[trigger] old(self).sessions().contains_key(k) ==> final(self).sessions()[k]
                == old(self).sessions()[k],
            old(self).sessions().contains_key(id.0) ==> final(self).sessions() == old(self).sessions().insert(
                id.0,
                AgentSession { last_active: final(self).sessions()[id.0].last_active, ..old(self).sessions()[id.0] },
            ),
            !old(self).sessions().contains_key(id.0) ==> final(self).sessions() == old(self).sessions(),
    {
        let now = now_millis();
        self.touch_at(id, now);
        assert(self.sessions().dom() =~= old(self).sessions().dom());
    }

    /// Removes the sessions inactive at `now` for `timeout` ms or more, and
    /// returns how many were removed.
    pub fn sweep_inactive_at(&mut self, timeout: u64, now: u64) -> (removed: usize)
        requires
            old(self).wf(),
        ensures
            final(self).wf(),
            final(self).sessions() == old(self).sessions().restrict(
                old(self).sessions().dom().filter(|k: u128| is_active(old(self).sessions()[k], now, timeout)),
            ),
            removed == old(self).sessions().dom().len() - final(self).sessions().dom().len(),
    {
        let ghost s0 = self.sessions();
        let keys = agent_table_keys(&self.sessions);
        let ghost keep = s0.dom().filter(|k: u128| is_active(s0[k], now, timeout));
        let mut removed: usize = 0;
        let mut i: usize = 0;
        proof {
            keys@.unique_seq_to_set();
        }
        while i < keys.len()
            invariant
                keys@.no_duplicates(),
                keys@.to_set() == s0.dom(),
                keys@.len() == s0.dom().len(),
                s0 == old(self).sessions(),
                keep == s0.dom().filter(|k: u128| is_active(s0[k], now, timeout)),
                i <= keys@.len(),
                self.sessions() == s0.restrict(
                    s0.dom().filter(|k: u128| !keys@.subrange(0, i as int).contains(k) || keep.contains(k)),
                ),
                removed as int == s0.dom().len() - self.sessions().dom().len(),
                removed <= i,
            decreases keys@.len() - i,
        {
            let k = keys[i];
            let ghost before = self.sessions();
            assert(keys@.to_set().contains(k));
            match agent_table_get(&self.sessions, k) {
                Some(s) => {
                    let idle = if now >= s.last_active { now - s.last_active } else { 0 };
                    if !(idle < timeout) {
                        agent_table_remove(&mut self.sessions, k);
                        removed = removed + 1;
                        proof {
                            assert(before.contains_key(k));
                            assert(self.sessions().dom() =~= before.dom().remove(k));
                            assert(before.dom().finite()) by {
                                assert(before.dom().subset_of(keys@.to_set()));
                                vstd::set_lib::lemma_len_subset(before.dom(), keys@.to_set());
                            }
                        }
                    }
                },
                None => {
                    proof {
                        let pre = keys@.subrange(0, i as int);
                        assert(!pre.contains(k)) by {
                            if pre.contains(k) {
                                let j = choose|j: int| 0 <= j < pre.len() && pre[j] == k;
                                assert(keys@[j] == keys@[i as int]);
                            }
                        }
                    }
                },
            }
            proof {
                let pre = keys@.subrange(0, i as int);
                let post = keys@.subrange(0, i + 1);
                assert(post =~= pre.push(k));
                assert forall|x: u128| #[trigger] post.contains(x) <==> (pre.contains(x) || x == k) by {
                    if post.contains(x) {
                        let j = choose|j: int| 0 <= j < post.len() && post[j] == x;
                        if j < pre.len() {
                            assert(pre[j] == x);
                        }
                    }
                    if pre.contains(x) {
                        let j = choose|j: int| 0 <= j < pre.len() && pre[j] == x;
                        assert(post[j] == x);
                    }
                    if x == k {
                        assert(post[pre.len() as int] == x);
                    }
                }
                assert(self.sessions() =~= s0.restrict(
                    s0.dom().filter(|x: u128| !post.contains(x) || keep.contains(x)),
                ));
            }
            i = i + 1;
        }
        proof {
            assert(keys@.subrange(0, keys@.len() as int) =~= keys@);
            assert(s0.dom().filter(|x: u128| !keys@.contains(x) || keep.contains(x)) =~= keep);
        }
        removed
    }
}

} // verus!
