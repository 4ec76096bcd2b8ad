//! Per-function read-write locks for concurrent graph editing by several
//! agents, with expiry times, batch acquisition with all-or-nothing
//! semantics, and release of everything an agent holds.
//!
//! Times are milliseconds since the UNIX epoch. Functions are keyed by the
//! inner value of their id.

use std::collections::HashMap;
use dashmap::DashMap;
use vstd::prelude::*;
use vstd::std_specs::iter::IteratorSpec;
use crate::clock::{humanize_system_time, iso8601, now_millis};
use crate::ids::FunctionId;
use crate::propagation::{dedupe_u32, strictly_increasing};
use crate::text::{clone_opt, opt_view, uuid_text, uuid_to_string};

verus! {

broadcast use vstd::std_specs::hash::group_hash_axioms;

/// Unique agent identifier: the 128-bit value of the agent's UUID.
#[derive(Debug, Clone, Copy, PartialEq, Eq, Hash, Structural)]
pub struct AgentId(pub u128);

impl AgentId {
    /// The id as a hyphenated lower-case UUID.
    pub fn to_string(&self) -> (r: String)
        ensures
            r@ == uuid_text(self.0),
    {
        uuid_to_string(self.0)
    }
}

/// Lock mode: read (shared) or write (exclusive).
#[derive(Debug, Clone, Copy, PartialEq, Eq, Structural)]
pub enum LockMode {
    Read,
    Write,
}

/// Information about a write lock holder.
#[derive(Debug, Clone)]
pub struct LockHolderInfo {
    pub agent_id: AgentId,
    pub agent_name: Option<String>,
    pub description: Option<String>,
    pub acquired_at: u64,
    pub expires_at: u64,
}

/// Per-function lock state.
#[derive(Debug)]
pub enum FunctionLockState {
    /// No lock held.
    Unlocked,
    /// Shared read lock: each reader with its expiry, and the latest expiry.
    ReadLocked { readers: HashMap<u128, u64>, expires_at: u64 },
    /// Exclusive write lock held by one agent; agents that were denied the
    /// lock wait in FIFO order.
    WriteLocked { holder: LockHolderInfo, waiters: Vec<AgentId> },
}

/// A successful lock acquisition.
#[derive(Debug, Clone)]
pub struct LockGrant {
    pub function_id: FunctionId,
    pub mode: LockMode,
    pub expires_at: String,
}

/// A lock request that was denied.
#[derive(Debug, Clone)]
pub struct LockDenial {
    pub function_id: FunctionId,
    pub holder_agent_id: AgentId,
    pub holder_name: Option<String>,
    pub holder_description: Option<String>,
    pub queue_position: usize,
}

/// Errors from lock operations.
#[derive(Debug, Clone)]
pub enum LockError {
    /// The lock is held by another agent.
    AlreadyHeldBy(LockDenial),
    /// The agent does not hold the lock.
    NotHeld { function_id: FunctionId, agent_id: AgentId },
    /// The function does not exist in the graph.
    FunctionNotFound(FunctionId),
    /// A batch acquisition failed partway through.
    BatchPartialFailure { acquired: Vec<FunctionId>, failed: LockDenial },
}

/// Status of one locked function.
#[derive(Debug, Clone)]
pub struct LockStatusEntry {
    pub function_id: FunctionId,
    pub state: String,
    pub holders: Vec<AgentId>,
    pub holder_description: Option<String>,
    pub expires_at: Option<String>,
}

/// The abstract state of one function's lock.
pub enum LockView {
    Unlocked,
    Read { readers: Map<u128, u64>, expires_at: u64 },
    Write {
        holder: u128,
        name: Option<Seq<char>>,
        description: Option<Seq<char>>,
        acquired_at: u64,
        expires_at: u64,
        waiters: Seq<u128>,
    },
}

/// The abstract state of a lock.
pub open spec fn lock_view(s: FunctionLockState) -> LockView {
    match s {
        FunctionLockState::Unlocked => LockView::Unlocked,
        FunctionLockState::ReadLocked { readers, expires_at } => LockView::Read { readers: readers@, expires_at },
        FunctionLockState::WriteLocked { holder, waiters } => LockView::Write {
            holder: holder.agent_id.0,
            name: opt_view(holder.agent_name),
            description: opt_view(holder.description),
            acquired_at: holder.acquired_at,
            expires_at: holder.expires_at,
            waiters: waiters@.map_values(|a: AgentId| a.0),
        },
    }
}

/// `dashmap::DashMap`, a concurrent hash map; opaque to verification.
#[verifier::external_type_specification]
#[verifier::external_body]
#[verifier::reject_recursive_types(K)]
#[verifier::reject_recursive_types(V)]
#[verifier::reject_recursive_types(S)]
pub struct ExDashMap<K, V, S>(DashMap<K, V, S>);

/// The concurrent map holding each function's lock state.
pub type LockTable = DashMap<u32, FunctionLockState>;

/// What the lock table holds: each function's lock state.
pub uninterp spec fn lock_table_contents(m: LockTable) -> Map<u32, FunctionLockState>;

/// `DashMap::new`: an empty map.
#[verifier::external_body]
fn table_new() -> (table: LockTable)
    ensures
        lock_table_contents(table).dom() == Set::<u32>::empty(),
{
    DashMap::new()
}

/// `DashMap::view`: the entry under `k`, if any, copied by the library's field-by-field `duplicate`.
#[verifier::external_body]
fn table_get(m: &LockTable, k: u32) -> (r: Option<FunctionLockState>)
    ensures
        r is Some <==> lock_table_contents(*m).contains_key(k),
        r matches Some(v) ==> lock_view(v) == lock_view(lock_table_contents(*m)[k]),
{
    m.view(&k, |_, v| v.duplicate())
}

/// `DashMap::insert`: stores `v` under `k`, replacing any previous entry.
#[verifier::external_body]
fn table_insert(m: &mut LockTable, k: u32, v: FunctionLockState)
    ensures
        lock_table_contents(*final(m)) == lock_table_contents(*old(m)).insert(k, v),
{
    m.insert(k, v);
}

/// `DashMap::remove`: removes the entry under `k`, if any.
#[verifier::external_body]
fn table_remove(m: &mut LockTable, k: u32)
    ensures
        lock_table_contents(*final(m)) == lock_table_contents(*old(m)).remove(k),
{
    m.remove(&k);
}

/// `DashMap::iter`, keeping the keys: every key of the map once, in the
/// map's own (unspecified) order.
#[verifier::external_body]
fn table_keys(m: &LockTable) -> (r: Vec<u32>)
    ensures
        r@.no_duplicates(),
        r@.to_set() == lock_table_contents(*m).dom(),
{
    m.iter().map(|entry| *entry.key()).collect()
}

impl LockHolderInfo {
    /// A field-by-field copy.
    pub fn duplicate(&self) -> (r: Self)
        ensures
            r.agent_id == self.agent_id,
            opt_view(r.agent_name) == opt_view(self.agent_name),
            opt_view(r.description) == opt_view(self.description),
            r.acquired_at == self.acquired_at,
            r.expires_at == self.expires_at,
    {
        LockHolderInfo {
            agent_id: self.agent_id,
            agent_name: clone_opt(&self.agent_name),
            description: clone_opt(&self.description),
            acquired_at: self.acquired_at,
            expires_at: self.expires_at,
        }
    }
}

fn copy_agents(v: &Vec<AgentId>) -> (r: Vec<AgentId>)
    ensures
        r@ == v@,
{
    let mut out: Vec<AgentId> = Vec::new();
    let mut i: usize = 0;
    while i < v.len()
        invariant
            i <= v@.len(),
            out@ == v@.subrange(0, i as int),
        decreases v@.len() - i,
    {
        out.push(v[i]);
        i = i + 1;
    }
    proof {
        assert(v@.subrange(0, v@.len() as int) =~= v@);
    }
    out
}

impl FunctionLockState {
    /// A copy of this lock state.
    pub fn duplicate(&self) -> (r: Self)
        ensures
            lock_view(r) == lock_view(*self),
    {
        match self {
            FunctionLockState::Unlocked => FunctionLockState::Unlocked,
            FunctionLockState::ReadLocked { readers, expires_at } => FunctionLockState::ReadLocked {
                readers: readers.clone(),
                expires_at: *expires_at,
            },
            FunctionLockState::WriteLocked { holder, waiters } => {
                let r = FunctionLockState::WriteLocked { holder: holder.duplicate(), waiters: copy_agents(waiters) };
                proof {
                    assert(lock_view(r) == lock_view(*self));
                }
                r
            },
        }
    }
}


/// The expiry of a lock taken at `now` with lifetime `ttl` (saturating).
pub open spec fn expiry_of(now: u64, ttl: u64) -> u64 {
    if now + ttl > u64::MAX { u64::MAX } else { (now + ttl) as u64 }
}

/// How an expiry is shown at time `now`: its calendar time while in the
/// future, `expired` otherwise.
pub open spec fn expiry_text(expires_at: u64, now: u64) -> Seq<char> {
    if expires_at > now {
        iso8601((expires_at / 1000) as nat)
    } else {
        "expired"@
    }
}

/// Renders an expiry at time `now`.
pub fn format_expiry(expires_at: u64, now: u64) -> (r: String)
    ensures
        r@ == expiry_text(expires_at, now),
{
    if expires_at > now {
        humanize_system_time(Some(expires_at / 1000))
    } else {
        String::from_str("expired")
    }
}

/// `ws` with `a` appended unless it is already there.
pub open spec fn add_waiter(ws: Seq<u128>, a: u128) -> Seq<u128> {
    if ws.contains(a) { ws } else { ws.push(a) }
}

/// The first position of `a` in `ws` (the length of `ws` if absent).
pub open spec fn first_pos(ws: Seq<u128>, a: u128) -> nat
    decreases ws.len(),
{
    if ws.len() == 0 {
        0
    } else if ws[0] == a {
        0
    } else {
        1 + first_pos(ws.drop_first(), a)
    }
}

/// The lock entry of `f`, if the table has one.
pub open spec fn entry_of(t: Map<u32, LockView>, f: u32) -> Option<LockView> {
    if t.contains_key(f) { Some(t[f]) } else { None }
}

/// The lock entry of a function after `agent` asks for a read lock
/// expiring at `exp`.
pub open spec fn read_next(cur: Option<LockView>, agent: u128, exp: u64) -> LockView {
    match cur {
        Some(LockView::Read { readers, expires_at }) => LockView::Read {
            readers: readers.insert(agent, exp),
            expires_at: if exp > expires_at { exp } else { expires_at },
        },
        Some(LockView::Write { holder, name, description, acquired_at, expires_at, waiters }) =>
            if holder == agent {
                cur->0
            } else {
                LockView::Write { holder, name, description, acquired_at, expires_at, waiters: add_waiter(waiters, agent) }
            },
        _ => LockView::Read { readers: map![agent => exp], expires_at: exp },
    }
}

/// A fresh write lock of `agent`, taken at `now` and expiring at `exp`.
pub open spec fn fresh_write(agent: u128, description: Option<Seq<char>>, now: u64, exp: u64) -> LockView {
    LockView::Write { holder: agent, name: None, description, acquired_at: now, expires_at: exp, waiters: Seq::empty() }
}

/// Whether `agent` is the only reader of a read lock.
pub open spec fn sole_reader(readers: Map<u128, u64>, agent: u128) -> bool {
    readers.dom().len() == 1 && readers.dom().contains(agent)
}

/// The lock entry of a function after `agent` asks for a write lock.
pub open spec fn write_next(cur: Option<LockView>, agent: u128, description: Option<Seq<char>>, now: u64, exp: u64)
    -> LockView {
    match cur {
        Some(LockView::Read { readers, expires_at }) => if sole_reader(readers, agent) {
            fresh_write(agent, description, now, exp)
        } else {
            cur->0
        },
        Some(LockView::Write { holder, name, description: d, acquired_at, expires_at, waiters }) =>
            if holder == agent {
                LockView::Write {
                    holder,
                    name,
                    description: if description is Some { description } else { d },
                    acquired_at,
                    expires_at: exp,
                    waiters,
                }
            } else {
                LockView::Write { holder, name, description: d, acquired_at, expires_at, waiters: add_waiter(waiters, agent) }
            },
        _ => fresh_write(agent, description, now, exp),
    }
}

/// Whether `agent` holds the lock entry `cur` (as a reader or the writer).
pub open spec fn holds(cur: Option<LockView>, agent: u128) -> bool {
    match cur {
        Some(LockView::Read { readers, .. }) => readers.dom().contains(agent),
        Some(LockView::Write { holder, .. }) => holder == agent,
        _ => false,
    }
}

/// Whether `agent` holds the write lock of entry `cur`.
pub open spec fn holds_write(cur: Option<LockView>, agent: u128) -> bool {
    cur matches Some(LockView::Write { holder, .. }) && holder == agent
}

/// The table after `agent` releases its lock on `f` (unchanged when it
/// holds none): a read lock loses the reader and disappears with its last
/// reader; a write lock disappears.
pub open spec fn released(t: Map<u32, LockView>, f: u32, agent: u128) -> Map<u32, LockView> {
    if !holds(entry_of(t, f), agent) {
        t
    } else {
        match t[f] {
            LockView::Read { readers, expires_at } => if readers.remove(agent).dom().len() == 0 {
                t.remove(f)
            } else {
                t.insert(f, LockView::Read { readers: readers.remove(agent), expires_at })
            },
            _ => t.remove(f),
        }
    }
}

/// Releasing a lock: afterwards the agent holds no lock on the function,
/// every other reader still holds its read lock, and no other function's
/// lock changes.
pub proof fn lemma_release_law(t: Map<u32, LockView>, f: u32, agent: u128, other: u128, g: u32)
    requires
        entry_of(t, f) matches Some(LockView::Read { readers, .. }) ==> readers.dom().finite(),
    ensures
        !holds(entry_of(released(t, f, agent), f), agent),
        other != agent && holds(entry_of(t, f), other) && entry_of(t, f)->0 is Read ==> holds(
            entry_of(released(t, f, agent), f),
            other,
        ),
        g != f ==> entry_of(released(t, f, agent), g) == entry_of(t, g),
{
    if holds(entry_of(t, f), agent) && other != agent && holds(entry_of(t, f), other) && entry_of(t, f)->0 is Read {
        let readers = t[f]->readers;
        assert(readers.remove(agent).dom().contains(other));
        assert(readers.remove(agent).dom().len() > 0);
    }
}

/// Whether a write request of `agent` is denied on lock entry `cur`.
pub open spec fn write_denied(cur: Option<LockView>, agent: u128) -> bool {
    match cur {
        Some(LockView::Read { readers, .. }) => !sole_reader(readers, agent),
        Some(LockView::Write { holder, .. }) => holder != agent,
        _ => false,
    }
}

/// Write requests of `agent` on `fs` in order, stopping at the first
/// denial: the resulting table, how many were granted, and whether one was
/// denied.
pub open spec fn batch_acquire(
    t: Map<u32, LockView>,
    fs: Seq<u32>,
    agent: u128,
    description: Option<Seq<char>>,
    now: u64,
    exp: u64,
) -> (Map<u32, LockView>, nat, bool)
    decreases fs.len(),
{
    if fs.len() == 0 {
        (t, 0, false)
    } else {
        let cur = entry_of(t, fs[0]);
        let t1 = t.insert(fs[0], write_next(cur, agent, description, now, exp));
        if write_denied(cur, agent) {
            (t1, 0, true)
        } else {
            let r = batch_acquire(t1, fs.drop_first(), agent, description, now, exp);
            (r.0, r.1 + 1, r.2)
        }
    }
}

/// The table after `agent` releases its locks on `fs`, in order.
pub open spec fn release_each(t: Map<u32, LockView>, fs: Seq<u32>, agent: u128) -> Map<u32, LockView>
    decreases fs.len(),
{
    if fs.len() == 0 {
        t
    } else {
        release_each(released(t, fs[0], agent), fs.drop_first(), agent)
    }
}

/// The distinct values of a set in ascending order.
pub open spec fn ascending(s: Set<u32>) -> Seq<u32> {
    choose|q: Seq<u32>| strictly_increasing(q) && q.to_set() == s
}

/// Two ascending sequences with the same elements are equal.
pub proof fn lemma_ascending_unique(a: Seq<u32>, b: Seq<u32>)
    requires
        strictly_increasing(a),
        strictly_increasing(b),
        a.to_set() == b.to_set(),
    ensures
        a == b,
    decreases a.len(),
{
    if a.len() == 0 {
        if b.len() > 0 {
            assert(b.to_set().contains(b[0]));
        }
        assert(b.len() == 0);
    } else {
        assert(a.to_set().contains(a[0]));
        assert(b.len() > 0);
        assert(b.to_set().contains(b[0]));
        let j = choose|j: int| 0 <= j < b.len() && b[j] == a[0];
        let k = choose|k: int| 0 <= k < a.len() && a[k] == b[0];
        if j > 0 {
            assert(b[0] < b[j]);
            if k > 0 {
                assert(a[0] < a[k]);
            }
        }
        assert(a[0] == b[0]);
        let a1 = a.drop_first();
        let b1 = b.drop_first();
        assert(a1.to_set() =~= b1.to_set()) by {
            assert forall|x: u32| a1.to_set().contains(x) implies b1.to_set().contains(x) by {
                let p = choose|p: int| 0 <= p < a1.len() && a1[p] == x;
                assert(a[p + 1] == x);
                assert(b.to_set().contains(x));
                let q = choose|q: int| 0 <= q < b.len() && b[q] == x;
                if q == 0 {
                    assert(a[0] < a[p + 1]);
                }
                assert(b1[q - 1] == x);
            }
            assert forall|x: u32| b1.to_set().contains(x) implies a1.to_set().contains(x) by {
                let p = choose|p: int| 0 <= p < b1.len() && b1[p] == x;
                assert(b[p + 1] == x);
                assert(a.to_set().contains(x));
                let q = choose|q: int| 0 <= q < a.len() && a[q] == x;
                if q == 0 {
                    assert(b[0] < b[p + 1]);
                }
                assert(a1[q - 1] == x);
            }
        }
        lemma_ascending_unique(a1, b1);
        assert(a =~= b) by {
            assert forall|i: int| 0 <= i < a.len() implies a[i] == b[i] by {
                if i > 0 {
                    assert(a[i] == a1[i - 1]);
                    assert(b[i] == b1[i - 1]);
                }
            }
        }
    }
}

/// Whether a lock entry has expired at time `now`.
pub open spec fn expired(v: LockView, now: u64) -> bool {
    match v {
        LockView::Unlocked => false,
        LockView::Read { expires_at, .. } => now >= expires_at,
        LockView::Write { expires_at, .. } => now >= expires_at,
    }
}

/// The functions of a table whose locks have expired at time `now`.
pub open spec fn expired_set(t: Map<u32, LockView>, now: u64) -> Set<u32> {
    Set::new(|f: u32| t.contains_key(f) && expired(t[f], now))
}

/// The functions on which `agent` holds a lock.
pub open spec fn held_by(t: Map<u32, LockView>, agent: u128) -> Set<u32> {
    Set::new(|f: u32| holds(entry_of(t, f), agent))
}

/// Whether a status entry describes lock `v` at time `now`.
pub open spec fn status_matches(e: LockStatusEntry, v: LockView, now: u64) -> bool {
    match v {
        LockView::Read { readers, expires_at } => {
            &&& e.state@ == "read"@
            &&& e.holders@.map_values(|a: AgentId| a.0).to_set() == readers.dom()
            &&& e.holders@.map_values(|a: AgentId| a.0).no_duplicates()
            &&& e.holder_description is None
            &&& e.expires_at matches Some(x) && x@ == expiry_text(expires_at, now)
        },
        LockView::Write { holder, description, expires_at, .. } => {
            &&& e.state@ == "write"@
            &&& e.holders@ == seq![AgentId(holder)]
            &&& opt_view(e.holder_description) == description
            &&& e.expires_at matches Some(x) && x@ == expiry_text(expires_at, now)
        },
        LockView::Unlocked => false,
    }
}

/// A pushed sequence contains exactly the old elements and the new one.
pub proof fn lemma_push_contains<T>(s: Seq<T>, v: T, x: T)
    ensures
        s.push(v).contains(x) <==> (s.contains(x) || x == v),
{
    if s.contains(x) {
        let k = choose|k: int| 0 <= k < s.len() && s[k] == x;
        assert(s.push(v)[k] == x);
    }
    if x == v {
        assert(s.push(v)[s.len() as int] == v);
    }
    if s.push(v).contains(x) {
        let k = choose|k: int| 0 <= k < s.push(v).len() && s.push(v)[k] == x;
        if k < s.len() {
            assert(s[k] == x);
        }
    }
}

/// Releasing one function's lock leaves every other entry as it was.
pub proof fn lemma_released_elsewhere(t: Map<u32, LockView>, f: u32, agent: u128, g: u32)
    requires
        g != f,
    ensures
        entry_of(released(t, f, agent), g) == entry_of(t, g),
{
}

/// A write lock excludes every other agent: while `a` holds the write lock
/// of `f`, another agent's write request is denied and its read request
/// meets another agent's write lock.
pub proof fn lemma_write_lock_is_exclusive(t: Map<u32, LockView>, f: u32, a: u128, b: u128)
    requires
        holds_write(entry_of(t, f), a),
        a != b,
    ensures
        write_denied(entry_of(t, f), b),
        entry_of(t, f) matches Some(LockView::Write { holder, .. }) && holder != b,
{
}

/// Read locks are shared: after `a` takes a read lock on an unlocked or
/// read-locked function, `a` holds it and any other agent's read request is
/// granted too (the entry is a read lock, not a write lock).
pub proof fn lemma_reads_are_shared(cur: Option<LockView>, a: u128, exp: u64)
    requires
        !(cur matches Some(LockView::Write { .. })),
    ensures
        holds(Some(read_next(cur, a, exp)), a),
        read_next(cur, a, exp) is Read,
{
}

/// Releasing undoes acquiring: a write lock (or read lock) taken by `a` on a
/// function with no lock entry is removed again by `a`'s release, which
/// gives back the table without the entry.
pub proof fn lemma_acquire_then_release(
    t: Map<u32, LockView>,
    f: u32,
    a: u128,
    description: Option<Seq<char>>,
    now: u64,
    exp: u64,
)
    requires
        !t.contains_key(f),
    ensures
        released(t.insert(f, write_next(None, a, description, now, exp)), f, a) == t,
        released(t.insert(f, read_next(None, a, exp)), f, a) == t,
{
    let t1 = t.insert(f, write_next(None, a, description, now, exp));
    assert(entry_of(t1, f) == Some(write_next(None, a, description, now, exp)));
    assert(t1.remove(f) =~= t);
    let t2 = t.insert(f, read_next(None, a, exp));
    assert(entry_of(t2, f) == Some(read_next(None, a, exp)));
    assert(map![a => exp].remove(a).dom() =~= Set::<u128>::empty());
    assert(t2.remove(f) =~= t);
}

/// Releasing `fs` one by one leaves every function outside `fs` as it was.
pub proof fn lemma_release_each_elsewhere(t: Map<u32, LockView>, fs: Seq<u32>, a: u128, g: u32)
    requires
        !fs.contains(g),
    ensures
        entry_of(release_each(t, fs, a), g) == entry_of(t, g),
    decreases fs.len(),
{
    if fs.len() > 0 {
        assert(fs[0] != g);
        assert forall|x: u32| fs.drop_first().contains(x) implies fs.contains(x) by {
            let k = choose|k: int| 0 <= k < fs.drop_first().len() && fs.drop_first()[k] == x;
            assert(fs[k + 1] == x);
        }
        lemma_release_each_elsewhere(released(t, fs[0], a), fs.drop_first(), a, g);
    }
}

/// After releasing `fs` (distinct functions), the agent holds none of them.
pub proof fn lemma_release_each_frees(t: Map<u32, LockView>, fs: Seq<u32>, a: u128, g: u32)
    requires
        fs.no_duplicates(),
        fs.contains(g),
    ensures
        !holds(entry_of(release_each(t, fs, a), g), a),
    decreases fs.len(),
{
    let rest = fs.drop_first();
    assert(rest.no_duplicates());
    if fs[0] == g {
        assert(!rest.contains(g)) by {
            if rest.contains(g) {
                let k = choose|k: int| 0 <= k < rest.len() && rest[k] == g;
                assert(fs[k + 1] == fs[0]);
            }
        }
        let t1 = released(t, g, a);
        lemma_release_each_elsewhere(t1, rest, a, g);
        if holds(entry_of(t, g), a) {
            match t[g] {
                LockView::Read { readers, expires_at } => {
                    if readers.remove(a).dom().len() != 0 {
                        assert(!readers.remove(a).dom().contains(a));
                    }
                },
                _ => {},
            }
        }
    } else {
        let k = choose|k: int| 0 <= k < fs.len() && fs[k] == g;
        assert(rest[k - 1] == g);
        lemma_release_each_frees(released(t, fs[0], a), rest, a, g);
    }
}

/// Releasing everything: after `agent` releases each function it held
/// (each once), it holds no lock on any function.
pub proof fn lemma_release_all_frees_agent(t: Map<u32, LockView>, fs: Seq<u32>, a: u128, g: u32)
    requires
        fs.no_duplicates(),
        fs.to_set() == held_by(t, a),
    ensures
        !holds(entry_of(release_each(t, fs, a), g), a),
{
    if fs.contains(g) {
        lemma_release_each_frees(t, fs, a, g);
    } else {
        assert(!fs.to_set().contains(g));
        lemma_release_each_elsewhere(t, fs, a, g);
    }
}

/// A batch on distinct functions that meets no denial leaves `agent` the
/// writer of every one of them.
pub proof fn lemma_batch_success_holds_all(
    t: Map<u32, LockView>,
    fs: Seq<u32>,
    a: u128,
    d: Option<Seq<char>>,
    now: u64,
    exp: u64,
    k: int,
)
    requires
        strictly_increasing(fs),
        !batch_acquire(t, fs, a, d, now, exp).2,
        0 <= k < fs.len(),
    ensures
        holds_write(entry_of(batch_acquire(t, fs, a, d, now, exp).0, fs[k]), a),
    decreases fs.len(),
{
    let cur = entry_of(t, fs[0]);
    let t1 = t.insert(fs[0], write_next(cur, a, d, now, exp));
    let rest = fs.drop_first();
    assert(strictly_increasing(rest)) by {
        assert forall|i: int, j: int| 0 <= i < j < rest.len() implies rest[i] < rest[j] by {
            assert(fs[i + 1] < fs[j + 1]);
        }
    }
    if k == 0 {
        assert(holds_write(entry_of(t1, fs[0]), a));
        lemma_batch_keeps_other(t1, rest, a, d, now, exp, fs[0]);
    } else {
        assert(rest[k - 1] == fs[k]);
        lemma_batch_success_holds_all(t1, rest, a, d, now, exp, k - 1);
    }
}

/// A batch never touches functions below the first one it asks for.
proof fn lemma_batch_keeps_other(
    t: Map<u32, LockView>,
    fs: Seq<u32>,
    a: u128,
    d: Option<Seq<char>>,
    now: u64,
    exp: u64,
    g: u32,
)
    requires
        strictly_increasing(fs),
        forall|i: int| 0 <= i < fs.len() ==> g < #[trigger] fs[i],
    ensures
        entry_of(batch_acquire(t, fs, a, d, now, exp).0, g) == entry_of(t, g),
    decreases fs.len(),
{
    if fs.len() > 0 {
        let cur = entry_of(t, fs[0]);
        let t1 = t.insert(fs[0], write_next(cur, a, d, now, exp));
        let rest = fs.drop_first();
        assert(strictly_increasing(rest)) by {
            assert forall|i: int, j: int| 0 <= i < j < rest.len() implies rest[i] < rest[j] by {
                assert(fs[i + 1] < fs[j + 1]);
            }
        }
        assert forall|i: int| 0 <= i < rest.len() implies g < #[trigger] rest[i] by {
            assert(rest[i] == fs[i + 1]);
        }
        assert(entry_of(t1, g) == entry_of(t, g));
        if !write_denied(cur, a) {
            lemma_batch_keeps_other(t1, rest, a, d, now, exp, g);
        }
    }
}

/// Per-function read-write lock manager with expiry.
pub struct LockManager {
    function_locks: LockTable,
    default_ttl: u64,
}

fn position_of(waiters: &Vec<AgentId>, agent: AgentId) -> (r: usize)
    requires
        waiters@.map_values(|a: AgentId| a.0).contains(agent.0),
    ensures
        r == first_pos(waiters@.map_values(|a: AgentId| a.0), agent.0),
        r < waiters@.len(),
{
    let ghost ws = waiters@.map_values(|a: AgentId| a.0);
    let mut i: usize = 0;
    proof {
        assert(ws.subrange(0, ws.len() as int) =~= ws);
    }
    while i < waiters.len()
        invariant
            ws == waiters@.map_values(|a: AgentId| a.0),
            ws.contains(agent.0),
            i <= waiters@.len(),
            forall|k: int| 0 <= k < i ==> ws[k] != agent.0,
            first_pos(ws, agent.0) == i + first_pos(ws.subrange(i as int, ws.len() as int), agent.0),
        decreases waiters@.len() - i,
    {
        let ghost rest = ws.subrange(i as int, ws.len() as int);
        if waiters[i].0 == agent.0 {
            proof {
                assert(rest[0] == agent.0);
            }
            return i;
        }
        proof {
            assert(rest.drop_first() =~= ws.subrange(i + 1, ws.len() as int));
        }
        i = i + 1;
    }
    proof {
        let k = choose|k: int| 0 <= k < ws.len() && ws[k] == agent.0;
        assert(false);
    }
    i
}

fn contains_agent(waiters: &Vec<AgentId>, agent: AgentId) -> (r: bool)
    ensures
        r == waiters@.map_values(|a: AgentId| a.0).contains(agent.0),
{
    let ghost ws = waiters@.map_values(|a: AgentId| a.0);
    let mut i: usize = 0;
    while i < waiters.len()
        invariant
            ws == waiters@.map_values(|a: AgentId| a.0),
            i <= waiters@.len(),
            forall|k: int| 0 <= k < i ==> ws[k] != agent.0,
        decreases waiters@.len() - i,
    {
        if waiters[i].0 == agent.0 {
            proof {
                assert(ws[i as int] == agent.0);
            }
            return true;
        }
        i = i + 1;
    }
    false
}

/// The outcome of a read lock request of `agent_id` on `func_id` at time
/// `now` (lock lifetime `ttl`): the table from `before` to `after`, and
/// the grant, or the denial by a writer with the requester's queue place.
pub open spec fn read_lock_outcome(before: Map<u32, LockView>, after: Map<u32, LockView>, ttl: u64, func_id: FunctionId, agent_id: AgentId, now: u64, r: Result<LockGrant, LockError>) -> bool {
    let cur = entry_of(before, func_id.0);
    let exp = expiry_of(now, ttl);
    &&& after == before.insert(func_id.0, read_next(cur, agent_id.0, exp))
    &&& match cur {
        Some(LockView::Write { holder, name, description, expires_at, waiters, .. }) => if holder == agent_id.0 {
            r matches Ok(g) && g.function_id == func_id && g.mode == LockMode::Read
                && g.expires_at@ == expiry_text(expires_at, now)
        } else {
            r matches Err(LockError::AlreadyHeldBy(d)) && d.function_id == func_id
                && d.holder_agent_id == AgentId(holder) && opt_view(d.holder_name) == name
                && opt_view(d.holder_description) == description
                && d.queue_position == first_pos(add_waiter(waiters, agent_id.0), agent_id.0) + 1
        },
        _ => r matches Ok(g) && g.function_id == func_id && g.mode == LockMode::Read
            && g.expires_at@ == expiry_text(exp, now),
    }
}

/// The outcome of a write lock request of `agent_id` on `func_id` at time
/// `now` (lock lifetime `ttl`): the table from `before` to `after`, and
/// the grant, or the denial naming a holder.
pub open spec fn write_lock_outcome(before: Map<u32, LockView>, after: Map<u32, LockView>, ttl: u64, func_id: FunctionId, agent_id: AgentId, description: Option<Seq<char>>, now: u64, r: Result<LockGrant, LockError>) -> bool {
    let cur = entry_of(before, func_id.0);
    let exp = expiry_of(now, ttl);
    let granted = r matches Ok(g) && g.function_id == func_id && g.mode == LockMode::Write
        && g.expires_at@ == expiry_text(exp, now);
    &&& after == before.insert(
        func_id.0,
        write_next(cur, agent_id.0, description, now, exp),
    )
    &&& match cur {
        Some(LockView::Read { readers, .. }) => if sole_reader(readers, agent_id.0) {
            granted
        } else {
            r matches Err(LockError::AlreadyHeldBy(d)) && d.function_id == func_id
                && readers.dom().contains(d.holder_agent_id.0) && d.holder_name is None
                && d.holder_description is None && d.queue_position == 1
        },
        Some(LockView::Write { holder, name, description: held_desc, waiters, .. }) => if holder == agent_id.0 {
            granted
        } else {
            r matches Err(LockError::AlreadyHeldBy(d)) && d.function_id == func_id
                && d.holder_agent_id == AgentId(holder) && opt_view(d.holder_name) == name
                && opt_view(d.holder_description) == held_desc
                && d.queue_position == first_pos(add_waiter(waiters, agent_id.0), agent_id.0) + 1
        },
        _ => granted,
    }
}

proof fn lemma_first_pos_found(ws: Seq<u128>, a: u128)
    requires
        ws.contains(a),
    ensures
        first_pos(ws, a) < ws.len(),
        ws[first_pos(ws, a) as int] == a,
    decreases ws.len(),
{
    if ws[0] != a {
        let i = choose|i: int| 0 <= i < ws.len() && ws[i] == a;
        assert(ws.drop_first()[i - 1] == a);
        lemma_first_pos_found(ws.drop_first(), a);
    }
}

/// A read request on a function another agent writes is denied, naming
/// the writer; the writer keeps its lock, and the requester waits in the
/// writer's queue (once, at the position the denial reports), behind the
/// agents that were already waiting.
pub proof fn lemma_read_denied_beside_writer(
    before: Map<u32, LockView>,
    after: Map<u32, LockView>,
    ttl: u64,
    func_id: FunctionId,
    agent_id: AgentId,
    now: u64,
    r: Result<LockGrant, LockError>,
)
    requires
        read_lock_outcome(before, after, ttl, func_id, agent_id, now, r),
        entry_of(before, func_id.0) matches Some(LockView::Write { holder, .. }) && holder != agent_id.0,
    ensures
        ({
            let holder = entry_of(before, func_id.0)->0->holder;
            let waiting = entry_of(after, func_id.0)->0->waiters;
            &&& r matches Err(LockError::AlreadyHeldBy(d)) && d.function_id == func_id && d.holder_agent_id == AgentId(
                holder,
            ) && 1 <= d.queue_position <= waiting.len() && waiting[d.queue_position - 1] == agent_id.0
            &&& holds_write(entry_of(after, func_id.0), holder)
            &&& !holds(entry_of(after, func_id.0), agent_id.0)
            &&& waiting.contains(agent_id.0)
            &&& entry_of(before, func_id.0)->0->waiters.is_prefix_of(waiting)
        }),
{
    let ws = entry_of(before, func_id.0)->0->waiters;
    let w2 = add_waiter(ws, agent_id.0);
    assert(w2[w2.len() - 1] == agent_id.0 || ws.contains(agent_id.0));
    assert(w2.contains(agent_id.0));
    lemma_first_pos_found(w2, agent_id.0);
    assert(ws.is_prefix_of(w2)) by {
        if !ws.contains(agent_id.0) {
            assert(w2.subrange(0, ws.len() as int) =~= ws);
        }
    }
}

/// A read request on a function that is free or read-locked is granted: the
/// requester reads it, and every earlier reader still does.
pub proof fn lemma_read_granted_when_not_written(
    before: Map<u32, LockView>,
    after: Map<u32, LockView>,
    ttl: u64,
    func_id: FunctionId,
    agent_id: AgentId,
    now: u64,
    r: Result<LockGrant, LockError>,
)
    requires
        read_lock_outcome(before, after, ttl, func_id, agent_id, now, r),
        !(entry_of(before, func_id.0) is Some && entry_of(before, func_id.0)->0 is Write),
    ensures
        r matches Ok(g) && g.function_id == func_id && g.mode == LockMode::Read,
        holds(entry_of(after, func_id.0), agent_id.0),
        !(entry_of(after, func_id.0)->0 is Write),
        forall|a: u128| #[trigger] holds(entry_of(before, func_id.0), a) ==> holds(entry_of(after, func_id.0), a),
{
}

/// The writer of a function may also read it; the lock stays as it was.
pub proof fn lemma_writer_reads_own_lock(
    before: Map<u32, LockView>,
    after: Map<u32, LockView>,
    ttl: u64,
    func_id: FunctionId,
    agent_id: AgentId,
    now: u64,
    r: Result<LockGrant, LockError>,
)
    requires
        read_lock_outcome(before, after, ttl, func_id, agent_id, now, r),
        holds_write(entry_of(before, func_id.0), agent_id.0),
    ensures
        r matches Ok(g) && g.mode == LockMode::Read,
        after == before,
{
    assert(before.insert(func_id.0, before[func_id.0]) =~= before);
}

/// A write request on a function another agent writes is denied, naming
/// the writer, who keeps the lock; on a free function it is granted.
pub proof fn lemma_write_against_writer_or_free(
    before: Map<u32, LockView>,
    after: Map<u32, LockView>,
    ttl: u64,
    func_id: FunctionId,
    agent_id: AgentId,
    description: Option<Seq<char>>,
    now: u64,
    r: Result<LockGrant, LockError>,
)
    requires
        write_lock_outcome(before, after, ttl, func_id, agent_id, description, now, r),
    ensures
        (entry_of(before, func_id.0) matches Some(LockView::Write { holder, .. }) && holder != agent_id.0) ==> {
            let holder = entry_of(before, func_id.0)->0->holder;
            &&& r matches Err(LockError::AlreadyHeldBy(d)) && d.holder_agent_id == AgentId(holder)
            &&& holds_write(entry_of(after, func_id.0), holder)
        },
        entry_of(before, func_id.0) is None || entry_of(before, func_id.0) == Some(LockView::Unlocked) ==> {
            &&& r matches Ok(g) && g.mode == LockMode::Write && g.function_id == func_id
            &&& holds_write(entry_of(after, func_id.0), agent_id.0)
        },
        holds_write(entry_of(before, func_id.0), agent_id.0) ==> (r is Ok && holds_write(
            entry_of(after, func_id.0),
            agent_id.0,
        )),
{
}

/// A write request on a function that another agent reads is denied and
/// leaves the lock as it was: every reader keeps its read lock, and no
/// write lock ever joins another agent's read lock. The same request is a
/// denial inside a batch.
pub proof fn lemma_write_denied_beside_other_reader(
    before: Map<u32, LockView>,
    after: Map<u32, LockView>,
    ttl: u64,
    func_id: FunctionId,
    agent_id: AgentId,
    description: Option<Seq<char>>,
    now: u64,
    r: Result<LockGrant, LockError>,
    other: u128,
)
    requires
        write_lock_outcome(before, after, ttl, func_id, agent_id, description, now, r),
        entry_of(before, func_id.0) matches Some(LockView::Read { readers, .. }) && readers.dom().finite()
            && readers.dom().contains(other),
        other != agent_id.0,
    ensures
        r matches Err(LockError::AlreadyHeldBy(d)) && d.function_id == func_id && d.queue_position == 1,
        after == before,
        forall|a: u128| #[trigger] holds(entry_of(after, func_id.0), a) == holds(entry_of(before, func_id.0), a),
        !holds_write(entry_of(after, func_id.0), agent_id.0),
        write_denied(entry_of(before, func_id.0), agent_id.0),
{
    let cur = entry_of(before, func_id.0);
    let readers = cur->0->readers;
    assert(readers.dom().contains(agent_id.0) ==> readers.dom().len() >= 2) by {
        if readers.dom().contains(agent_id.0) {
            vstd::set_lib::lemma_len_subset(set![agent_id.0, other], readers.dom());
        }
    }
    assert(before.insert(func_id.0, before[func_id.0]) =~= before);
}

/// The sole reader of a function upgrades its read lock to a write lock.
pub proof fn lemma_sole_reader_upgrades(
    before: Map<u32, LockView>,
    after: Map<u32, LockView>,
    ttl: u64,
    func_id: FunctionId,
    agent_id: AgentId,
    description: Option<Seq<char>>,
    now: u64,
    r: Result<LockGrant, LockError>,
)
    requires
        write_lock_outcome(before, after, ttl, func_id, agent_id, description, now, r),
        entry_of(before, func_id.0) matches Some(LockView::Read { readers, .. }) && readers.dom() == set![agent_id.0],
    ensures
        r matches Ok(g) && g.mode == LockMode::Write && g.function_id == func_id,
        holds_write(entry_of(after, func_id.0), agent_id.0),
{
}


/// `r` lists the locked functions of table `t` as seen at time `now`.
pub open spec fn status_listing_at(t: Map<u32, LockView>, r: Seq<LockStatusEntry>, now: u64) -> bool {
    forall|i: int| 0 <= i < r.len() ==> t.contains_key((#[trigger] r[i]).function_id.0) && status_matches(r[i], t[r[i].function_id.0], now)
}

/// The outcome of a batch of write locks for `agent` on `function_ids`
/// at time `now` (with lock lifetime `ttl`), from the table `before` to
/// `after` with result `r`: the ids deduplicated and ascending, all granted
/// and held, or, at the first denial, the earlier ones released again and
/// reported with the denial.
pub open spec fn batch_write_outcome(
    before: Map<u32, LockView>,
    after: Map<u32, LockView>,
    ttl: u64,
    function_ids: Seq<FunctionId>,
    agent_id: AgentId,
    description: Option<Seq<char>>,
    now: u64,
    r: Result<Vec<LockGrant>, LockError>,
) -> bool {
    let fs = ascending(function_ids.map_values(|f: FunctionId| f.0).to_set());
    let exp = expiry_of(now, ttl);
    let b = batch_acquire(before, fs, agent_id.0, description, now, exp);
    &&& !b.2 ==> {
        &&& after == b.0
        &&& forall|i: int| 0 <= i < function_ids.len()
            ==> holds_write(entry_of(after, (#[trigger] function_ids[i]).0), agent_id.0)
        &&& r matches Ok(gs) && gs@.len() == fs.len() && forall|i: int| 0 <= i < fs.len()
            ==> (#[trigger] gs@[i]).function_id == FunctionId(fs[i]) && gs@[i].mode == LockMode::Write
            && gs@[i].expires_at@ == expiry_text(exp, now)
    }
    &&& b.2 ==> {
        &&& b.1 < fs.len()
        &&& after == release_each(b.0, fs.subrange(0, b.1 as int), agent_id.0)
        &&& forall|k: int| 0 <= k < b.1 ==> !holds(entry_of(after, #[trigger] fs[k]), agent_id.0)
        &&& r matches Err(LockError::BatchPartialFailure { acquired, failed })
            && acquired@.map_values(|f: FunctionId| f.0) == fs.subrange(0, b.1 as int)
            && failed.function_id == FunctionId(fs[b.1 as int])
    }
}

impl LockManager {
    /// Each function's lock state.
    pub closed spec fn table(&self) -> Map<u32, LockView> {
        lock_table_contents(self.function_locks).map_values(|s: FunctionLockState| lock_view(s))
    }

    /// The lifetime of newly taken locks, in milliseconds.
    pub closed spec fn ttl(&self) -> u64 {
        self.default_ttl
    }

    /// Every read lock has at least one reader.
    pub open spec fn wf(&self) -> bool {
        forall|f: u32| #[trigger] self.table().contains_key(f) ==> (self.table()[f] matches LockView::Read {
            readers,
            ..
        } ==> readers.dom().finite() && readers.dom().len() > 0)
    }

    /// A lock manager with no locks, whose locks live `default_ttl` ms.
    pub fn new(default_ttl: u64) -> (m: Self)
        ensures
            m.wf(),
            m.table() == Map::<u32, LockView>::empty(),
            m.ttl() == default_ttl,
    {
        let m = LockManager { function_locks: table_new(), default_ttl };
        proof {
            assert(m.table() =~= Map::<u32, LockView>::empty());
        }
        m
    }

    /// A lock manager whose locks live 30 minutes.
    pub fn with_default_ttl() -> (m: Self)
        ensures
            m.wf(),
            m.table() == Map::<u32, LockView>::empty(),
            m.ttl() == 1_800_000,
    {
        Self::new(1_800_000)
    }

    fn expiry(&self, now: u64) -> (r: u64)
        ensures
            r == expiry_of(now, self.ttl()),
    {
        self.default_ttl.saturating_add(now)
    }

    fn store(&mut self, f: u32, s: FunctionLockState)
        ensures
            final(self).table() == old(self).table().insert(f, lock_view(s)),
            final(self).ttl() == old(self).ttl(),
    {
        table_insert(&mut self.function_locks, f, s);
        proof {
            assert(self.table() =~= old(self).table().insert(f, lock_view(s)));
        }
    }

    fn drop_entry(&mut self, f: u32)
        ensures
            final(self).table() == old(self).table().remove(f),
            final(self).ttl() == old(self).ttl(),
    {
        table_remove(&mut self.function_locks, f);
        proof {
            assert(self.table() =~= old(self).table().remove(f));
        }
    }

    fn entry(&self, f: u32) -> (r: Option<FunctionLockState>)
        ensures
            match r {
                Some(s) => entry_of(self.table(), f) == Some(lock_view(s)),
                None => entry_of(self.table(), f) is None,
            },
    {
        table_get(&self.function_locks, f)
    }

    /// Read lock of `agent` on `func` at time `now`. Granted unless another
    /// agent holds the write lock; then the agent joins the waiters (once)
    /// and learns its 1-based queue position. A writer asking for a read
    /// lock is granted it without change.
    pub fn try_acquire_read_at(&mut self, agent_id: &AgentId, func_id: FunctionId, now: u64) -> (r: Result<LockGrant, LockError>)
        requires
            old(self).wf(),
        ensures
            final(self).wf(),
            final(self).ttl() == old(self).ttl(),
            read_lock_outcome(old(self).table(), final(self).table(), old(self).ttl(), func_id, *agent_id, now, r),
    {
        let exp = self.expiry(now);
        let f = func_id.0;
        let agent = *agent_id;
        match self.entry(f) {
            Some(FunctionLockState::ReadLocked { readers, expires_at }) => {
                let mut readers = readers;
                readers.insert(agent.0, exp);
                let e2 = if exp > expires_at { exp } else { expires_at };
                self.store(f, FunctionLockState::ReadLocked { readers, expires_at: e2 });
                Ok(LockGrant { function_id: func_id, mode: LockMode::Read, expires_at: format_expiry(exp, now) })
            },
            Some(FunctionLockState::WriteLocked { holder, waiters }) => {
                if holder.agent_id.0 == agent.0 {
                    proof {
                        assert(old(self).table().insert(f, read_next(entry_of(old(self).table(), f), agent.0, exp)) =~= old(self).table());
                    }
                    Ok(LockGrant {
                        function_id: func_id,
                        mode: LockMode::Read,
                        expires_at: format_expiry(holder.expires_at, now),
                    })
                } else {
                    let mut waiters = waiters;
                    let ghost ws = waiters@.map_values(|a: AgentId| a.0);
                    if !contains_agent(&waiters, agent) {
                        waiters.push(agent);
                        proof {
                            assert(waiters@.map_values(|a: AgentId| a.0) =~= ws.push(agent.0));
                        }
                    }
                    proof {
                        assert(waiters@.map_values(|a: AgentId| a.0) == add_waiter(ws, agent.0));
                        assert(add_waiter(ws, agent.0).contains(agent.0)) by {
                            if !ws.contains(agent.0) {
                                assert(ws.push(agent.0)[ws.len() as int] == agent.0);
                            }
                        }
                    }
                    let position = position_of(&waiters, agent);
                    let waiting = waiters.len();
                    assert(position < waiting);
                    let denial = LockDenial {
                        function_id: func_id,
                        holder_agent_id: holder.agent_id,
                        holder_name: clone_opt(&holder.agent_name),
                        holder_description: clone_opt(&holder.description),
                        queue_position: position + 1,
                    };
                    self.store(f, FunctionLockState::WriteLocked { holder, waiters });
                    Err(LockError::AlreadyHeldBy(denial))
                }
            },
            _ => {
                let mut readers: HashMap<u128, u64> = HashMap::new();
                readers.insert(agent.0, exp);
                proof {
                    assert(readers@ =~= map![agent.0 => exp]);
                    assert(readers@.dom() =~= set![agent.0]);
                }
                self.store(f, FunctionLockState::ReadLocked { readers, expires_at: exp });
                Ok(LockGrant { function_id: func_id, mode: LockMode::Read, expires_at: format_expiry(exp, now) })
            },
        }
    }

    fn any_reader(readers: &HashMap<u128, u64>) -> (r: u128)
        requires
            readers@.dom().len() > 0,
        ensures
            readers@.dom().contains(r),
    {
        let ghost elems = vstd::std_specs::hash::spec_keys_iter(readers).remaining();
        let mut chosen: u128 = 0;
        let mut found = false;
        for k in it: readers.keys()
            invariant
                it.seq() == elems,
                elems.unref().to_set() == readers@.dom(),
                elems.len() == readers@.dom().len(),
                found ==> readers@.dom().contains(chosen),
                it.index() > 0 ==> found,
        {
            if !found {
                proof {
                    assert(elems.unref().to_set().contains(*elems[it.index() as int]));
                }
                chosen = *k;
                found = true;
            }
        }
        chosen
    }

    /// Write lock of `agent` on `func` at time `now`. Granted on an unlocked
    /// function, to the sole reader (upgrade), and to the current writer
    /// (which refreshes the expiry, and the description when one is given).
    /// Denied while other readers hold the lock (naming one of them, queue
    /// position 1) or another agent writes (the agent joins the waiters).
    pub fn try_acquire_write_at(&mut self, agent_id: &AgentId, func_id: FunctionId, description: Option<String>, now: u64)
        -> (r: Result<LockGrant, LockError>)
        requires
            old(self).wf(),
        ensures
            final(self).wf(),
            final(self).ttl() == old(self).ttl(),
            write_lock_outcome(old(self).table(), final(self).table(), old(self).ttl(), func_id, *agent_id, opt_view(description), now, r),
    {
        let exp = self.expiry(now);
        let f = func_id.0;
        let agent = *agent_id;
        let ghost desc_view = opt_view(description);
        match self.entry(f) {
            Some(FunctionLockState::ReadLocked { readers, expires_at }) => {
                if readers.len() == 1 && readers.contains_key(&agent.0) {
                    let holder = LockHolderInfo { agent_id: agent, agent_name: None, description, acquired_at: now, expires_at: exp };
                    let no_waiters: Vec<AgentId> = Vec::new();
                    assert(no_waiters@.map_values(|a: AgentId| a.0) =~= Seq::<u128>::empty());
                    let state = FunctionLockState::WriteLocked { holder, waiters: no_waiters };
                    proof {
                        assert(lock_view(state) == fresh_write(agent.0, desc_view, now, exp));
                    }
                    self.store(f, state);
                    Ok(LockGrant { function_id: func_id, mode: LockMode::Write, expires_at: format_expiry(exp, now) })
                } else {
                    proof {
                        assert(old(self).table().insert(f, write_next(entry_of(old(self).table(), f), agent.0, desc_view, now, exp)) =~= old(self).table());
                    }
                    let holder_id = Self::any_reader(&readers);
                    Err(LockError::AlreadyHeldBy(LockDenial {
                        function_id: func_id,
                        holder_agent_id: AgentId(holder_id),
                        holder_name: None,
                        holder_description: None,
                        queue_position: 1,
                    }))
                }
            },
            Some(FunctionLockState::WriteLocked { holder, waiters }) => {
                if holder.agent_id.0 == agent.0 {
                    let mut holder = holder;
                    holder.expires_at = exp;
                    if description.is_some() {
                        holder.description = description;
                    }
                    self.store(f, FunctionLockState::WriteLocked { holder, waiters });
                    Ok(LockGrant { function_id: func_id, mode: LockMode::Write, expires_at: format_expiry(exp, now) })
                } else {
                    let mut waiters = waiters;
                    let ghost ws = waiters@.map_values(|a: AgentId| a.0);
                    if !contains_agent(&waiters, agent) {
                        waiters.push(agent);
                        proof {
                            assert(waiters@.map_values(|a: AgentId| a.0) =~= ws.push(agent.0));
                        }
                    }
                    proof {
                        assert(waiters@.map_values(|a: AgentId| a.0) == add_waiter(ws, agent.0));
                        assert(add_waiter(ws, agent.0).contains(agent.0)) by {
                            if !ws.contains(agent.0) {
                                assert(ws.push(agent.0)[ws.len() as int] == agent.0);
                            }
                        }
                    }
                    let position = position_of(&waiters, agent);
                    let waiting = waiters.len();
                    assert(position < waiting);
                    let denial = LockDenial {
                        function_id: func_id,
                        holder_agent_id: holder.agent_id,
                        holder_name: clone_opt(&holder.agent_name),
                        holder_description: clone_opt(&holder.description),
                        queue_position: position + 1,
                    };
                    self.store(f, FunctionLockState::WriteLocked { holder, waiters });
                    Err(LockError::AlreadyHeldBy(denial))
                }
            },
            _ => {
                let holder = LockHolderInfo { agent_id: agent, agent_name: None, description, acquired_at: now, expires_at: exp };
                let no_waiters: Vec<AgentId> = Vec::new();
                assert(no_waiters@.map_values(|a: AgentId| a.0) =~= Seq::<u128>::empty());
                let state = FunctionLockState::WriteLocked { holder, waiters: no_waiters };
                proof {
                    assert(lock_view(state) == fresh_write(agent.0, desc_view, now, exp));
                }
                self.store(f, state);
                Ok(LockGrant { function_id: func_id, mode: LockMode::Write, expires_at: format_expiry(exp, now) })
            },
        }
    }

    /// Releases the lock `agent` holds on `func`: a reader leaves the read
    /// lock (which disappears with its last reader); the writer drops the
    /// write lock and its waiters. Fails with `NotHeld`, changing nothing,
    /// when the agent holds no lock on the function.
    pub fn release(&mut self, agent_id: &AgentId, func_id: FunctionId) -> (r: Result<(), LockError>)
        requires
            old(self).wf(),
        ensures
            final(self).wf(),
            final(self).ttl() == old(self).ttl(),
            final(self).table() == released(old(self).table(), func_id.0, agent_id.0),
            r is Ok <==> holds(entry_of(old(self).table(), func_id.0), agent_id.0),
            r matches Err(e) ==> e matches LockError::NotHeld { function_id, agent_id: a } && function_id == func_id
                && a == *agent_id,
    {
        let f = func_id.0;
        let agent = *agent_id;
        match self.entry(f) {
            Some(FunctionLockState::ReadLocked { readers, expires_at }) => {
                if !readers.contains_key(&agent.0) {
                    return Err(LockError::NotHeld { function_id: func_id, agent_id: agent });
                }
                let mut readers = readers;
                readers.remove(&agent.0);
                if readers.is_empty() {
                    self.drop_entry(f);
                } else {
                    self.store(f, FunctionLockState::ReadLocked { readers, expires_at });
                }
                Ok(())
            },
            Some(FunctionLockState::WriteLocked { holder, .. }) => {
                if holder.agent_id.0 != agent.0 {
                    return Err(LockError::NotHeld { function_id: func_id, agent_id: agent });
                }
                self.drop_entry(f);
                Ok(())
            },
            _ => Err(LockError::NotHeld { function_id: func_id, agent_id: agent }),
        }
    }

    fn rollback(&mut self, agent_id: &AgentId, acquired: &Vec<FunctionId>)
        requires
            old(self).wf(),
        ensures
            final(self).wf(),
            final(self).ttl() == old(self).ttl(),
            final(self).table() == release_each(old(self).table(), acquired@.map_values(|f: FunctionId| f.0), agent_id.0),
    {
        let ghost fs = acquired@.map_values(|f: FunctionId| f.0);
        let mut j: usize = 0;
        proof {
            assert(fs.subrange(0, fs.len() as int) =~= fs);
        }
        while j < acquired.len()
            invariant
                self.wf(),
                self.ttl() == old(self).ttl(),
                fs == acquired@.map_values(|f: FunctionId| f.0),
                j <= acquired@.len(),
                release_each(self.table(), fs.subrange(j as int, fs.len() as int), agent_id.0)
                    == release_each(old(self).table(), fs, agent_id.0),
            decreases acquired@.len() - j,
        {
            let ghost before = self.table();
            let _ = self.release(agent_id, acquired[j]);
            proof {
                let rest = fs.subrange(j as int, fs.len() as int);
                assert(rest.drop_first() =~= fs.subrange(j + 1, fs.len() as int));
                assert(rest[0] == acquired@[j as int].0);
            }
            j = j + 1;
        }
        proof {
            assert(fs.subrange(fs.len() as int, fs.len() as int) =~= Seq::<u32>::empty());
        }
    }

    /// Write locks of `agent` on all of `function_ids` at time `now`, all or
    /// nothing. The ids are deduplicated and taken in ascending order (to
    /// avoid deadlocks); at the first denial every lock acquired so far is
    /// released again and `BatchPartialFailure` names them and the denial.
    pub fn batch_acquire_write_at(
        &mut self,
        agent_id: &AgentId,
        function_ids: &[FunctionId],
        description: Option<String>,
        now: u64,
    ) -> (r: Result<Vec<LockGrant>, LockError>)
        requires
            old(self).wf(),
        ensures
            final(self).wf(),
            final(self).ttl() == old(self).ttl(),
            batch_write_outcome(old(self).table(), final(self).table(), old(self).ttl(), function_ids@, *agent_id, opt_view(description), now, r),
    {
        let mut raw: Vec<u32> = Vec::new();
        let mut k: usize = 0;
        while k < function_ids.len()
            invariant
                k <= function_ids@.len(),
                raw@ == function_ids@.subrange(0, k as int).map_values(|f: FunctionId| f.0),
            decreases function_ids@.len() - k,
        {
            raw.push(function_ids[k].0);
            proof {
                assert(function_ids@.subrange(0, k + 1).map_values(|f: FunctionId| f.0)
                    =~= function_ids@.subrange(0, k as int).map_values(|f: FunctionId| f.0).push(function_ids@[k as int].0));
            }
            k = k + 1;
        }
        proof {
            assert(function_ids@.subrange(0, function_ids@.len() as int) =~= function_ids@);
        }
        let sorted = dedupe_u32(raw);
        let ghost fs = sorted@;
        proof {
            let s = function_ids@.map_values(|f: FunctionId| f.0).to_set();
            assert(strictly_increasing(fs) && fs.to_set() == s);
            assert(exists|q: Seq<u32>| strictly_increasing(q) && q.to_set() == s);
            lemma_ascending_unique(fs, ascending(s));
            assert(fs == ascending(s));
        }
        let exp = self.expiry(now);
        let ghost desc = opt_view(description);
        let ghost t0 = old(self).table();
        let mut grants: Vec<LockGrant> = Vec::new();
        let mut acquired: Vec<FunctionId> = Vec::new();
        let mut i: usize = 0;
        proof {
            assert(fs.subrange(0, fs.len() as int) =~= fs);
        }
        while i < sorted.len()
            invariant
                self.wf(),
                self.ttl() == old(self).ttl(),
                fs == sorted@,
                strictly_increasing(fs),
                fs == ascending(function_ids@.map_values(|x: FunctionId| x.0).to_set()),
                t0 == old(self).table(),
                exp == expiry_of(now, old(self).ttl()),
                desc == opt_view(description),
                i <= fs.len(),
                ({
                    let whole = batch_acquire(t0, fs, agent_id.0, desc, now, exp);
                    let part = batch_acquire(self.table(), fs.subrange(i as int, fs.len() as int), agent_id.0, desc, now, exp);
                    whole == (part.0, (part.1 + i) as nat, part.2)
                }),
                acquired@.map_values(|f: FunctionId| f.0) == fs.subrange(0, i as int),
                grants@.len() == i,
                forall|j: int| 0 <= j < i ==> (#[trigger] grants@[j]).function_id == FunctionId(fs[j])
                    && grants@[j].mode == LockMode::Write && grants@[j].expires_at@ == expiry_text(exp, now),
            decreases fs.len() - i,
        {
            let f = sorted[i];
            let ghost rest = fs.subrange(i as int, fs.len() as int);
            let ghost cur = entry_of(self.table(), f);
            let ghost t_before = self.table();
            proof {
                assert(rest[0] == f);
                assert(rest.drop_first() =~= fs.subrange(i + 1, fs.len() as int));
            }
            match self.try_acquire_write_at(agent_id, FunctionId(f), clone_opt(&description), now) {
                Ok(g) => {
                    proof {
                        assert(!write_denied(cur, agent_id.0));
                    }
                    grants.push(g);
                    let ghost acq_before = acquired@;
                    acquired.push(FunctionId(f));
                    proof {
                        assert(acquired@.map_values(|x: FunctionId| x.0) =~= acq_before.map_values(|x: FunctionId| x.0).push(f));
                        assert(fs.subrange(0, i + 1) =~= fs.subrange(0, i as int).push(f));
                    }
                },
                Err(LockError::AlreadyHeldBy(denial)) => {
                    proof {
                        assert(write_denied(cur, agent_id.0));
                        let part = batch_acquire(t_before, rest, agent_id.0, desc, now, exp);
                        assert(part == (self.table(), 0nat, true));
                        assert(denial.function_id == FunctionId(f));
                        let b = batch_acquire(t0, fs, agent_id.0, desc, now, exp);
                        assert(b == (self.table(), i as nat, true));
                    }
                    let ghost t_mid = self.table();
                    self.rollback(agent_id, &acquired);
                    proof {
                        let fs2 = ascending(function_ids@.map_values(|x: FunctionId| x.0).to_set());
                        assert(fs2 == fs);
                        let b = batch_acquire(old(self).table(), fs2, agent_id.0, opt_view(description), now, exp);
                        assert(b.1 == i);
                        assert(b.0 == t_mid);
                        assert(self.table() == release_each(b.0, fs.subrange(0, b.1 as int), agent_id.0));
                        let pre = fs.subrange(0, i as int);
                        assert(pre.no_duplicates()) by {
                            assert forall|x: int, y: int| 0 <= x < y < pre.len() implies pre[x] != pre[y] by {
                                assert(fs[x] < fs[y]);
                            }
                        }
                        assert forall|k: int| 0 <= k < b.1 implies !holds(entry_of(self.table(), #[trigger] fs[k]), agent_id.0) by {
                            assert(pre[k] == fs[k]);
                            lemma_release_each_frees(t_mid, pre, agent_id.0, fs[k]);
                        }
                    }
                    return Err(LockError::BatchPartialFailure { acquired, failed: denial });
                },
                Err(other) => {
                    proof {
                        assert(false);
                    }
                    self.rollback(agent_id, &acquired);
                    return Err(other);
                },
            }
            i = i + 1;
        }
        proof {
            assert(fs.subrange(fs.len() as int, fs.len() as int) =~= Seq::<u32>::empty());
            assert forall|i: int| 0 <= i < function_ids@.len()
                implies holds_write(entry_of(self.table(), (#[trigger] function_ids@[i]).0), agent_id.0) by {
                let x = function_ids@[i].0;
                assert(function_ids@.map_values(|y: FunctionId| y.0)[i] == x);
                assert(fs.to_set().contains(x));
                let k = choose|k: int| 0 <= k < fs.len() && fs[k] == x;
                lemma_batch_success_holds_all(t0, fs, agent_id.0, desc, now, exp, k);
            }
        }
        Ok(grants)
    }

    /// Checks that `agent` holds the write lock of every function in
    /// `function_ids`; fails with `NotHeld` for the first one it does not.
    pub fn verify_write_locks(&self, agent_id: &AgentId, function_ids: &[FunctionId]) -> (r: Result<(), LockError>)
        ensures
            r is Ok <==> forall|i: int| 0 <= i < function_ids@.len()
                ==> holds_write(entry_of(self.table(), (#[trigger] function_ids@[i]).0), agent_id.0),
            r matches Err(e) ==> e matches LockError::NotHeld { function_id, agent_id: a } && a == *agent_id
                && exists|i: int| 0 <= i < function_ids@.len() && function_ids@[i] == function_id
                    && !holds_write(entry_of(self.table(), function_id.0), agent_id.0)
                    && forall|j: int| 0 <= j < i ==> holds_write(entry_of(self.table(), (#[trigger] function_ids@[j]).0), agent_id.0),
    {
        let mut i: usize = 0;
        while i < function_ids.len()
            invariant
                i <= function_ids@.len(),
                forall|j: int| 0 <= j < i ==> holds_write(entry_of(self.table(), (#[trigger] function_ids@[j]).0), agent_id.0),
            decreases function_ids@.len() - i,
        {
            let f = function_ids[i];
            let ok = match self.entry(f.0) {
                Some(FunctionLockState::WriteLocked { holder, .. }) => holder.agent_id.0 == agent_id.0,
                _ => false,
            };
            if !ok {
                return Err(LockError::NotHeld { function_id: f, agent_id: *agent_id });
            }
            i = i + 1;
        }
        Ok(())
    }

    /// Releases every lock `agent` holds and returns the functions released
    /// (in the table's own order); afterwards the agent holds no lock.
    pub fn release_all(&mut self, agent_id: &AgentId) -> (r: Vec<FunctionId>)
        requires
            old(self).wf(),
        ensures
            final(self).wf(),
            final(self).ttl() == old(self).ttl(),
            r@.map_values(|f: FunctionId| f.0).no_duplicates(),
            r@.map_values(|f: FunctionId| f.0).to_set() == held_by(old(self).table(), agent_id.0),
            final(self).table() == release_each(old(self).table(), r@.map_values(|f: FunctionId| f.0), agent_id.0),
            forall|f: u32| !holds(#[trigger] entry_of(final(self).table(), f), agent_id.0),
    {
        let keys = table_keys(&self.function_locks);
        let ghost t0 = self.table();
        let mut held: Vec<FunctionId> = Vec::new();
        let mut i: usize = 0;
        while i < keys.len()
            invariant
                self.table() == t0,
                keys@.no_duplicates(),
                keys@.to_set() == t0.dom(),
                i <= keys@.len(),
                held@.map_values(|f: FunctionId| f.0).no_duplicates(),
                forall|x: u32| held@.map_values(|f: FunctionId| f.0).contains(x) <==> (keys@.subrange(0, i as int).contains(x)
                    && holds(entry_of(t0, x), agent_id.0)),
            decreases keys@.len() - i,
        {
            let f = keys[i];
            let is_held = match self.entry(f) {
                Some(FunctionLockState::ReadLocked { readers, .. }) => readers.contains_key(&agent_id.0),
                Some(FunctionLockState::WriteLocked { holder, .. }) => holder.agent_id.0 == agent_id.0,
                _ => false,
            };
            let ghost hv = held@.map_values(|g: FunctionId| g.0);
            proof {
                assert(keys@.subrange(0, i + 1) =~= keys@.subrange(0, i as int).push(f));
                assert(!keys@.subrange(0, i as int).contains(f)) by {
                    if keys@.subrange(0, i as int).contains(f) {
                        let k = choose|k: int| 0 <= k < i && keys@.subrange(0, i as int)[k] == f;
                        assert(keys@[k] == keys@[i as int]);
                    }
                }
            }
            proof {
                assert(is_held == holds(entry_of(t0, f), agent_id.0));
            }
            if is_held {
                held.push(FunctionId(f));
                proof {
                    assert(held@.map_values(|g: FunctionId| g.0) =~= hv.push(f));
                    assert forall|a: int, b: int| 0 <= a < b < hv.push(f).len() implies hv.push(f)[a] != hv.push(f)[b] by {
                        if b == hv.len() {
                            assert(hv.contains(hv[a]));
                        }
                    }
                }
            }
            proof {
                assert forall|x: u32| held@.map_values(|g: FunctionId| g.0).contains(x) <==> (keys@.subrange(0, i + 1).contains(x)
                    && holds(entry_of(t0, x), agent_id.0)) by {
                    lemma_push_contains(hv, f, x);
                    lemma_push_contains(keys@.subrange(0, i as int), f, x);
                }
            }
            i = i + 1;
        }
        proof {
            assert(keys@.subrange(0, keys@.len() as int) =~= keys@);
            let hv = held@.map_values(|g: FunctionId| g.0);
            assert(hv.to_set() =~= held_by(t0, agent_id.0)) by {
                assert forall|x: u32| held_by(t0, agent_id.0).contains(x) implies hv.to_set().contains(x) by {
                    assert(t0.contains_key(x));
                    assert(keys@.to_set().contains(x));
                }
            }
        }
        let ghost hv = held@.map_values(|g: FunctionId| g.0);
        let mut released_ids: Vec<FunctionId> = Vec::new();
        let mut j: usize = 0;
        proof {
            assert(hv.subrange(0, hv.len() as int) =~= hv);
        }
        while j < held.len()
            invariant
                self.wf(),
                self.ttl() == old(self).ttl(),
                hv == held@.map_values(|g: FunctionId| g.0),
                hv.no_duplicates(),
                forall|x: u32| hv.contains(x) ==> holds(entry_of(t0, x), agent_id.0),
                j <= held@.len(),
                released_ids@.map_values(|g: FunctionId| g.0) == hv.subrange(0, j as int),
                release_each(self.table(), hv.subrange(j as int, hv.len() as int), agent_id.0)
                    == release_each(t0, hv, agent_id.0),
                forall|k: int| j <= k < hv.len() ==> entry_of(self.table(), #[trigger] hv[k]) == entry_of(t0, hv[k]),
            decreases held@.len() - j,
        {
            let f = held[j];
            let ghost before = self.table();
            proof {
                assert(hv.contains(hv[j as int]));
            }
            let res = self.release(agent_id, f);
            proof {
                let rest = hv.subrange(j as int, hv.len() as int);
                assert(rest.drop_first() =~= hv.subrange(j + 1, hv.len() as int));
                assert(rest[0] == f.0);
                assert forall|k: int| j + 1 <= k < hv.len() implies entry_of(self.table(), #[trigger] hv[k]) == entry_of(t0, hv[k]) by {
                    assert(hv[k] != hv[j as int]);
                    lemma_released_elsewhere(before, f.0, agent_id.0, hv[k]);
                }
            }
            let ghost rv = released_ids@.map_values(|g: FunctionId| g.0);
            if res.is_ok() {
                released_ids.push(f);
            }
            proof {
                assert(released_ids@.map_values(|g: FunctionId| g.0) =~= rv.push(f.0));
                assert(hv.subrange(0, j + 1) =~= hv.subrange(0, j as int).push(f.0));
            }
            j = j + 1;
        }
        proof {
            assert(hv.subrange(hv.len() as int, hv.len() as int) =~= Seq::<u32>::empty());
            assert(released_ids@.map_values(|g: FunctionId| g.0) =~= hv);
            assert forall|f: u32| !holds(#[trigger] entry_of(self.table(), f), agent_id.0) by {
                lemma_release_all_frees_agent(t0, hv, agent_id.0, f);
            }
        }
        released_ids
    }

    fn reader_ids(readers: &HashMap<u128, u64>) -> (r: Vec<AgentId>)
        ensures
            r@.map_values(|a: AgentId| a.0).to_set() == readers@.dom(),
            r@.map_values(|a: AgentId| a.0).no_duplicates(),
    {
        let ghost elems = vstd::std_specs::hash::spec_keys_iter(readers).remaining();
        let mut out: Vec<AgentId> = Vec::new();
        for k in it: readers.keys()
            invariant
                it.seq() == elems,
                elems.unref().to_set() == readers@.dom(),
                elems.no_duplicates(),
                out@.map_values(|a: AgentId| a.0) == elems.unref().subrange(0, it.index() as int),
        {
            let ghost prev = out@.map_values(|a: AgentId| a.0);
            out.push(AgentId(*k));
            proof {
                assert(out@.map_values(|a: AgentId| a.0) =~= prev.push(*elems[it.index() as int]));
                assert(elems.unref().subrange(0, it.index() + 1) =~= elems.unref().subrange(0, it.index() as int).push(*elems[it.index() as int]));
            }
        }
        proof {
            assert(elems.unref().subrange(0, elems.len() as int) =~= elems.unref());
            assert(elems.unref().no_duplicates()) by {
                assert forall|a: int, b: int| 0 <= a < b < elems.len() implies elems.unref()[a] != elems.unref()[b] by {
                    assert(elems[a] != elems[b]);
                }
            }
        }
        out
    }

    /// The status of every locked function at time `now`, one entry each,
    /// in the table's own order.
    pub fn status_at(&self, now: u64) -> (r: Vec<LockStatusEntry>)
        ensures
            r@.map_values(|e: LockStatusEntry| e.function_id.0).no_duplicates(),
            forall|i: int| 0 <= i < r@.len() ==> self.table().contains_key((#[trigger] r@[i]).function_id.0)
                && status_matches(r@[i], self.table()[r@[i].function_id.0], now),
            forall|f: u32| #[trigger] self.table().contains_key(f) && !(self.table()[f] is Unlocked)
                ==> r@.map_values(|e: LockStatusEntry| e.function_id.0).contains(f),
    {
        let keys = table_keys(&self.function_locks);
        let mut out: Vec<LockStatusEntry> = Vec::new();
        let mut i: usize = 0;
        while i < keys.len()
            invariant
                keys@.no_duplicates(),
                keys@.to_set() == self.table().dom(),
                i <= keys@.len(),
                out@.map_values(|e: LockStatusEntry| e.function_id.0).no_duplicates(),
                forall|x: u32| out@.map_values(|e: LockStatusEntry| e.function_id.0).contains(x) ==> keys@.subrange(0, i as int).contains(x),
                forall|k: int| 0 <= k < i ==> (self.table().contains_key(#[trigger] keys@[k]) && !(self.table()[keys@[k]] is Unlocked))
                    ==> out@.map_values(|e: LockStatusEntry| e.function_id.0).contains(keys@[k]),
                forall|k: int| 0 <= k < out@.len() ==> self.table().contains_key((#[trigger] out@[k]).function_id.0)
                    && status_matches(out@[k], self.table()[out@[k].function_id.0], now),
            decreases keys@.len() - i,
        {
            let f = keys[i];
            let ghost ov = out@.map_values(|e: LockStatusEntry| e.function_id.0);
            proof {
                assert(keys@.to_set().contains(f));
                assert(keys@.subrange(0, i + 1) =~= keys@.subrange(0, i as int).push(f));
                assert(!keys@.subrange(0, i as int).contains(f)) by {
                    if keys@.subrange(0, i as int).contains(f) {
                        let k = choose|k: int| 0 <= k < i && keys@.subrange(0, i as int)[k] == f;
                        assert(keys@[k] == keys@[i as int]);
                    }
                }
            }
            let entry: Option<LockStatusEntry> = match self.entry(f) {
                Some(FunctionLockState::ReadLocked { readers, expires_at }) => Some(LockStatusEntry {
                    function_id: FunctionId(f),
                    state: String::from_str("read"),
                    holders: Self::reader_ids(&readers),
                    holder_description: None,
                    expires_at: Some(format_expiry(expires_at, now)),
                }),
                Some(FunctionLockState::WriteLocked { holder, .. }) => {
                    let mut holders: Vec<AgentId> = Vec::new();
                    holders.push(holder.agent_id);
                    proof {
                        assert(holders@ =~= seq![holder.agent_id]);
                    }
                    Some(LockStatusEntry {
                        function_id: FunctionId(f),
                        state: String::from_str("write"),
                        holders,
                        holder_description: clone_opt(&holder.description),
                        expires_at: Some(format_expiry(holder.expires_at, now)),
                    })
                },
                _ => None,
            };
            let ghost out_before = out@;
            match entry {
                Some(e) => {
                    out.push(e);
                    proof {
                        assert(out@.map_values(|e: LockStatusEntry| e.function_id.0) =~= ov.push(f));
                        assert forall|a: int, b: int| 0 <= a < b < ov.push(f).len() implies ov.push(f)[a] != ov.push(f)[b] by {
                            if b == ov.len() {
                                assert(ov.contains(ov[a]));
                            }
                        }
                    }
                },
                None => {},
            }
            proof {
                let nv = out@.map_values(|e: LockStatusEntry| e.function_id.0);
                assert forall|x: u32| nv.contains(x) implies keys@.subrange(0, i + 1).contains(x) by {
                    lemma_push_contains(keys@.subrange(0, i as int), f, x);
                    if nv != ov {
                        lemma_push_contains(ov, f, x);
                    }
                }
                assert forall|k: int| 0 <= k < i + 1 && (self.table().contains_key(#[trigger] keys@[k]) && !(self.table()[keys@[k]] is Unlocked))
                    implies nv.contains(keys@[k]) by {
                    if k < i {
                        assert(ov.contains(keys@[k]));
                        if nv != ov {
                            lemma_push_contains(ov, f, keys@[k]);
                        }
                    } else {
                        assert(entry is Some);
                        lemma_push_contains(ov, f, f);
                    }
                }
            }
            i = i + 1;
        }
        proof {
            assert(keys@.subrange(0, keys@.len() as int) =~= keys@);
            assert forall|f: u32| #[trigger] self.table().contains_key(f) && !(self.table()[f] is Unlocked)
                implies out@.map_values(|e: LockStatusEntry| e.function_id.0).contains(f) by {
                assert(keys@.to_set().contains(f));
                let k = choose|k: int| 0 <= k < keys@.len() && keys@[k] == f;
                assert(self.table().contains_key(keys@[k]));
            }
        }
        out
    }

    /// Removes every lock that has expired at time `now` and returns the
    /// functions freed, in the table's own order.
    pub fn sweep_expired_locks_at(&mut self, now: u64) -> (r: Vec<FunctionId>)
        requires
            old(self).wf(),
        ensures
            final(self).wf(),
            final(self).ttl() == old(self).ttl(),
            r@.map_values(|g: FunctionId| g.0).no_duplicates(),
            r@.map_values(|g: FunctionId| g.0).to_set() == expired_set(old(self).table(), now),
            final(self).table() == old(self).table().remove_keys(expired_set(old(self).table(), now)),
    {
        let keys = table_keys(&self.function_locks);
        let ghost t0 = self.table();
        let mut out: Vec<FunctionId> = Vec::new();
        let mut i: usize = 0;
        while i < keys.len()
            invariant
                self.wf(),
                self.ttl() == old(self).ttl(),
                t0 == old(self).table(),
                keys@.no_duplicates(),
                keys@.to_set() == t0.dom(),
                i <= keys@.len(),
                out@.map_values(|g: FunctionId| g.0).no_duplicates(),
                forall|x: u32| out@.map_values(|g: FunctionId| g.0).contains(x) <==> (keys@.subrange(0, i as int).contains(x)
                    && expired(t0[x], now)),
                self.table() == t0.remove_keys(out@.map_values(|g: FunctionId| g.0).to_set()),
            decreases keys@.len() - i,
        {
            let f = keys[i];
            let ghost ov = out@.map_values(|g: FunctionId| g.0);
            proof {
                assert(keys@.to_set().contains(f));
                assert(keys@.subrange(0, i + 1) =~= keys@.subrange(0, i as int).push(f));
                assert(!keys@.subrange(0, i as int).contains(f)) by {
                    if keys@.subrange(0, i as int).contains(f) {
                        let k = choose|k: int| 0 <= k < i && keys@.subrange(0, i as int)[k] == f;
                        assert(keys@[k] == keys@[i as int]);
                    }
                }
                assert(!ov.contains(f));
                assert(self.table().contains_key(f) && self.table()[f] == t0[f]);
            }
            let is_expired = match self.entry(f) {
                Some(FunctionLockState::ReadLocked { expires_at, .. }) => now >= expires_at,
                Some(FunctionLockState::WriteLocked { holder, .. }) => now >= holder.expires_at,
                _ => false,
            };
            proof {
                assert(is_expired == expired(t0[f], now));
            }
            if is_expired {
                let ghost tb = self.table();
                self.drop_entry(f);
                out.push(FunctionId(f));
                proof {
                    assert(out@.map_values(|g: FunctionId| g.0) =~= ov.push(f));
                    assert(ov.push(f).to_set() =~= ov.to_set().insert(f)) by {
                        assert forall|x: u32| ov.push(f).to_set().contains(x) <==> ov.to_set().insert(f).contains(x) by {
                            lemma_push_contains(ov, f, x);
                        }
                    }
                    assert(self.table() =~= t0.remove_keys(out@.map_values(|g: FunctionId| g.0).to_set()));
                    assert forall|a: int, b: int| 0 <= a < b < ov.push(f).len() implies ov.push(f)[a] != ov.push(f)[b] by {
                        if b == ov.len() {
                            assert(ov.contains(ov[a]));
                        }
                    }
                }
            }
            proof {
                if is_expired {
                    assert(out@.map_values(|g: FunctionId| g.0) =~= ov.push(f));
                } else {
                    assert(out@.map_values(|g: FunctionId| g.0) =~= ov);
                }
            }
            let ghost old_i = i;
            i = i + 1;
            proof {
                assert(keys@.subrange(0, i as int) =~= keys@.subrange(0, old_i as int).push(f));
                assert forall|x: u32| out@.map_values(|g: FunctionId| g.0).contains(x) <==> (keys@.subrange(0, i as int).contains(x)
                    && expired(t0[x], now)) by {
                    lemma_push_contains(ov, f, x);
                    lemma_push_contains(keys@.subrange(0, old_i as int), f, x);
                }
            }
        }
        proof {
            assert(keys@.subrange(0, keys@.len() as int) =~= keys@);
            assert(out@.map_values(|g: FunctionId| g.0).to_set() =~= expired_set(t0, now)) by {
                assert forall|x: u32| expired_set(t0, now).contains(x) implies out@.map_values(|g: FunctionId| g.0).contains(x) by {
                    assert(keys@.to_set().contains(x));
                }
            }
        }
        out
    }

    /// Read lock at the current time (see [`Self::try_acquire_read_at`]).
    pub fn try_acquire_read(&mut self, agent_id: &AgentId, func_id: FunctionId) -> (r: Result<LockGrant, LockError>)
        requires
            old(self).wf(),
        ensures
            final(self).wf(),
            final(self).ttl() == old(self).ttl(),
            r is Ok <==> !(entry_of(old(self).table(), func_id.0) matches Some(LockView::Write { holder, .. }) && holder != agent_id.0),
            r matches Ok(g) ==> g.function_id == func_id && g.mode == LockMode::Read,
            exists|now: u64| #[trigger] read_lock_outcome(old(self).table(), final(self).table(), old(self).ttl(), func_id, *agent_id, now, r),
    {
        let now = now_millis();
        let r = self.try_acquire_read_at(agent_id, func_id, now);
        proof {
            assert(read_lock_outcome(old(self).table(), self.table(), old(self).ttl(), func_id, *agent_id, now, r));
        }
        r
    }

    /// Write lock at the current time (see [`Self::try_acquire_write_at`]).
    pub fn try_acquire_write(&mut self, agent_id: &AgentId, func_id: FunctionId, description: Option<String>)
        -> (r: Result<LockGrant, LockError>)
        requires
            old(self).wf(),
        ensures
            final(self).wf(),
            final(self).ttl() == old(self).ttl(),
            r is Ok <==> !write_denied(entry_of(old(self).table(), func_id.0), agent_id.0),
            r matches Ok(g) ==> g.function_id == func_id && g.mode == LockMode::Write,
            r is Ok ==> holds_write(entry_of(final(self).table(), func_id.0), agent_id.0),
            exists|now: u64|
                #[trigger] write_lock_outcome(
                    old(self).table(),
                    final(self).table(),
                    old(self).ttl(),
                    func_id,
                    *agent_id,
                    opt_view(description),
                    now,
                    r,
                ),
    {
        let now = now_millis();
        let ghost d = opt_view(description);
        let r = self.try_acquire_write_at(agent_id, func_id, description, now);
        proof {
            assert(write_lock_outcome(old(self).table(), self.table(), old(self).ttl(), func_id, *agent_id, d, now, r));
        }
        r
    }

    /// All-or-nothing batch of write locks at the current time (see
    /// [`Self::batch_acquire_write_at`]).
    pub fn batch_acquire_write(&mut self, agent_id: &AgentId, function_ids: &[FunctionId], description: Option<String>)
        -> (r: Result<Vec<LockGrant>, LockError>)
        requires
            old(self).wf(),
        ensures
            final(self).wf(),
            final(self).ttl() == old(self).ttl(),
            exists|now: u64|
                #[trigger] batch_write_outcome(
                    old(self).table(),
                    final(self).table(),
                    old(self).ttl(),
                    function_ids@,
                    *agent_id,
                    opt_view(description),
                    now,
                    r,
                ),
    {
        let now = now_millis();
        let ghost d = opt_view(description);
        let r = self.batch_acquire_write_at(agent_id, function_ids, description, now);
        proof {
            assert(batch_write_outcome(old(self).table(), self.table(), old(self).ttl(), function_ids@, *agent_id, d, now, r));
        }
        r
    }

    /// The status of every locked function at the current time.
    pub fn status(&self) -> (r: Vec<LockStatusEntry>)
        ensures
            r@.map_values(|e: LockStatusEntry| e.function_id.0).no_duplicates(),
            forall|i: int| 0 <= i < r@.len() ==> self.table().contains_key((#[trigger] r@[i]).function_id.0),
            forall|f: u32| #[trigger] self.table().contains_key(f) && !(self.table()[f] is Unlocked)
                ==> r@.map_values(|e: LockStatusEntry| e.function_id.0).contains(f),
            exists|now: u64| #[trigger] status_listing_at(self.table(), r@, now),
    {
        let now = now_millis();
        let r = self.status_at(now);
        proof {
            assert(status_listing_at(self.table(), r@, now));
        }
        r
    }

    /// Removes the locks that have expired by the current time.
    pub fn sweep_expired_locks(&mut self) -> (r: Vec<FunctionId>)
        requires
            old(self).wf(),
        ensures
            final(self).wf(),
            final(self).ttl() == old(self).ttl(),
            r@.map_values(|f: FunctionId| f.0).no_duplicates(),
            exists|now: u64|
                r@.map_values(|g: FunctionId| g.0).to_set() == #[trigger] expired_set(old(self).table(), now)
                    && final(self).table() == old(self).table().remove_keys(expired_set(old(self).table(), now)),
    {
        let now = now_millis();
        let r = self.sweep_expired_locks_at(now);
        proof {
            assert(r@.map_values(|g: FunctionId| g.0).to_set() == expired_set(old(self).table(), now));
        }
        r
    }
}

} // verus!
