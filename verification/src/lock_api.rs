//! The lock endpoints of the server: acquiring locks in a named mode,
//! releasing them, and listing the current locks, over the lock manager.

use vstd::prelude::*;
use crate::clock::now_millis;
use crate::api_error::ApiError;
use crate::ids::FunctionId;
use crate::lock_manager::{
    ascending, batch_acquire, entry_of, expiry_of, expiry_text, holds, holds_write, read_next, release_each, released,
    write_denied, write_next, AgentId, LockError, LockGrant, LockManager, LockMode, LockStatusEntry, LockView,
};
use crate::text::opt_view;
use crate::schema::{AcquireLockResponse, LockGrantView, LockStatusResponse, LockStatusView, ReleaseLockResponse};
use crate::text::{cat, cat3, clone_opt, decimal_seq, int_decimal, i64_to_decimal, str_eq, u64_to_decimal, uuid_text};

verus! {

/// Unicode lower-casing of a text, as `str::to_lowercase` computes it.
pub uninterp spec fn unicode_lowercase(s: Seq<char>) -> Seq<char>;

/// `str::to_lowercase`: the text in lower case, by the Unicode tables; the
/// result depends on the text alone.
#[verifier::external_body]
pub(crate) fn to_lowercase(s: &str) -> (r: String)
    ensures
        r@ == unicode_lowercase(s@),
{
    s.to_lowercase()
}

/// The text of the error when a request names a program other than the
/// active one.
pub open spec fn inactive_program_text(program_id: i64, active_id: i64) -> Seq<char> {
    "program "@ + int_decimal(program_id as int) + " is not the active program (active: "@ + int_decimal(
        active_id as int,
    ) + ")"@
}

/// Requests must name the active program.
pub fn active_program_check(program_id: i64, active_id: i64) -> (r: Result<(), ApiError>)
    ensures
        program_id == active_id <==> r is Ok,
        r matches Err(e) ==> e matches ApiError::BadRequest(m) && m@ == inactive_program_text(program_id, active_id),
{
    if active_id != program_id {
        let mut m = cat("program ", i64_to_decimal(program_id).as_str());
        m.append(" is not the active program (active: ");
        m.append(i64_to_decimal(active_id).as_str());
        m.append(")");
        return Err(ApiError::BadRequest(m));
    }
    Ok(())
}

/// The API view of granted locks, in order.
pub fn grant_views(grants: Vec<LockGrant>) -> (r: Vec<LockGrantView>)
    ensures
        r@.len() == grants@.len(),
        forall|i: int| 0 <= i < grants@.len() ==> (#[trigger] r@[i]).function_id == grants@[i].function_id.0
            && r@[i].mode@ == (if grants@[i].mode == LockMode::Read { "read"@ } else { "write"@ })
            && r@[i].expires_at == grants@[i].expires_at,
{
    let mut out: Vec<LockGrantView> = Vec::new();
    for i in 0..grants.len()
        invariant
            out@.len() == i,
            forall|j: int| 0 <= j < i ==> (#[trigger] out@[j]).function_id == grants@[j].function_id.0
                && out@[j].mode@ == (if grants@[j].mode == LockMode::Read { "read"@ } else { "write"@ })
                && out@[j].expires_at == grants@[j].expires_at,
    {
        let g = &grants[i];
        let mode = match g.mode {
            LockMode::Read => String::from_str("read"),
            LockMode::Write => String::from_str("write"),
        };
        out.push(LockGrantView { function_id: g.function_id.0, mode, expires_at: g.expires_at.clone() });
    }
    out
}

/// The lock table after releasing the first `k` of `ids` one by one,
/// stopping at the first that `agent` does not hold, and the position of
/// that one.
pub open spec fn release_run(t: Map<u32, LockView>, ids: Seq<u32>, agent: u128, k: nat) -> (Map<u32, LockView>, Option<int>)
    decreases k,
{
    if k == 0 {
        (t, None)
    } else {
        let (t1, f) = release_run(t, ids, agent, (k - 1) as nat);
        if f is Some {
            (t1, f)
        } else if holds(entry_of(t1, ids[k - 1]), agent) {
            (released(t1, ids[k - 1], agent), None)
        } else {
            (released(t1, ids[k - 1], agent), Some(k - 1))
        }
    }
}

/// Releases the given locks in order. At the first lock the agent does not
/// hold, it stops with that error; the locks before it stay released.
pub fn release_locks(m: &mut LockManager, agent_id: &AgentId, function_ids: Vec<u32>) -> (r: Result<ReleaseLockResponse, ApiError>)
    requires
        old(m).wf(),
    ensures
        final(m).wf(),
        final(m).ttl() == old(m).ttl(),
        ({
            let run = release_run(old(m).table(), function_ids@, agent_id.0, function_ids@.len());
            &&& final(m).table() == run.0
            &&& match run.1 {
                None => r matches Ok(resp) && resp.released@ == function_ids@,
                Some(k) => r matches Err(ApiError::BadRequest(msg)) && msg@ == "agent "@ + uuid_text(agent_id.0)
                    + " does not hold lock on function "@ + decimal_seq(function_ids@[k] as nat),
            }
        }),
{
    let ghost t0 = m.table();
    let n = function_ids.len();
    let mut released_ids: Vec<u32> = Vec::new();
    let mut i: usize = 0;
    while i < n
        invariant
            n == function_ids@.len(),
            i <= n,
            m.wf(),
            m.ttl() == old(m).ttl(),
            t0 == old(m).table(),
            release_run(t0, function_ids@, agent_id.0, i as nat) == (m.table(), None::<int>),
            released_ids@ == function_ids@.subrange(0, i as int),
        decreases n - i,
    {
        let f = function_ids[i];
        match m.release(agent_id, FunctionId(f)) {
            Ok(()) => {
                released_ids.push(f);
                assert(released_ids@ =~= function_ids@.subrange(0, i + 1));
            },
            Err(e) => {
                proof {
                    assert forall|k: nat| i + 1 <= k <= n implies #[trigger] release_run(t0, function_ids@, agent_id.0, k)
                        == (m.table(), Some(i as int)) by {
                        lemma_release_run_stays(t0, function_ids@, agent_id.0, (i + 1) as nat, k, i as int);
                    }
                }
                return Err(ApiError::from_lock_error(e));
            },
        }
        i = i + 1;
    }
    assert(released_ids@ =~= function_ids@);
    Ok(ReleaseLockResponse { released: released_ids })
}

proof fn lemma_release_run_stays(t: Map<u32, LockView>, ids: Seq<u32>, agent: u128, j: nat, k: nat, at: int)
    requires
        j <= k,
        release_run(t, ids, agent, j).1 == Some(at),
    ensures
        release_run(t, ids, agent, k) == release_run(t, ids, agent, j),
    decreases k - j,
{
    if k > j {
        lemma_release_run_stays(t, ids, agent, j, (k - 1) as nat, at);
    }
}

/// The expiry a read grant reports: that of the agent's own write lock
/// when it holds one, else the new expiry.
pub open spec fn read_grant_expiry(cur: Option<LockView>, agent: u128, exp: u64) -> u64 {
    match cur {
        Some(LockView::Write { holder, expires_at, .. }) => if holder == agent { expires_at } else { exp },
        _ => exp,
    }
}

/// Whether a read request on entry `cur` is denied: another agent holds the
/// write lock.
pub open spec fn read_denied(cur: Option<LockView>, agent: u128) -> bool {
    cur matches Some(LockView::Write { holder, .. }) && holder != agent
}

/// The lock table after asking for read locks on the first `k` of `ids`
/// one by one, stopping at the first denied one, and its position.
pub open spec fn read_run(t: Map<u32, LockView>, ids: Seq<u32>, agent: u128, exp: u64, k: nat) -> (Map<u32, LockView>, Option<int>)
    decreases k,
{
    if k == 0 {
        (t, None)
    } else {
        let (t1, f) = read_run(t, ids, agent, exp, (k - 1) as nat);
        if f is Some {
            (t1, f)
        } else {
            let cur = entry_of(t1, ids[k - 1]);
            let t2 = t1.insert(ids[k - 1], read_next(cur, agent, exp));
            if read_denied(cur, agent) {
                (t2, Some(k - 1))
            } else {
                (t2, None)
            }
        }
    }
}

proof fn lemma_read_run_stays(t: Map<u32, LockView>, ids: Seq<u32>, agent: u128, exp: u64, j: nat, k: nat, at: int)
    requires
        j <= k,
        read_run(t, ids, agent, exp, j).1 == Some(at),
    ensures
        read_run(t, ids, agent, exp, k) == read_run(t, ids, agent, exp, j),
    decreases k - j,
{
    if k > j {
        lemma_read_run_stays(t, ids, agent, exp, j, (k - 1) as nat, at);
    }
}

/// Read locks on the given functions in order, at time `now`. At the
/// first denied one it stops with that error; the locks before it stay.
pub fn acquire_reads_at(m: &mut LockManager, agent_id: &AgentId, function_ids: &Vec<u32>, now: u64)
    -> (r: Result<Vec<LockGrant>, LockError>)
    requires
        old(m).wf(),
    ensures
        final(m).wf(),
        final(m).ttl() == old(m).ttl(),
        ({
            let exp = expiry_of(now, old(m).ttl());
            let t0 = old(m).table();
            let run = read_run(t0, function_ids@, agent_id.0, exp, function_ids@.len());
            &&& final(m).table() == run.0
            &&& match run.1 {
                None => r matches Ok(gs) && gs@.len() == function_ids@.len() && forall|i: int|
                    0 <= i < function_ids@.len() ==> (#[trigger] gs@[i]).function_id == FunctionId(function_ids@[i])
                        && gs@[i].mode == LockMode::Read && gs@[i].expires_at@ == expiry_text(
                        read_grant_expiry(
                            entry_of(read_run(t0, function_ids@, agent_id.0, exp, i as nat).0, function_ids@[i]),
                            agent_id.0,
                            exp,
                        ),
                        now,
                    ),
                Some(k) => r matches Err(LockError::AlreadyHeldBy(d)) && d.function_id == FunctionId(function_ids@[k])
                    && (entry_of(read_run(t0, function_ids@, agent_id.0, exp, k as nat).0, function_ids@[k]) matches Some(
                    LockView::Write { holder, .. },
                ) && d.holder_agent_id == AgentId(holder)),
            }
        }),
{
    let ghost t0 = m.table();
    let ghost exp = expiry_of(now, m.ttl());
    let n = function_ids.len();
    let mut grants: Vec<LockGrant> = Vec::new();
    let mut i: usize = 0;
    while i < n
        invariant
            n == function_ids@.len(),
            i <= n,
            m.wf(),
            m.ttl() == old(m).ttl(),
            t0 == old(m).table(),
            exp == expiry_of(now, old(m).ttl()),
            read_run(t0, function_ids@, agent_id.0, exp, i as nat) == (m.table(), None::<int>),
            grants@.len() == i,
            forall|j: int| 0 <= j < i ==> (#[trigger] grants@[j]).function_id == FunctionId(function_ids@[j])
                && grants@[j].mode == LockMode::Read && grants@[j].expires_at@ == expiry_text(
                read_grant_expiry(
                    entry_of(read_run(t0, function_ids@, agent_id.0, exp, j as nat).0, function_ids@[j]),
                    agent_id.0,
                    exp,
                ),
                now,
            ),
        decreases n - i,
    {
        let f = function_ids[i];
        match m.try_acquire_read_at(agent_id, FunctionId(f), now) {
            Ok(g) => {
                grants.push(g);
            },
            Err(e) => {
                proof {
                    assert forall|k: nat| i + 1 <= k <= n implies #[trigger] read_run(t0, function_ids@, agent_id.0, exp, k)
                        == (m.table(), Some(i as int)) by {
                        lemma_read_run_stays(t0, function_ids@, agent_id.0, exp, (i + 1) as nat, k, i as int);
                    }
                }
                return Err(e);
            },
        }
        i = i + 1;
    }
    Ok(grants)
}


/// The text of the error for a lock mode other than `read` or `write`.
pub open spec fn invalid_mode_text(mode: Seq<char>) -> Seq<char> {
    "invalid lock mode '"@ + mode + "': expected 'read' or 'write'"@
}

/// The outcome of acquiring locks on `function_ids` for `agent_id` at time
/// `now` in mode `mode` (lower-cased), with lock lifetime `ttl`: from the
/// table `before` to `after`, with result `r` (see [`acquire_locks_at`]).
pub open spec fn acquire_outcome(
    before: Map<u32, LockView>,
    after: Map<u32, LockView>,
    ttl: u64,
    function_ids: Seq<u32>,
    agent_id: AgentId,
    mode: Seq<char>,
    description: Option<Seq<char>>,
    now: u64,
    r: Result<AcquireLockResponse, ApiError>,
) -> bool {
    let t0 = before;
    let ids = function_ids;
    let exp = expiry_of(now, ttl);
    if mode == "read"@ {
        let run = read_run(t0, ids, agent_id.0, exp, ids.len());
        &&& after == run.0
        &&& (r is Ok <==> run.1 is None)
        &&& r matches Ok(resp) ==> resp.grants@.len() == ids.len() && forall|i: int| 0 <= i < ids.len()
            ==> (#[trigger] resp.grants@[i]).function_id == ids[i] && resp.grants@[i].mode@ == "read"@
        &&& run.1 matches Some(k) ==> (r matches Err(ApiError::LockDenied(d)) && d.function_id.0 == ids[k])
    } else if mode == "write"@ && ids.len() <= 1 {
        if ids.len() == 0 {
            &&& after == t0
            &&& r matches Ok(resp) && resp.grants@.len() == 0
        } else {
            let cur = entry_of(t0, ids[0]);
            &&& after == t0.insert(ids[0], write_next(cur, agent_id.0, description, now, exp))
            &&& (r is Ok <==> !write_denied(cur, agent_id.0))
            &&& r matches Ok(resp) ==> resp.grants@.len() == 1 && resp.grants@[0].function_id == ids[0]
                && resp.grants@[0].mode@ == "write"@
            &&& r is Ok ==> holds_write(entry_of(after, ids[0]), agent_id.0)
            &&& r is Err ==> (r matches Err(ApiError::LockDenied(d)) && d.function_id.0 == ids[0])
        }
    } else if mode == "write"@ {
        let fs = ascending(ids.to_set());
        let b = batch_acquire(t0, fs, agent_id.0, description, now, exp);
        &&& (r is Ok <==> !b.2)
        &&& r matches Ok(resp) ==> after == b.0 && resp.grants@.len() == fs.len() && (forall|i: int|
            0 <= i < fs.len() ==> (#[trigger] resp.grants@[i]).function_id == fs[i] && resp.grants@[i].mode@
                == "write"@) && forall|i: int| 0 <= i < ids.len() ==> holds_write(
            entry_of(after, #[trigger] ids[i]),
            agent_id.0,
        )
        &&& r is Err ==> (r matches Err(ApiError::LockDenied(d)) && d.function_id.0 == fs[b.1 as int])
        &&& r is Err ==> after == release_each(b.0, fs.subrange(0, b.1 as int), agent_id.0)
    } else {
        &&& after == t0
        &&& r matches Err(ApiError::BadRequest(msg)) && msg@ == invalid_mode_text(mode)
    }
}

/// Acquires locks on `function_ids` at time `now` in the (lower-cased)
/// mode `mode`: read locks one by one; a single write lock directly; write
/// locks on several functions all together or none. Any other mode is a
/// bad request that changes nothing.
pub fn acquire_locks_at(
    m: &mut LockManager,
    agent_id: &AgentId,
    function_ids: Vec<u32>,
    mode: &str,
    description: Option<String>,
    now: u64,
) -> (r: Result<AcquireLockResponse, ApiError>)
    requires
        old(m).wf(),
    ensures
        final(m).wf(),
        final(m).ttl() == old(m).ttl(),
        acquire_outcome(old(m).table(), final(m).table(), old(m).ttl(), function_ids@, *agent_id, mode@, opt_view(description), now, r),
{
    proof {
        reveal_strlit("read");
        reveal_strlit("write");
        assert("read"@[0] != "write"@[0]);
    }
    let n = function_ids.len();
    if str_eq(mode, "write") {
        if n > 1 {
            let mut fids: Vec<FunctionId> = Vec::new();
            for i in 0..n
                invariant
                    n == function_ids@.len(),
                    fids@.len() == i,
                    forall|j: int| 0 <= j < i ==> (#[trigger] fids@[j]).0 == function_ids@[j],
            {
                fids.push(FunctionId(function_ids[i]));
            }
            assert(fids@.map_values(|f: FunctionId| f.0) =~= function_ids@);
            match m.batch_acquire_write_at(agent_id, fids.as_slice(), description, now) {
                Ok(grants) => {
                    let views = grant_views(grants);
                    proof {
                        assert forall|i: int| 0 <= i < function_ids@.len() implies holds_write(
                            entry_of(m.table(), #[trigger] function_ids@[i]),
                            agent_id.0,
                        ) by {
                            assert(fids@[i].0 == function_ids@[i]);
                        }
                    }
                    Ok(AcquireLockResponse { grants: views })
                },
                Err(e) => Err(ApiError::from_lock_error(e)),
            }
        } else {
            let mut grants: Vec<LockGrant> = Vec::new();
            if n == 1 {
                match m.try_acquire_write_at(agent_id, FunctionId(function_ids[0]), description, now) {
                    Ok(g) => grants.push(g),
                    Err(e) => return Err(ApiError::from_lock_error(e)),
                }
            }
            Ok(AcquireLockResponse { grants: grant_views(grants) })
        }
    } else if str_eq(mode, "read") {
        match acquire_reads_at(m, agent_id, &function_ids, now) {
            Ok(grants) => Ok(AcquireLockResponse { grants: grant_views(grants) }),
            Err(e) => Err(ApiError::from_lock_error(e)),
        }
    } else {
        Err(ApiError::BadRequest(cat3("invalid lock mode '", mode, "': expected 'read' or 'write'")))
    }
}

/// Acquires locks at the current time, in the mode named by `mode` in any
/// letter case (see [`acquire_locks_at`], which receives the mode
/// lower-cased).
pub fn acquire_locks(m: &mut LockManager, agent_id: &AgentId, function_ids: Vec<u32>, mode: &str, description: Option<String>)
    -> (r: Result<AcquireLockResponse, ApiError>)
    requires
        old(m).wf(),
    ensures
        final(m).wf(),
        final(m).ttl() == old(m).ttl(),
        !(unicode_lowercase(mode@) == "read"@ || unicode_lowercase(mode@) == "write"@) ==> final(m).table() == old(
            m,
        ).table(),
        !(unicode_lowercase(mode@) == "read"@ || unicode_lowercase(mode@) == "write"@) ==> (r matches Err(
            ApiError::BadRequest(msg),
        ) && msg@ == invalid_mode_text(unicode_lowercase(mode@))),
        unicode_lowercase(mode@) == "read"@ ==> (r matches Ok(resp) ==> resp.grants@.len() == function_ids@.len()
            && forall|i: int| 0 <= i < function_ids@.len() ==> (#[trigger] resp.grants@[i]).function_id
                == function_ids@[i] && resp.grants@[i].mode@ == "read"@),
        unicode_lowercase(mode@) == "write"@ ==> (r is Ok ==> forall|i: int| 0 <= i < function_ids@.len()
            ==> holds_write(entry_of(final(m).table(), #[trigger] function_ids@[i]), agent_id.0)),
        exists|now: u64|
            #[trigger] acquire_outcome(
                old(m).table(),
                final(m).table(),
                old(m).ttl(),
                function_ids@,
                *agent_id,
                unicode_lowercase(mode@),
                opt_view(description),
                now,
                r,
            ),
{
    let lowered = to_lowercase(mode);
    let now = now_millis();
    let ghost ids = function_ids@;
    let ghost d = opt_view(description);
    let r = acquire_locks_at(m, agent_id, function_ids, lowered.as_str(), description, now);
    proof {
        assert(acquire_outcome(old(m).table(), m.table(), old(m).ttl(), ids, *agent_id, unicode_lowercase(mode@), d, now, r));
        reveal_strlit("read");
        reveal_strlit("write");
        assert("read"@[0] != "write"@[0]);
        if lowered@ == "write"@ && r is Ok && ids.len() == 1 {
            assert forall|i: int| 0 <= i < ids.len() implies holds_write(
                entry_of(m.table(), #[trigger] ids[i]),
                agent_id.0,
            ) by {
                assert(i == 0);
            }
        }
    }
    r
}

/// The API view of the current locks; holders are shown as UUIDs.
pub fn lock_status_view(entries: Vec<LockStatusEntry>) -> (r: LockStatusResponse)
    ensures
        r.locks@.len() == entries@.len(),
        forall|i: int| 0 <= i < entries@.len() ==> {
            let v = #[trigger] r.locks@[i];
            let e = entries@[i];
            &&& v.function_id == e.function_id.0
            &&& v.state == e.state
            &&& v.holder_description == e.holder_description
            &&& v.expires_at == e.expires_at
            &&& v.holders@.len() == e.holders@.len()
            &&& forall|j: int| 0 <= j < e.holders@.len() ==> (#[trigger] v.holders@[j])@ == uuid_text(e.holders@[j].0)
        },
{
    let mut locks: Vec<LockStatusView> = Vec::new();
    for i in 0..entries.len()
        invariant
            locks@.len() == i,
            forall|k: int| 0 <= k < i ==> {
                let v = #[trigger] locks@[k];
                let e = entries@[k];
                &&& v.function_id == e.function_id.0
                &&& v.state == e.state
                &&& v.holder_description == e.holder_description
                &&& v.expires_at == e.expires_at
                &&& v.holders@.len() == e.holders@.len()
                &&& forall|j: int| 0 <= j < e.holders@.len() ==> (#[trigger] v.holders@[j])@ == uuid_text(e.holders@[j].0)
            },
    {
        let e = &entries[i];
        let mut holders: Vec<String> = Vec::new();
        for j in 0..e.holders.len()
            invariant
                holders@.len() == j,
                forall|q: int| 0 <= q < j ==> (#[trigger] holders@[q])@ == uuid_text(e.holders@[q].0),
        {
            holders.push(e.holders[j].to_string());
        }
        locks.push(LockStatusView {
            function_id: e.function_id.0,
            state: e.state.clone(),
            holders,
            holder_description: clone_opt(&e.holder_description),
            expires_at: clone_opt(&e.expires_at),
        });
    }
    LockStatusResponse { locks }
}

} // verus!
