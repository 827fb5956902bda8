//! The connection tracker: a record for every forwarded stream, closed when
//! the stream ends and swept away a while after.

use vstd::prelude::*;

use crate::text::joined;

verus! {

/// How long, in milliseconds, a closed record is kept before the sweep drops it.
pub const CLOSED_RETENTION_MS: u64 = 4000;

/// Relies on `uuid::Uuid::new_v4` and `Uuid::as_u128`: a random version-4
/// UUID, whose version and variant bits are set, so it is never zero.
#[verifier::external_body]
fn new_connection_id() -> (r: u128)
    ensures
        r != 0,
{
    uuid::Uuid::new_v4().as_u128()
}

/// One forwarded stream. Times are milliseconds on the caller's clock.
pub struct ConnectionInfo {
    pub id: u128,
    pub method: String,
    pub target: String,
    /// The scheme of the route taken.
    pub route: String,
    pub opened_at: u64,
    pub closed_at: Option<u64>,
}

impl Clone for ConnectionInfo {
    fn clone(&self) -> (r: Self)
        ensures
            r == *self,
    {
        ConnectionInfo {
            id: self.id,
            method: self.method.clone(),
            target: self.target.clone(),
            route: self.route.clone(),
            opened_at: self.opened_at,
            closed_at: self.closed_at,
        }
    }
}

/// The record after `close(id)` at `now`: an open record with that id is
/// closed at `now`; any other record is unchanged.
pub open spec fn closed_if(r: ConnectionInfo, id: u128, now: u64) -> ConnectionInfo {
    if r.id == id && r.closed_at is None {
        ConnectionInfo { closed_at: Some(now), ..r }
    } else {
        r
    }
}

/// The records after `close(id)` at `now`.
pub open spec fn close_all(s: Seq<ConnectionInfo>, id: u128, now: u64) -> Seq<ConnectionInfo> {
    Seq::new(s.len(), |i: int| closed_if(s[i], id, now))
}

/// Whether the sweep at `now` keeps a record: open, or closed less than the
/// retention time ago (a close stamped after `now` counts as just now).
pub open spec fn kept_at(r: ConnectionInfo, now: u64) -> bool {
    match r.closed_at {
        None => true,
        Some(c) => now < c || now - c < CLOSED_RETENTION_MS,
    }
}

/// The records the sweep at `now` keeps, in order.
pub open spec fn kept_records(s: Seq<ConnectionInfo>, now: u64) -> Seq<ConnectionInfo>
    decreases s.len(),
{
    if s.len() == 0 {
        s
    } else if kept_at(s.last(), now) {
        kept_records(s.drop_last(), now).push(s.last())
    } else {
        kept_records(s.drop_last(), now)
    }
}

/// The open records, in order.
pub open spec fn open_records(s: Seq<ConnectionInfo>) -> Seq<ConnectionInfo>
    decreases s.len(),
{
    if s.len() == 0 {
        s
    } else if s.last().closed_at is None {
        open_records(s.drop_last()).push(s.last())
    } else {
        open_records(s.drop_last())
    }
}

impl ConnectionInfo {
    /// A new open record with a fresh random id.
    pub fn new(method: String, target: String, route: String, now: u64) -> (r: Self)
        ensures
            r.id != 0,
            r.method == method,
            r.target == target,
            r.route == route,
            r.opened_at == now,
            r.closed_at is None,
    {
        ConnectionInfo { id: new_connection_id(), method, target, route, opened_at: now, closed_at: None }
    }

    /// Marks the record closed at `now`, unless it was closed already.
    pub fn close(&mut self, now: u64)
        ensures
            *final(self) == closed_if(*old(self), old(self).id, now),
    {
        if self.closed_at.is_none() {
            self.closed_at = Some(now);
        }
    }

    /// The log line for the record: `{method} {target} (via {route})`.
    pub fn summary(&self) -> (r: String)
        ensures
            r@ == self.method@ + " "@ + self.target@ + " (via "@ + self.route@ + ")"@,
    {
        joined(self.method.as_str(), " ").concat(self.target.as_str()).concat(" (via ").concat(
            self.route.as_str(),
        ).concat(")")
    }
}

/// The records of the forwarded streams.
pub struct ConnectionTracker {
    connections: Vec<ConnectionInfo>,
}

impl ConnectionTracker {
    pub closed spec fn records(&self) -> Seq<ConnectionInfo> {
        self.connections@
    }

    pub fn new() -> (r: Self)
        ensures
            r.records().len() == 0,
    {
        ConnectionTracker { connections: Vec::new() }
    }

    /// How many records are held, open or closed.
    pub fn connection_count(&self) -> (r: usize)
        ensures
            r == self.records().len(),
    {
        self.connections.len()
    }

    /// Records a new stream.
    pub fn track_connection(&mut self, info: ConnectionInfo)
        ensures
            final(self).records() == old(self).records().push(info),
    {
        self.connections.push(info);
    }

    /// Closes the open record with this id at `now`; an unknown id changes nothing.
    pub fn close_connection(&mut self, id: u128, now: u64)
        ensures
            final(self).records() == close_all(old(self).records(), id, now),
    {
        let mut i: usize = 0;
        let ghost start = self.connections@;
        while i < self.connections.len()
            invariant
                i <= self.connections@.len(),
                self.connections@.len() == start.len(),
                forall|j: int| 0 <= j < i ==> #[trigger] self.connections@[j] == closed_if(start[j], id, now),
                forall|j: int| i <= j < start.len() ==> #[trigger] self.connections@[j] == start[j],
            decreases start.len() - i,
        {
            if self.connections[i].id == id && self.connections[i].closed_at.is_none() {
                let mut record = self.connections[i].clone();
                record.closed_at = Some(now);
                self.connections.set(i, record);
            }
            i += 1;
        }
        assert(self.connections@ =~= close_all(start, id, now));
    }

    /// A snapshot of the open records.
    pub fn get_active_connections(&self) -> (r: Vec<ConnectionInfo>)
        ensures
            r@ == open_records(self.records()),
    {
        let mut r: Vec<ConnectionInfo> = Vec::new();
        let mut i: usize = 0;
        while i < self.connections.len()
            invariant
                i <= self.connections@.len(),
                r@ == open_records(self.connections@.take(i as int)),
            decreases self.connections@.len() - i,
        {
            assert(self.connections@.take(i + 1).drop_last() =~= self.connections@.take(i as int));
            if self.connections[i].closed_at.is_none() {
                r.push(self.connections[i].clone());
            }
            i += 1;
        }
        assert(self.connections@.take(i as int) =~= self.connections@);
        r
    }

    /// Drops the records closed at least the retention time before `now`.
    pub fn sweep(&mut self, now: u64)
        ensures
            final(self).records() == kept_records(old(self).records(), now),
    {
        let mut kept: Vec<ConnectionInfo> = Vec::new();
        let mut i: usize = 0;
        while i < self.connections.len()
            invariant
                i <= self.connections@.len(),
                kept@ == kept_records(self.connections@.take(i as int), now),
            decreases self.connections@.len() - i,
        {
            assert(self.connections@.take(i + 1).drop_last() =~= self.connections@.take(i as int));
            let keep = match self.connections[i].closed_at {
                None => true,
                Some(c) => now < c || now - c < CLOSED_RETENTION_MS,
            };
            if keep {
                kept.push(self.connections[i].clone());
            }
            i += 1;
        }
        assert(self.connections@.take(i as int) =~= self.connections@);
        self.connections = kept;
    }
}

/// Closing an id that no record holds changes nothing, and closing an id a
/// second time changes nothing either.
pub proof fn lemma_close_idempotent(s: Seq<ConnectionInfo>, id: u128, first: u64, second: u64)
    ensures
        (forall|j: int| 0 <= j < s.len() ==> #[trigger] s[j].id != id) ==> close_all(s, id, first)
            == s,
        close_all(close_all(s, id, first), id, second) == close_all(s, id, first),
{
    assert((forall|j: int| 0 <= j < s.len() ==> #[trigger] s[j].id != id) ==> close_all(s, id, first)
        =~= s);
    assert(close_all(close_all(s, id, first), id, second) =~= close_all(s, id, first));
}

/// The sweep keeps every open record, and drops every record closed at
/// least the retention time ago.
pub proof fn lemma_sweep_bounds_closed(s: Seq<ConnectionInfo>, now: u64, r: ConnectionInfo)
    ensures
        s.contains(r) && r.closed_at is None ==> kept_records(s, now).contains(r),
        (r.closed_at matches Some(c) && c as int + CLOSED_RETENTION_MS as int <= now as int)
            ==> !kept_records(s, now).contains(r),
    decreases s.len(),
{
    if s.len() > 0 {
        lemma_sweep_bounds_closed(s.drop_last(), now, r);
        let p = kept_records(s.drop_last(), now);
        if s.contains(r) && r.closed_at is None {
            if s.last() == r {
                assert(kept_records(s, now) == p.push(r));
                assert(kept_records(s, now)[p.len() as int] == r);
            } else {
                let k = choose|k: int| 0 <= k < s.len() && s[k] == r;
                assert(s.drop_last()[k] == r);
                assert(p.contains(r));
                let m = choose|m: int| 0 <= m < p.len() && p[m] == r;
                if kept_at(s.last(), now) {
                    assert(kept_records(s, now)[m] == r);
                }
            }
        }
    }
}

/// A tracked record that is closed is closed at that time, and the first
/// sweep at least the retention time later drops it.
pub proof fn lemma_tracked_then_closed_is_swept(
    s: Seq<ConnectionInfo>,
    info: ConnectionInfo,
    closed: u64,
    later: u64,
)
    requires
        info.closed_at is None,
        closed as int + CLOSED_RETENTION_MS as int <= later as int,
    ensures
        close_all(s.push(info), info.id, closed).last() == closed_if(info, info.id, closed),
        closed_if(info, info.id, closed).closed_at == Some(closed),
        !kept_records(close_all(s.push(info), info.id, closed), later).contains(
            closed_if(info, info.id, closed),
        ),
{
    lemma_sweep_bounds_closed(
        close_all(s.push(info), info.id, closed),
        later,
        closed_if(info, info.id, closed),
    );
}

/// After `close(id)` no record with that id is still open.
pub proof fn lemma_close_leaves_none_open(s: Seq<ConnectionInfo>, id: u128, now: u64)
    ensures
        forall|j: int|
            0 <= j < s.len() && (#[trigger] close_all(s, id, now)[j]).id == id ==> close_all(
                s,
                id,
                now,
            )[j].closed_at is Some,
{
}

} // verus!
