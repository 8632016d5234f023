//! Events streamed to the UI, and the rolling history of the events
//! published so far.
//!
//! Every published event is stamped and kept in a history of bounded
//! capacity: once it is full, the oldest entry leaves as the new one comes.
//! New clients read the history, either its latest entries or the entries
//! stamped before a given time.
use vstd::prelude::*;

use crate::interfaces::chars_lt;
use crate::text::{chars_to_string, str_chars};

verus! {

/// External events that can be broadcast to UI clients.
#[derive(Debug, Clone)]
pub enum ExternalEvent {
    /// A watched config file was modified externally.
    ConfigChanged { path: String },
    /// An SMF service transitioned to online state.
    ServiceStarted { fmri: String },
    /// An SMF service transitioned to offline/disabled state.
    ServiceStopped { fmri: String },
    /// An SMF service entered maintenance state.
    ServiceFailed { fmri: String },
    /// A new ZFS dataset was created.
    DatasetCreated { name: String },
    /// A ZFS dataset was destroyed.
    DatasetDestroyed { name: String },
    /// A network link came up.
    LinkUp { name: String },
    /// A network link went down.
    LinkDown { name: String },
    /// A new line of the system log.
    SystemLog { line: String },
    /// A long-running task started.
    TaskStarted { id: String, name: String, started_at: String },
    /// A background task completed (success or failure).
    TaskCompleted {
        id: String,
        name: String,
        started_at: String,
        duration_ms: u64,
        status: String,
    },
}

/// An event with the time it was published (RFC 3339, or "unknown").
#[derive(Debug, Clone)]
pub struct LoggedEvent {
    pub ts: String,
    pub event: ExternalEvent,
}

/// A copy of an event.
pub fn copy_event(e: &ExternalEvent) -> (r: ExternalEvent)
    ensures
        r == *e,
{
    match e {
        ExternalEvent::ConfigChanged { path } => ExternalEvent::ConfigChanged { path: path.clone() },
        ExternalEvent::ServiceStarted { fmri } => ExternalEvent::ServiceStarted {
            fmri: fmri.clone(),
        },
        ExternalEvent::ServiceStopped { fmri } => ExternalEvent::ServiceStopped {
            fmri: fmri.clone(),
        },
        ExternalEvent::ServiceFailed { fmri } => ExternalEvent::ServiceFailed { fmri: fmri.clone() },
        ExternalEvent::DatasetCreated { name } => ExternalEvent::DatasetCreated {
            name: name.clone(),
        },
        ExternalEvent::DatasetDestroyed { name } => ExternalEvent::DatasetDestroyed {
            name: name.clone(),
        },
        ExternalEvent::LinkUp { name } => ExternalEvent::LinkUp { name: name.clone() },
        ExternalEvent::LinkDown { name } => ExternalEvent::LinkDown { name: name.clone() },
        ExternalEvent::SystemLog { line } => ExternalEvent::SystemLog { line: line.clone() },
        ExternalEvent::TaskStarted { id, name, started_at } => ExternalEvent::TaskStarted {
            id: id.clone(),
            name: name.clone(),
            started_at: started_at.clone(),
        },
        ExternalEvent::TaskCompleted { id, name, started_at, duration_ms, status } => {
            ExternalEvent::TaskCompleted {
                id: id.clone(),
                name: name.clone(),
                started_at: started_at.clone(),
                duration_ms: *duration_ms,
                status: status.clone(),
            }
        },
    }
}

/// A copy of a logged event.
pub fn copy_logged(e: &LoggedEvent) -> (r: LoggedEvent)
    ensures
        r == *e,
{
    LoggedEvent { ts: e.ts.clone(), event: copy_event(&e.event) }
}

// ---------------------------------------------------------------------------
// The history
// ---------------------------------------------------------------------------

/// The last `n` members of `s` (all of them when there are fewer).
pub open spec fn last_n<T>(s: Seq<T>, n: nat) -> Seq<T> {
    if s.len() <= n {
        s
    } else {
        s.skip(s.len() - n)
    }
}

/// The entries of `s` stamped strictly before `before`, in order.
pub open spec fn stamped_before(s: Seq<LoggedEvent>, before: Seq<char>) -> Seq<LoggedEvent>
    decreases s.len(),
{
    if s.len() == 0 {
        seq![]
    } else {
        let r = stamped_before(s.drop_last(), before);
        if crate::interfaces::name_lt(s.last().ts@, before) {
            r.push(s.last())
        } else {
            r
        }
    }
}

/// What `snapshot_before` answers: the latest `limit` of the entries stamped
/// before `before`, oldest first; with a limit of 0, all of them.
pub open spec fn snapshot_before_spec(s: Seq<LoggedEvent>, before: Seq<char>, limit: nat) -> Seq<
    LoggedEvent,
> {
    let m = stamped_before(s, before);
    if limit == 0 {
        m
    } else {
        last_n(m, limit)
    }
}

/// The history of published events: at most `capacity` entries, oldest
/// first.
pub struct EventHistory {
    entries: Vec<LoggedEvent>,
    capacity: usize,
}

impl View for EventHistory {
    type V = Seq<LoggedEvent>;

    closed spec fn view(&self) -> Seq<LoggedEvent> {
        self.entries@
    }
}

/// The least capacity a history is given.
pub const MIN_HISTORY: usize = 1000;

impl EventHistory {
    /// The number of entries the history keeps.
    pub closed spec fn spec_capacity(&self) -> nat {
        self.capacity as nat
    }

    /// The history holds no more entries than its capacity, which is at
    /// least `MIN_HISTORY`.
    pub closed spec fn wf(&self) -> bool {
        &&& self.entries@.len() <= self.capacity
        &&& self.capacity >= MIN_HISTORY
    }

    /// A well-formed history holds no more entries than its capacity, and
    /// its capacity is at least `MIN_HISTORY`.
    pub proof fn lemma_fits(&self)
        requires
            self.wf(),
        ensures
            self@.len() <= self.spec_capacity(),
            self.spec_capacity() >= MIN_HISTORY,
    {
    }

    /// An empty history for `buffer` entries, but no fewer than 1000.
    pub fn new(buffer: usize) -> (r: Self)
        ensures
            r.wf(),
            r@ == Seq::<LoggedEvent>::empty(),
            r.spec_capacity() == if buffer > MIN_HISTORY {
                buffer as nat
            } else {
                MIN_HISTORY as nat
            },
    {
        let capacity = if buffer > MIN_HISTORY {
            buffer
        } else {
            MIN_HISTORY
        };
        EventHistory { entries: Vec::new(), capacity }
    }

    /// The number of entries the history keeps.
    pub fn capacity(&self) -> (r: usize)
        ensures
            r == self.spec_capacity(),
    {
        self.capacity
    }

    /// Stamps `event` with `ts` ("unknown" when the time could not be
    /// formatted) and records it, dropping the oldest entry when the
    /// history is full.  The stamped entry is returned, to be broadcast.
    pub fn publish(&mut self, ts: Option<String>, event: ExternalEvent) -> (r: LoggedEvent)
        requires
            old(self).wf(),
        ensures
            final(self).wf(),
            final(self).spec_capacity() == old(self).spec_capacity(),
            r.event == event,
            r.ts@ == match ts {
                Some(t) => t@,
                None => "unknown"@,
            },
            final(self)@ == last_n(old(self)@.push(r), old(self).spec_capacity()),
            final(self)@.len() <= final(self).spec_capacity(),
    {
        let stamp = match ts {
            Some(t) => t,
            None => chars_to_string(str_chars("unknown").as_slice()),
        };
        let entry = LoggedEvent { ts: stamp, event };
        let ghost pushed = self.entries@.push(entry);
        if self.entries.len() == self.capacity {
            self.entries.remove(0);
        }
        let kept = copy_logged(&entry);
        self.entries.push(kept);
        proof {
            if old(self).entries@.len() == old(self).capacity {
                assert(self.entries@ =~= pushed.skip(pushed.len() - self.capacity));
            } else {
                assert(self.entries@ =~= pushed);
            }
        }
        entry
    }

    /// The latest `limit` entries, oldest first.
    pub fn snapshot(&self, limit: usize) -> (r: Vec<LoggedEvent>)
        ensures
            r@ == last_n(self@, limit as nat),
    {
        let len = self.entries.len();
        let start = len.saturating_sub(limit);
        let mut out: Vec<LoggedEvent> = Vec::new();
        let mut i: usize = start;
        while i < len
            invariant
                start <= i <= len,
                len == self.entries@.len(),
                start == if len > limit { len - limit } else { 0 },
                out@ == self.entries@.subrange(start as int, i as int),
            decreases len - i,
        {
            out.push(copy_logged(&self.entries[i]));
            i += 1;
        }
        proof {
            if len <= limit {
                assert(self.entries@.subrange(0, len as int) =~= self.entries@);
            } else {
                assert(self.entries@.subrange(start as int, len as int) =~= self.entries@.skip(
                    start as int,
                ));
            }
        }
        out
    }

    /// The latest `limit` entries stamped strictly before `before`, oldest
    /// first; with a limit of 0, every entry stamped before it.
    pub fn snapshot_before(&self, before: &str, limit: usize) -> (r: Vec<LoggedEvent>)
        ensures
            r@ == snapshot_before_spec(self@, before@, limit as nat),
    {
        let b = str_chars(before);
        let mut matching: Vec<LoggedEvent> = Vec::new();
        let mut i: usize = 0;
        while i < self.entries.len()
            invariant
                i <= self.entries@.len(),
                b@ == before@,
                matching@ == stamped_before(self.entries@.take(i as int), before@),
            decreases self.entries@.len() - i,
        {
            proof {
                assert(self.entries@.take(i + 1).drop_last() =~= self.entries@.take(i as int));
                assert(self.entries@.take(i + 1).last() == self.entries@[i as int]);
            }
            let ts = str_chars(self.entries[i].ts.as_str());
            if chars_lt(ts.as_slice(), b.as_slice()) {
                matching.push(copy_logged(&self.entries[i]));
            }
            i += 1;
        }
        proof {
            assert(self.entries@.take(self.entries@.len() as int) =~= self.entries@);
        }
        if limit == 0 {
            return matching;
        }
        let n = matching.len();
        let start = n.saturating_sub(limit);
        let mut out: Vec<LoggedEvent> = Vec::new();
        let mut j: usize = start;
        while j < n
            invariant
                start <= j <= n,
                n == matching@.len(),
                start == if n > limit { n - limit } else { 0 },
                out@ == matching@.subrange(start as int, j as int),
            decreases n - j,
        {
            out.push(copy_logged(&matching[j]));
            j += 1;
        }
        proof {
            if n <= limit {
                assert(matching@.subrange(0, n as int) =~= matching@);
            } else {
                assert(matching@.subrange(start as int, n as int) =~= matching@.skip(start as int));
            }
        }
        out
    }
}

/// A bounded history always holds the latest `capacity` items recorded:
/// the history of the items recorded so far, with one more recorded, is
/// the history of them all with that one.  (This holds of the event
/// history and of the preloaded log lines alike.)
pub proof fn lemma_history_keeps_latest<T>(recorded: Seq<T>, e: T, capacity: nat)
    requires
        capacity > 0,
    ensures
        last_n(last_n(recorded, capacity).push(e), capacity) == last_n(recorded.push(e), capacity),
{
    let h = last_n(recorded, capacity);
    if recorded.len() > capacity {
        assert(last_n(h.push(e), capacity) =~= last_n(recorded.push(e), capacity));
    } else {
        assert(h == recorded);
    }
}

/// Recording an item in a history that fits its capacity appends the item,
/// and drops the oldest item exactly when the history was full.
pub proof fn lemma_record_drops_oldest_when_full<T>(history: Seq<T>, e: T, capacity: nat)
    requires
        capacity > 0,
        history.len() <= capacity,
    ensures
        last_n(history.push(e), capacity) == if history.len() == capacity {
            history.drop_first().push(e)
        } else {
            history.push(e)
        },
{
    if history.len() == capacity {
        assert(history.push(e).skip(1) =~= history.drop_first().push(e));
    }
}

proof fn lemma_stamped_before_sound(s: Seq<LoggedEvent>, before: Seq<char>)
    ensures
        forall|i: int|
            0 <= i < stamped_before(s, before).len() ==> crate::interfaces::name_lt(
                (#[trigger] stamped_before(s, before)[i]).ts@,
                before,
            ) && s.contains(stamped_before(s, before)[i]),
    decreases s.len(),
{
    if s.len() > 0 {
        let d = s.drop_last();
        lemma_stamped_before_sound(d, before);
        let m = stamped_before(s, before);
        assert forall|i: int| 0 <= i < m.len() implies crate::interfaces::name_lt(
            (#[trigger] m[i]).ts@,
            before,
        ) && s.contains(m[i]) by {
            let r = stamped_before(d, before);
            if i < r.len() {
                assert(m[i] == r[i]);
                let j = choose|j: int| 0 <= j < d.len() && d[j] == r[i];
                assert(s[j] == d[j]);
            } else {
                assert(m[i] == s.last());
                assert(s[s.len() - 1] == s.last());
            }
        }
    }
}

/// Reading before a time answers only entries of the history, each stamped
/// strictly before that time.
pub proof fn lemma_snapshot_before_older(s: Seq<LoggedEvent>, before: Seq<char>, limit: nat)
    ensures
        forall|i: int|
            0 <= i < snapshot_before_spec(s, before, limit).len() ==> crate::interfaces::name_lt(
                (#[trigger] snapshot_before_spec(s, before, limit)[i]).ts@,
                before,
            ) && s.contains(snapshot_before_spec(s, before, limit)[i]),
{
    lemma_stamped_before_sound(s, before);
    let m = stamped_before(s, before);
    let r = snapshot_before_spec(s, before, limit);
    assert forall|i: int| 0 <= i < r.len() implies crate::interfaces::name_lt(
        (#[trigger] r[i]).ts@,
        before,
    ) && s.contains(r[i]) by {
        if limit == 0 || m.len() <= limit {
            assert(r[i] == m[i]);
        } else {
            assert(r[i] == m[i + (m.len() - limit)]);
        }
    }
}

// ---------------------------------------------------------------------------
// The logs endpoint
// ---------------------------------------------------------------------------

/// The query of the logs endpoint: an optional time to read before, and an
/// optional number of entries.
pub struct LogsQuery {
    pub before: Option<String>,
    pub limit: Option<usize>,
}

/// The number of entries the logs endpoint answers: the limit asked for,
/// 300 when none was, and never more than 1000.
pub open spec fn logs_limit(limit: Option<usize>) -> nat {
    let asked: nat = match limit {
        Some(l) => l as nat,
        None => 300,
    };
    if asked > 1000 {
        1000
    } else {
        asked
    }
}

/// The events of `v` in the opposite order.
fn reversed(v: Vec<LoggedEvent>) -> (r: Vec<LoggedEvent>)
    ensures
        r@ == v@.reverse(),
{
    let ghost orig = v@;
    let mut w = v;
    let mut r: Vec<LoggedEvent> = Vec::new();
    while w.len() > 0
        invariant
            w@ == orig.take(w@.len() as int),
            r@ == orig.reverse().take(r@.len() as int),
            r@.len() + w@.len() == orig.len(),
        decreases w@.len(),
    {
        let ghost k = w@.len();
        match w.pop() {
            Some(e) => {
                proof {
                    assert(e == orig[k - 1]);
                    assert(orig.reverse()[r@.len() as int] == orig[k - 1]);
                }
                r.push(e);
                proof {
                    assert(r@ =~= orig.reverse().take(r@.len() as int));
                    assert(w@ =~= orig.take(w@.len() as int));
                }
            },
            None => {},
        }
    }
    proof {
        assert(r@ =~= orig.reverse());
    }
    r
}

/// The recent logged events the logs endpoint answers for `query`, newest
/// first.
pub fn list_logs(history: &EventHistory, query: LogsQuery) -> (r: Vec<LoggedEvent>)
    ensures
        r@ == match query.before {
            Some(b) => snapshot_before_spec(history@, b@, logs_limit(query.limit)),
            None => last_n(history@, logs_limit(query.limit)),
        }.reverse(),
{
    let asked: usize = match query.limit {
        Some(l) => l,
        None => 300,
    };
    let limit: usize = if asked > 1000 {
        1000
    } else {
        asked
    };
    let window = match query.before {
        Some(b) => history.snapshot_before(b.as_str(), limit),
        None => history.snapshot(limit),
    };
    reversed(window)
}

} // verus!
