//! What a hub reports of the use of meshes that have an account.

use crate::text;
use vstd::prelude::*;

verus! {

/// How many events wait at most.
pub const USAGE_EVENT_BUFFER: usize = 1024;

/// How many events are sent together.
pub const USAGE_EVENT_BATCH_SIZE: usize = 100;

/// How often waiting events are sent, in seconds.
pub const USAGE_EVENT_INTERVAL: u64 = 10;

/// How long is waited after the first failure, in seconds.
pub const USAGE_EVENT_BACKOFF_INITIAL: u64 = 1;

/// How long is waited at most after a failure, in seconds.
pub const USAGE_EVENT_BACKOFF_MAX: u64 = 60;

/// Something that a node of a mesh with an account did.
#[derive(Debug)]
pub struct UsageEvent {
    pub account_id: String,
    pub mesh_id: String,
    pub node_id: String,
    pub event_type: String,
    pub timestamp: i64,
}

#[verifier::ext_equal]
pub struct UsageView {
    pub account_id: Seq<char>,
    pub mesh_id: Seq<char>,
    pub node_id: Seq<char>,
    pub event_type: Seq<char>,
    pub timestamp: i64,
}

impl View for UsageEvent {
    type V = UsageView;

    open spec fn view(&self) -> UsageView {
        UsageView {
            account_id: self.account_id@,
            mesh_id: self.mesh_id@,
            node_id: self.node_id@,
            event_type: self.event_type@,
            timestamp: self.timestamp,
        }
    }
}

impl Clone for UsageEvent {
    fn clone(&self) -> (r: Self)
        ensures
            r@ == self@,
    {
        UsageEvent {
            account_id: self.account_id.clone(),
            mesh_id: self.mesh_id.clone(),
            node_id: self.node_id.clone(),
            event_type: self.event_type.clone(),
            timestamp: self.timestamp,
        }
    }
}

/// Several events.
pub open spec fn usage_views(v: Seq<UsageEvent>) -> Seq<UsageView> {
    v.map_values(|e: UsageEvent| e@)
}

/// Where events are reported, and with which token: nowhere unless both are set.
pub open spec fn reporter_setting(url: Option<Seq<char>>, token: Option<Seq<char>>) -> Option<
    (Seq<char>, Seq<char>),
> {
    match (url, token) {
        (Some(u), Some(t)) => if u.len() > 0 && t.len() > 0 {
            Some((u, t))
        } else {
            None
        },
        _ => None,
    }
}

/// Where events are reported, where `url` and `token` are what the environment says
/// of it.
pub fn from_env(url: Option<&str>, token: Option<&str>) -> (r: Option<(String, String)>)
    ensures
        match r {
            Some(p) => reporter_setting(text::opt_str(url), text::opt_str(token)) == Some(
                (p.0@, p.1@),
            ),
            None => reporter_setting(text::opt_str(url), text::opt_str(token)) is None,
        },
{
    let url = match url {
        Some(u) => u,
        None => return None,
    };
    let token = match token {
        Some(t) => t,
        None => return None,
    };
    if url.is_empty() || token.is_empty() {
        return None;
    }
    Some((url.to_owned(), token.to_owned()))
}

/// The events of a node of a mesh with this account; none without an account.
pub open spec fn node_events(
    account: Option<Seq<char>>,
    mesh: Seq<char>,
    node: Seq<char>,
    types: Seq<Seq<char>>,
    now: i64,
) -> Seq<UsageView> {
    match account {
        None => Seq::empty(),
        Some(a) => types.map_values(
            |t: Seq<char>|
                UsageView {
                    account_id: a,
                    mesh_id: mesh,
                    node_id: node,
                    event_type: t,
                    timestamp: now,
                },
        ),
    }
}

/// The events of a node of a mesh with this account.
pub fn emit_cloud_usage_events(
    account: Option<&str>,
    mesh: &str,
    node: &str,
    types: &Vec<String>,
    now: i64,
) -> (r: Vec<UsageEvent>)
    ensures
        usage_views(r@) == node_events(
            text::opt_str(account),
            mesh@,
            node@,
            text::texts(types@),
            now,
        ),
{
    let mut out: Vec<UsageEvent> = Vec::new();
    proof {
        assert(usage_views(out@) =~= Seq::empty());
    }
    let account_id = match account {
        Some(a) => a,
        None => return out,
    };
    let ghost all = node_events(Some(account_id@), mesh@, node@, text::texts(types@), now);
    let mut i: usize = 0;
    while i < types.len()
        invariant
            i <= types.len(),
            all == node_events(Some(account_id@), mesh@, node@, text::texts(types@), now),
            usage_views(out@) == all.take(i as int),
        decreases types.len() - i,
    {
        let event = UsageEvent {
            account_id: account_id.to_owned(),
            mesh_id: mesh.to_owned(),
            node_id: node.to_owned(),
            event_type: types[i].clone(),
            timestamp: now,
        };
        let ghost before = usage_views(out@);
        out.push(event);
        proof {
            assert(all[i as int] == event@);
            assert(usage_views(out@) =~= before.push(event@));
            assert(all.take(i + 1) =~= all.take(i as int).push(event@));
        }
        i += 1;
    }
    proof {
        assert(all.take(all.len() as int) == all);
    }
    out
}

// ---------------------------------------------------------------------------
// The queue of events that wait.

/// Events that wait to be sent.
pub struct UsageQueue {
    pending: Vec<UsageEvent>,
    max_pending: usize,
    batch_size: usize,
    backoff: u64,
}

#[verifier::ext_equal]
pub struct QueueView {
    pub pending: Seq<UsageView>,
    pub max_pending: nat,
    pub batch_size: nat,
    pub backoff: nat,
}

impl View for UsageQueue {
    type V = QueueView;

    closed spec fn view(&self) -> QueueView {
        QueueView {
            pending: usage_views(self.pending@),
            max_pending: self.max_pending as nat,
            batch_size: self.batch_size as nat,
            backoff: self.backoff as nat,
        }
    }
}

/// A queue that is in order.
pub open spec fn in_order(q: QueueView) -> bool {
    &&& q.pending.len() <= q.max_pending
    &&& USAGE_EVENT_BACKOFF_INITIAL <= q.backoff <= USAGE_EVENT_BACKOFF_MAX
}

/// An empty queue.
pub open spec fn new_queue(batch_size: nat, max_pending: nat) -> QueueView {
    QueueView {
        pending: Seq::empty(),
        max_pending,
        batch_size,
        backoff: USAGE_EVENT_BACKOFF_INITIAL as nat,
    }
}

/// The queue after an event came. If it is full, the event is dropped.
pub open spec fn received(q: QueueView, e: UsageView) -> QueueView {
    if q.pending.len() >= q.max_pending {
        q
    } else {
        QueueView { pending: q.pending.push(e), ..q }
    }
}

/// The queue after its events were sent.
pub open spec fn sent(q: QueueView) -> QueueView {
    QueueView { pending: Seq::empty(), backoff: USAGE_EVENT_BACKOFF_INITIAL as nat, ..q }
}

/// How long is waited after a failure that follows one after which `backoff` seconds
/// were waited.
pub open spec fn doubled(backoff: nat) -> nat {
    if 2 * backoff <= USAGE_EVENT_BACKOFF_MAX {
        2 * backoff
    } else {
        USAGE_EVENT_BACKOFF_MAX as nat
    }
}

/// The queue after sending its events in time failed.
pub open spec fn failed(q: QueueView) -> QueueView {
    QueueView { backoff: doubled(q.backoff), ..q }
}

impl UsageQueue {
    /// That the queue is in order.
    pub open spec fn wf(&self) -> bool {
        in_order(self@)
    }

    /// An empty queue for `max_pending` events, of which `batch_size` make a batch.
    pub fn new(batch_size: usize, max_pending: usize) -> (r: UsageQueue)
        ensures
            r.wf(),
            r@ == new_queue(batch_size as nat, max_pending as nat),
    {
        let r = UsageQueue {
            pending: Vec::new(),
            max_pending,
            batch_size,
            backoff: USAGE_EVENT_BACKOFF_INITIAL,
        };
        proof {
            assert(r@ =~= new_queue(batch_size as nat, max_pending as nat));
        }
        r
    }

    /// Takes an event in. Returns whether there was room for it.
    pub fn receive(&mut self, event: UsageEvent) -> (kept: bool)
        requires
            old(self).wf(),
        ensures
            final(self).wf(),
            final(self)@ == received(old(self)@, event@),
            kept == (old(self)@.pending.len() < old(self)@.max_pending),
    {
        if self.pending.len() >= self.max_pending {
            return false;
        }
        let ghost before = usage_views(self.pending@);
        self.pending.push(event);
        proof {
            assert(usage_views(self.pending@) =~= before.push(event@));
        }
        true
    }

    /// Whether there are fewer events than make a batch.
    pub fn wants_more(&self) -> (r: bool)
        ensures
            r == (self@.pending.len() < self@.batch_size),
    {
        self.pending.len() < self.batch_size
    }

    /// Whether no event waits.
    pub fn is_empty(&self) -> (r: bool)
        ensures
            r == (self@.pending.len() == 0),
    {
        self.pending.len() == 0
    }

    /// The events that wait.
    pub fn batch(&self) -> (r: Vec<UsageEvent>)
        ensures
            usage_views(r@) == self@.pending,
    {
        let ghost all = self@.pending;
        let mut out: Vec<UsageEvent> = Vec::new();
        let mut i: usize = 0;
        while i < self.pending.len()
            invariant
                i <= self.pending.len(),
                all == usage_views(self.pending@),
                usage_views(out@) == all.take(i as int),
            decreases self.pending.len() - i,
        {
            let event = self.pending[i].clone();
            let ghost before = usage_views(out@);
            out.push(event);
            proof {
                assert(usage_views(out@) =~= before.push(event@));
                assert(all.take(i + 1) =~= all.take(i as int).push(all[i as int]));
            }
            i += 1;
        }
        proof {
            assert(all.take(all.len() as int) == all);
        }
        out
    }

    /// After a full batch was sent. If that failed, nothing changes.
    pub fn posted(&mut self, ok: bool)
        requires
            old(self).wf(),
        ensures
            final(self).wf(),
            final(self)@ == (if ok {
                sent(old(self)@)
            } else {
                old(self)@
            }),
    {
        if ok {
            self.pending = Vec::new();
            self.backoff = USAGE_EVENT_BACKOFF_INITIAL;
            proof {
                assert(usage_views(self.pending@) =~= Seq::empty());
            }
        }
    }

    /// After the waiting events were sent in time. If that failed, returns how many
    /// seconds to wait.
    pub fn ticked(&mut self, ok: bool) -> (pause: Option<u64>)
        requires
            old(self).wf(),
        ensures
            final(self).wf(),
            final(self)@ == (if ok {
                sent(old(self)@)
            } else {
                failed(old(self)@)
            }),
            match pause {
                None => ok,
                Some(seconds) => !ok && seconds == old(self)@.backoff,
            },
    {
        if ok {
            self.posted(true);
            return None;
        }
        let pause: u64 = self.backoff;
        self.backoff =
        if 2 * pause <= USAGE_EVENT_BACKOFF_MAX {
            2 * pause
        } else {
            USAGE_EVENT_BACKOFF_MAX
        };
        Some(pause)
    }
}

/// A request that reports events.
#[derive(Debug)]
pub struct UsageCall {
    pub url: String,
    pub bearer: String,
    pub events: Vec<UsageEvent>,
}

/// The request that reports events; none if there are no events.
pub fn post_usage_batch(url: &str, token: &str, events: Vec<UsageEvent>) -> (r: Option<UsageCall>)
    ensures
        match r {
            None => events@.len() == 0,
            Some(c) => events@.len() > 0 && c.url@ == url@ && c.bearer@ == token@
                && usage_views(c.events@) == usage_views(events@),
        },
{
    if events.len() == 0 {
        return None;
    }
    Some(UsageCall { url: url.to_owned(), bearer: token.to_owned(), events })
}

// ---------------------------------------------------------------------------
// Reporting.

/// What happens while events are reported.
#[derive(Debug)]
pub enum ReporterEvent {
    /// An event came.
    Received(UsageEvent),
    /// It was looked whether another event is there.
    Drained(Option<UsageEvent>),
    /// A full batch was sent, or could not be.
    Posted(bool),
    /// It is time to send what waits.
    Tick,
    /// What waited was sent in time, or could not be.
    TickPosted(bool),
    /// No event will come any more, and no time either.
    Closed,
}

/// What is done next while events are reported.
#[derive(Debug, PartialEq, Eq, Structural, Clone, Copy)]
pub enum ReporterAction {
    /// Wait for what comes next.
    Wait,
    /// Look whether another event is there.
    Drain,
    /// Send the events that wait, as a full batch.
    Post,
    /// Send the events that wait, since it is time.
    PostInTime,
    /// Wait for so many seconds.
    Sleep(u64),
    /// Stop.
    Stop,
}

/// What is done after an event was taken in: another is looked for until there is a
/// batch.
pub open spec fn after_intake(q: QueueView) -> ReporterAction {
    if q.pending.len() < q.batch_size {
        ReporterAction::Drain
    } else {
        ReporterAction::Post
    }
}

/// The queue after something happened.
pub open spec fn reported(q: QueueView, event: ReporterEvent) -> QueueView {
    match event {
        ReporterEvent::Received(e) => received(q, e@),
        ReporterEvent::Drained(Some(e)) => received(q, e@),
        ReporterEvent::Drained(None) => q,
        ReporterEvent::Posted(ok) => queue_after(q, QueueEvent::Posted(ok)),
        ReporterEvent::Tick => q,
        ReporterEvent::TickPosted(ok) => queue_after(q, QueueEvent::Ticked(ok)),
        ReporterEvent::Closed => q,
    }
}

/// What is done next after something happened to the queue `q`.
pub open spec fn reporter_action(q: QueueView, event: ReporterEvent) -> ReporterAction {
    match event {
        ReporterEvent::Received(e) => after_intake(received(q, e@)),
        ReporterEvent::Drained(Some(e)) => after_intake(received(q, e@)),
        ReporterEvent::Drained(None) => if q.pending.len() < q.batch_size {
            ReporterAction::Wait
        } else {
            ReporterAction::Post
        },
        ReporterEvent::Posted(_) => ReporterAction::Wait,
        ReporterEvent::Tick => if q.pending.len() == 0 {
            ReporterAction::Wait
        } else {
            ReporterAction::PostInTime
        },
        ReporterEvent::TickPosted(ok) => if ok {
            ReporterAction::Wait
        } else {
            ReporterAction::Sleep(q.backoff as u64)
        },
        ReporterEvent::Closed => ReporterAction::Stop,
    }
}

/// Whether an event that came has to be dropped.
pub open spec fn drops(q: QueueView, event: ReporterEvent) -> bool {
    q.pending.len() >= q.max_pending && (event is Received || (event matches ReporterEvent::Drained(
        e,
    ) && e is Some))
}

/// What is done next while events are reported, and whether an event was dropped.
pub fn run_usage_reporter(queue: &mut UsageQueue, event: ReporterEvent) -> (r: (
    ReporterAction,
    bool,
))
    requires
        old(queue).wf(),
    ensures
        final(queue).wf(),
        final(queue)@ == reported(old(queue)@, event),
        r.0 == reporter_action(old(queue)@, event),
        r.1 == drops(old(queue)@, event),
{
    match event {
        ReporterEvent::Received(e) => {
            let kept = queue.receive(e);
            let action = if queue.wants_more() {
                ReporterAction::Drain
            } else {
                ReporterAction::Post
            };
            (action, !kept)
        },
        ReporterEvent::Drained(Some(e)) => {
            let kept = queue.receive(e);
            let action = if queue.wants_more() {
                ReporterAction::Drain
            } else {
                ReporterAction::Post
            };
            (action, !kept)
        },
        ReporterEvent::Drained(None) => {
            let action = if queue.wants_more() {
                ReporterAction::Wait
            } else {
                ReporterAction::Post
            };
            (action, false)
        },
        ReporterEvent::Posted(ok) => {
            queue.posted(ok);
            (ReporterAction::Wait, false)
        },
        ReporterEvent::Tick => {
            let action = if queue.is_empty() {
                ReporterAction::Wait
            } else {
                ReporterAction::PostInTime
            };
            (action, false)
        },
        ReporterEvent::TickPosted(ok) => {
            let action = match queue.ticked(ok) {
                None => ReporterAction::Wait,
                Some(seconds) => ReporterAction::Sleep(seconds),
            };
            (action, false)
        },
        ReporterEvent::Closed => (ReporterAction::Stop, false),
    }
}

// ---------------------------------------------------------------------------
// Laws of the queue.

/// Something that happens to a queue.
pub enum QueueEvent {
    Received(UsageView),
    Posted(bool),
    Ticked(bool),
}

/// The queue after something happened to it.
pub open spec fn queue_after(q: QueueView, e: QueueEvent) -> QueueView {
    match e {
        QueueEvent::Received(u) => received(q, u),
        QueueEvent::Posted(ok) => if ok {
            sent(q)
        } else {
            q
        },
        QueueEvent::Ticked(ok) => if ok {
            sent(q)
        } else {
            failed(q)
        },
    }
}

/// The queue after several things happened to it.
pub open spec fn queue_after_all(q: QueueView, events: Seq<QueueEvent>) -> QueueView
    decreases events.len(),
{
    if events.len() == 0 {
        q
    } else {
        queue_after(queue_after_all(q, events.drop_last()), events.last())
    }
}

/// Whatever happens to a queue, it never holds more events than it has room for, and
/// the waits between its tries stay within their bounds.
pub proof fn law_queue_stays_in_bounds(q: QueueView, events: Seq<QueueEvent>)
    requires
        in_order(q),
    ensures
        in_order(queue_after_all(q, events)),
        queue_after_all(q, events).max_pending == q.max_pending,
        queue_after_all(q, events).batch_size == q.batch_size,
    decreases events.len(),
{
    if events.len() > 0 {
        law_queue_stays_in_bounds(q, events.drop_last());
    }
}

/// What an empty queue holds after events came is the first of them, in the order in
/// which they came, as many as it has room for.
pub proof fn law_first_events_are_kept_in_order(
    batch_size: nat,
    max_pending: nat,
    events: Seq<UsageView>,
)
    ensures
        queue_after_all(
            new_queue(batch_size, max_pending),
            events.map_values(|e: UsageView| QueueEvent::Received(e)),
        ).pending == (if events.len() <= max_pending {
            events
        } else {
            events.take(max_pending as int)
        }),
    decreases events.len(),
{
    let happened = events.map_values(|e: UsageView| QueueEvent::Received(e));
    let q = new_queue(batch_size, max_pending);
    law_queue_stays_in_bounds(q, happened);
    if events.len() > 0 {
        let most = events.drop_last();
        assert(happened.drop_last() =~= most.map_values(|e: UsageView| QueueEvent::Received(e)));
        law_first_events_are_kept_in_order(batch_size, max_pending, most);
        law_queue_stays_in_bounds(q, happened.drop_last());
        assert(happened.last() == QueueEvent::Received(events.last()));
        if events.len() <= max_pending {
            assert(most.push(events.last()) =~= events);
        } else if most.len() == max_pending {
            assert(most =~= events.take(max_pending as int));
        } else {
            assert(most.take(max_pending as int) =~= events.take(max_pending as int));
        }
    }
}

/// After one failure after another the waits double, up to their bound; one success
/// brings them back to the first.
pub proof fn law_waits_double(q: QueueView)
    requires
        in_order(q),
    ensures
        failed(q).backoff == doubled(q.backoff),
        failed(q).backoff >= q.backoff,
        failed(q).pending == q.pending,
        sent(failed(q)).backoff == USAGE_EVENT_BACKOFF_INITIAL,
        sent(q).pending.len() == 0,
{
}

} // verus!
