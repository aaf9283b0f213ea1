//! Progression sessions: one long-running operation seen as `Start`, then
//! throttled `Update`s, then exactly one `End`.
//!
//! The unit count is cut into buckets of one hundredth of the total (of
//! 5000 units when the total is unknown, and of at least one unit); an
//! `Update` goes out only when the elapsed count enters a new bucket, so an
//! operation publishes about a hundred updates however small its chunks.
//! A session that ends before it started publishes its `Start` right before
//! its `End`, so every `End` follows a `Start`.
use vstd::prelude::*;

verus! {

/// Bucket width used when the total is unknown.
pub const UNKNOWN_TOTAL: u64 = 500000;

/// What a file-system operation reports when its session ends.
#[derive(Debug, PartialEq, Eq)]
pub struct Completion {
    pub instance_uuid: String,
    pub success: bool,
}

/// An event of a progression session.
#[derive(Debug, PartialEq, Eq)]
pub enum ProgressEvent {
    Start { name: String, total: Option<u64> },
    Update { progress: u64, elapsed: u64 },
    End { success: bool, message: String, completion: Option<Completion> },
}

/// What a session has recorded.
pub struct SessionView {
    pub name: String,
    pub instance: Option<String>,
    pub started: bool,
    pub ended: bool,
    pub threshold: nat,
    pub elapsed: nat,
    pub bucket: nat,
}

/// What can happen to a session.
pub enum SessionOp {
    /// The operation starts, with a known or unknown total.
    Begin(Option<u64>),
    /// A copy reports how many units of `total` are done.
    Copied(u64, u64),
    /// A chunk of that many units went through.
    Add(u64),
    /// The operation ends, successfully or not, with a message.
    Finish(bool, String),
}

pub open spec fn threshold_for(total: Option<u64>) -> nat {
    let t = match total {
        Some(t) => t as nat,
        None => UNKNOWN_TOTAL as nat,
    };
    if t / 100 == 0 { 1 } else { t / 100 }
}

/// A session of the operation `name`, on the instance `instance` if any,
/// that has published nothing yet.
pub open spec fn fresh_view(name: String, instance: Option<String>) -> SessionView {
    SessionView { name, instance, started: false, ended: false, threshold: 1, elapsed: 0, bucket: 0 }
}

pub open spec fn min_u64(n: nat) -> nat {
    if n > u64::MAX { u64::MAX as nat } else { n }
}

/// Moves the elapsed count to `elapsed`, publishing an update when it
/// enters a bucket past the last one published.
pub open spec fn advance(v: SessionView, elapsed: nat) -> (SessionView, Seq<ProgressEvent>) {
    let b = elapsed / v.threshold;
    if b > v.bucket {
        (
            SessionView { elapsed, bucket: b, ..v },
            seq![ProgressEvent::Update { progress: v.threshold as u64, elapsed: elapsed as u64 }],
        )
    } else {
        (SessionView { elapsed, ..v }, Seq::empty())
    }
}

pub open spec fn completion_of(instance: Option<String>, success: bool) -> Option<Completion> {
    match instance {
        Some(u) => Some(Completion { instance_uuid: u, success }),
        None => None,
    }
}

/// One step of a session: its next record and the events it publishes.
pub open spec fn step(v: SessionView, op: SessionOp) -> (SessionView, Seq<ProgressEvent>) {
    if v.ended {
        (v, Seq::empty())
    } else {
        match op {
            SessionOp::Begin(total) => if v.started {
                (v, Seq::empty())
            } else {
                (
                    SessionView { started: true, threshold: threshold_for(total), elapsed: 0, bucket: 0, ..v },
                    seq![ProgressEvent::Start { name: v.name, total }],
                )
            },
            SessionOp::Copied(copied, total) => if !v.started {
                (
                    SessionView {
                        started: true,
                        threshold: threshold_for(Some(total)),
                        elapsed: copied as nat,
                        bucket: 0,
                        ..v
                    },
                    seq![ProgressEvent::Start { name: v.name, total: Some(total) }],
                )
            } else {
                advance(v, copied as nat)
            },
            SessionOp::Add(n) => if !v.started {
                (v, Seq::empty())
            } else {
                advance(v, min_u64((v.elapsed + n) as nat))
            },
            SessionOp::Finish(success, message) => {
                let end = ProgressEvent::End {
                    success,
                    message,
                    completion: completion_of(v.instance, success),
                };
                (
                    SessionView { started: true, ended: true, ..v },
                    if v.started {
                        seq![end]
                    } else {
                        seq![ProgressEvent::Start { name: v.name, total: None }, end]
                    },
                )
            },
        }
    }
}

/// The record after `ops`, from `init`.
pub open spec fn run(init: SessionView, ops: Seq<SessionOp>) -> SessionView
    decreases ops.len(),
{
    if ops.len() == 0 {
        init
    } else {
        step(run(init, ops.drop_last()), ops.last()).0
    }
}

/// Every event that `ops` publish from `init`, in order.
pub open spec fn published(init: SessionView, ops: Seq<SessionOp>) -> Seq<ProgressEvent>
    decreases ops.len(),
{
    if ops.len() == 0 {
        Seq::empty()
    } else {
        published(init, ops.drop_last()) + step(run(init, ops.drop_last()), ops.last()).1
    }
}

/// How many `End` events `s` holds.
pub open spec fn count_ends(s: Seq<ProgressEvent>) -> nat
    decreases s.len(),
{
    if s.len() == 0 {
        0
    } else {
        count_ends(s.drop_last()) + if s.last() is End { 1nat } else { 0nat }
    }
}

proof fn lemma_count_ends_append(a: Seq<ProgressEvent>, b: Seq<ProgressEvent>)
    ensures
        count_ends(a + b) == count_ends(a) + count_ends(b),
    decreases b.len(),
{
    if b.len() > 0 {
        assert((a + b).drop_last() =~= a + b.drop_last());
        lemma_count_ends_append(a, b.drop_last());
    }
}

proof fn lemma_session_shape(name: String, instance: Option<String>, ops: Seq<SessionOp>)
    ensures
        ({
            let v = run(fresh_view(name, instance), ops);
            let p = published(fresh_view(name, instance), ops);
            &&& count_ends(p) == if v.ended { 1nat } else { 0nat }
            &&& v.ended ==> v.started
            &&& v.started <==> p.len() > 0
            &&& p.len() > 0 ==> p[0] is Start
            &&& v.ended ==> p.last() is End
            &&& v.name == name
            &&& v.instance == instance
            &&& v.threshold >= 1
        }),
    decreases ops.len(),
{
    let init = fresh_view(name, instance);
    if ops.len() > 0 {
        let prev = ops.drop_last();
        lemma_session_shape(name, instance, prev);
        let v0 = run(init, prev);
        let p0 = published(init, prev);
        let out = step(v0, ops.last()).1;
        lemma_count_ends_append(p0, out);
        let p = published(init, ops);
        assert(p == p0 + out);
        if out.len() > 0 {
            assert(p.last() == out.last());
            if p0.len() == 0 {
                assert(p[0] == out[0]);
            } else {
                assert(p[0] == p0[0]);
            }
        } else {
            assert(p =~= p0);
        }
        // count the ends of the step's own output
        let v = run(init, ops);
        assert(v == step(v0, ops.last()).0);
        if out.len() == 1 {
            assert(out.drop_last() =~= Seq::<ProgressEvent>::empty());
            assert(count_ends(out) == if out[0] is End { 1nat } else { 0nat });
        } else if out.len() == 2 {
            assert(out.drop_last().drop_last() =~= Seq::<ProgressEvent>::empty());
            assert(out.drop_last().last() == out[0]);
            assert(count_ends(out.drop_last()) == if out[0] is End { 1nat } else { 0nat });
            assert(count_ends(out) == count_ends(out.drop_last()) + if out[1] is End { 1nat } else { 0nat });
        } else {
            assert(out.len() == 0);
        }
        if !v0.ended {
            match ops.last() {
                SessionOp::Finish(success, message) => {
                    if v0.started {
                        assert(out.len() == 1);
                    } else {
                        assert(out.len() == 2);
                        assert(out[0] is Start);
                    }
                    assert(out.last() is End);
                },
                SessionOp::Begin(t) => {
                    assert(out.len() <= 1);
                },
                SessionOp::Copied(c, t) => {
                    assert(out.len() <= 1);
                },
                SessionOp::Add(n) => {
                    assert(out.len() <= 1);
                },
            }
        } else {
            assert(out.len() == 0);
        }
    }
}

/// A finished session publishes exactly one `End`, as its last event,
/// however many updates came before and whether or not it was finished
/// earlier on an error path; and its first event is a `Start`.
pub proof fn lemma_exactly_one_end(
    name: String,
    instance: Option<String>,
    ops: Seq<SessionOp>,
    success: bool,
    message: String,
)
    ensures
        ({
            let p = published(fresh_view(name, instance), ops.push(SessionOp::Finish(success, message)));
            &&& count_ends(p) == 1
            &&& p.len() > 0
            &&& p[0] is Start
            &&& p.last() is End
        }),
{
    let all = ops.push(SessionOp::Finish(success, message));
    assert(all.drop_last() =~= ops);
    lemma_session_shape(name, instance, all);
}

/// The throttling state of one progression session.
pub struct ProgressSession {
    name: String,
    instance: Option<String>,
    started: bool,
    ended: bool,
    threshold: u64,
    elapsed: u64,
    bucket: u64,
}

impl View for ProgressSession {
    type V = SessionView;

    closed spec fn view(&self) -> SessionView {
        SessionView {
            name: self.name,
            instance: self.instance,
            started: self.started,
            ended: self.ended,
            threshold: self.threshold as nat,
            elapsed: self.elapsed as nat,
            bucket: self.bucket as nat,
        }
    }
}

fn clone_opt(o: &Option<String>) -> (r: Option<String>)
    ensures
        r == *o,
{
    match o {
        Some(s) => Some(s.clone()),
        None => None,
    }
}

impl ProgressSession {
    pub closed spec fn wf(&self) -> bool {
        self.threshold >= 1
    }

    /// A session of the operation `name`, on the instance `instance` when it
    /// is a file-system operation of one, that has published nothing yet.
    pub fn new(name: String, instance: Option<String>) -> (r: ProgressSession)
        ensures
            r@ == fresh_view(name, instance),
            r.wf(),
    {
        ProgressSession { name, instance, started: false, ended: false, threshold: 1, elapsed: 0, bucket: 0 }
    }

    fn threshold_exec(total: Option<u64>) -> (r: u64)
        ensures
            r as nat == threshold_for(total),
            r >= 1,
    {
        let t = match total {
            Some(t) => t,
            None => UNKNOWN_TOTAL,
        };
        if t / 100 == 0 {
            1
        } else {
            t / 100
        }
    }

    fn start_event(&self, total: Option<u64>) -> (r: ProgressEvent)
        ensures
            r == (ProgressEvent::Start { name: self.name, total }),
    {
        ProgressEvent::Start { name: self.name.clone(), total }
    }

    fn advance_exec(&mut self, elapsed: u64) -> (r: Vec<ProgressEvent>)
        requires
            old(self).wf(),
        ensures
            final(self).wf(),
            (final(self)@, r@) == advance(old(self)@, elapsed as nat),
    {
        let b = elapsed / self.threshold;
        self.elapsed = elapsed;
        let mut out: Vec<ProgressEvent> = Vec::new();
        if b > self.bucket {
            self.bucket = b;
            out.push(ProgressEvent::Update { progress: self.threshold, elapsed });
            assert(out@ =~= seq![ProgressEvent::Update { progress: self.threshold, elapsed }]);
        } else {
            assert(out@ =~= Seq::<ProgressEvent>::empty());
        }
        out
    }

    /// The operation starts; the session publishes `Start` unless it has
    /// started or ended already.
    pub fn begin(&mut self, total: Option<u64>) -> (r: Vec<ProgressEvent>)
        requires
            old(self).wf(),
        ensures
            final(self).wf(),
            (final(self)@, r@) == step(old(self)@, SessionOp::Begin(total)),
    {
        let mut out: Vec<ProgressEvent> = Vec::new();
        if self.ended || self.started {
            assert(out@ =~= Seq::<ProgressEvent>::empty());
            return out;
        }
        out.push(self.start_event(total));
        self.started = true;
        self.threshold = Self::threshold_exec(total);
        self.elapsed = 0;
        self.bucket = 0;
        assert(out@ =~= seq![ProgressEvent::Start { name: self.name, total }]);
        out
    }

    /// A copy reports `copied` of `total` units done. The first report starts
    /// the session; later ones publish throttled updates.
    pub fn copied(&mut self, copied: u64, total: u64) -> (r: Vec<ProgressEvent>)
        requires
            old(self).wf(),
        ensures
            final(self).wf(),
            (final(self)@, r@) == step(old(self)@, SessionOp::Copied(copied, total)),
    {
        if self.ended {
            let out: Vec<ProgressEvent> = Vec::new();
            assert(out@ =~= Seq::<ProgressEvent>::empty());
            return out;
        }
        if !self.started {
            let mut out: Vec<ProgressEvent> = Vec::new();
            out.push(self.start_event(Some(total)));
            self.started = true;
            self.threshold = Self::threshold_exec(Some(total));
            self.elapsed = copied;
            self.bucket = 0;
            assert(out@ =~= seq![ProgressEvent::Start { name: self.name, total: Some(total) }]);
            return out;
        }
        self.advance_exec(copied)
    }

    /// A chunk of `n` units went through; the elapsed count saturates at the
    /// largest `u64`.
    pub fn add(&mut self, n: u64) -> (r: Vec<ProgressEvent>)
        requires
            old(self).wf(),
        ensures
            final(self).wf(),
            (final(self)@, r@) == step(old(self)@, SessionOp::Add(n)),
    {
        if self.ended || !self.started {
            let out: Vec<ProgressEvent> = Vec::new();
            assert(out@ =~= Seq::<ProgressEvent>::empty());
            return out;
        }
        let e = self.elapsed.saturating_add(n);
        self.advance_exec(e)
    }

    /// The operation ends: the first call publishes `End` (preceded by
    /// `Start` if the session never started), later ones publish nothing.
    pub fn finish(&mut self, success: bool, message: String) -> (r: Vec<ProgressEvent>)
        requires
            old(self).wf(),
        ensures
            final(self).wf(),
            (final(self)@, r@) == step(old(self)@, SessionOp::Finish(success, message)),
    {
        let mut out: Vec<ProgressEvent> = Vec::new();
        if self.ended {
            assert(out@ =~= Seq::<ProgressEvent>::empty());
            return out;
        }
        let was_started = self.started;
        if !was_started {
            out.push(self.start_event(None));
        }
        let completion = match clone_opt(&self.instance) {
            Some(u) => Some(Completion { instance_uuid: u, success }),
            None => None,
        };
        let end = ProgressEvent::End { success, message, completion };
        out.push(end);
        self.started = true;
        self.ended = true;
        proof {
            if was_started {
                assert(out@ =~= seq![end]);
            } else {
                assert(out@ =~= seq![ProgressEvent::Start { name: self.name, total: None }, end]);
            }
        }
        out
    }

    /// Whether the session has published its `End`.
    pub fn is_ended(&self) -> (r: bool)
        ensures
            r == self@.ended,
    {
        self.ended
    }
}

} // verus!
