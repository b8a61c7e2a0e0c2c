//! The connection multiplexer's ordering discipline, as a verified state
//! machine. A connection owns one writer and a FIFO queue of single-use
//! waiters; submitting a command atomically appends a waiter and writes
//! the command line, and the background reader resolves the oldest waiter
//! with each frame it reads. The long-poll wait command additionally holds
//! the writer until its own frame arrives, so nothing else can be
//! interleaved while the connection is in its blocking wait state.
//!
//! Tickets number the waiters in creation order; the model tracks how many
//! commands have been submitted, how many frames delivered, and which
//! ticket (if any) belongs to an outstanding wait command.

use vstd::prelude::*;

verus! {

/// The abstract state of one connection's ordering discipline.
pub struct ConnModel {
    /// How many commands have been submitted (and waiters created).
    pub submitted: nat,
    /// How many frames have been delivered to waiters.
    pub delivered: nat,
    /// The ticket of an outstanding long-poll wait command, which holds
    /// the writer until its frame arrives.
    pub idle: Option<nat>,
}

/// The state of a freshly opened connection.
pub open spec fn init_model() -> ConnModel {
    ConnModel { submitted: 0, delivered: 0, idle: None }
}

/// A command may be submitted only while no wait command holds the
/// writer.
pub open spec fn submit_enabled(m: ConnModel) -> bool {
    m.idle is None
}

/// A frame can only be delivered while a waiter is outstanding; a frame
/// arriving on an empty queue is a protocol violation the model excludes.
pub open spec fn deliver_enabled(m: ConnModel) -> bool {
    m.delivered < m.submitted
}

/// Submitting a command: the next ticket is issued and, for a wait
/// command, the writer stays held until that ticket's frame arrives.
/// Returns the successor state and the issued ticket.
pub open spec fn submit_trans(m: ConnModel, wait: bool) -> (ConnModel, nat) {
    (
        ConnModel {
            submitted: m.submitted + 1,
            delivered: m.delivered,
            idle: if wait {
                Some(m.submitted)
            } else {
                m.idle
            },
        },
        m.submitted,
    )
}

/// Delivering one frame: the oldest outstanding waiter is resolved, and a
/// wait command whose frame this is releases the writer. Returns the
/// successor state and the resolved ticket.
pub open spec fn deliver_trans(m: ConnModel) -> (ConnModel, nat) {
    (
        ConnModel {
            submitted: m.submitted,
            delivered: m.delivered + 1,
            idle: if m.idle == Some(m.delivered) {
                None
            } else {
                m.idle
            },
        },
        m.delivered,
    )
}

/// The well-formedness every reachable state keeps.
pub open spec fn model_wf(m: ConnModel) -> bool {
    &&& m.delivered <= m.submitted
    &&& (m.idle matches Some(t) ==> m.delivered <= t < m.submitted)
}

/// The multiplexer's ordering state, kept by a running connection next to
/// its waiter queue: tickets issued and resolved, and whether a wait
/// command holds the writer.
pub struct Multiplexer {
    submitted: u64,
    delivered: u64,
    idle: Option<u64>,
}

impl View for Multiplexer {
    type V = ConnModel;

    closed spec fn view(&self) -> ConnModel {
        ConnModel {
            submitted: self.submitted as nat,
            delivered: self.delivered as nat,
            idle: match self.idle {
                Some(t) => Some(t as nat),
                None => None,
            },
        }
    }
}

impl Multiplexer {
    pub open spec fn wf(&self) -> bool {
        model_wf(self@)
    }

    /// The state of a freshly opened connection.
    pub fn new() -> (r: Multiplexer)
        ensures
            r@ == init_model(),
            r.wf(),
    {
        Multiplexer { submitted: 0, delivered: 0, idle: None }
    }

    /// Records one command submission, made with the writer held and the
    /// waiter pushed in the same critical section; `wait` marks the
    /// long-poll wait command, which keeps holding the writer. Returns
    /// the ticket of the created waiter.
    pub fn submit(&mut self, wait: bool) -> (t: u64)
        requires
            old(self).wf(),
            submit_enabled(old(self)@),
            old(self)@.submitted < u64::MAX,
        ensures
            final(self).wf(),
            final(self)@ == submit_trans(old(self)@, wait).0,
            t as nat == submit_trans(old(self)@, wait).1,
    {
        let t = self.submitted;
        self.submitted = self.submitted + 1;
        if wait {
            self.idle = Some(t);
        }
        t
    }

    /// Records the delivery of one frame to the oldest outstanding
    /// waiter; a wait command whose frame this is releases the writer.
    /// Returns the ticket of the resolved waiter.
    pub fn deliver(&mut self) -> (t: u64)
        requires
            old(self).wf(),
            deliver_enabled(old(self)@),
        ensures
            final(self).wf(),
            final(self)@ == deliver_trans(old(self)@).0,
            t as nat == deliver_trans(old(self)@).1,
    {
        let t = self.delivered;
        self.delivered = self.delivered + 1;
        match self.idle {
            Some(w) => {
                if w == t {
                    self.idle = None;
                }
            },
            None => {},
        }
        t
    }

    /// How many waiters are outstanding.
    pub fn pending(&self) -> (n: u64)
        requires
            self.wf(),
        ensures
            n as nat == self@.submitted - self@.delivered,
    {
        self.submitted - self.delivered
    }

    /// How many tickets have been issued so far.
    pub fn submitted_count(&self) -> (n: u64)
        ensures
            n as nat == self@.submitted,
    {
        self.submitted
    }

    /// Whether a wait command currently holds the writer.
    pub fn idle_outstanding(&self) -> (b: bool)
        ensures
            b == (self@.idle is Some),
    {
        self.idle.is_some()
    }
}

/// One event in a connection's life: a command submission (`true` for the
/// long-poll wait command) or the delivery of one frame.
#[derive(Debug, Clone, Copy, PartialEq, Eq, Structural)]
pub enum Action {
    Submit(bool),
    Deliver,
}

/// The successor state after one action.
pub open spec fn step(m: ConnModel, a: Action) -> ConnModel {
    match a {
        Action::Submit(w) => submit_trans(m, w).0,
        Action::Deliver => deliver_trans(m).0,
    }
}

/// Whether an action is allowed in a state.
pub open spec fn step_enabled(m: ConnModel, a: Action) -> bool {
    match a {
        Action::Submit(_) => submit_enabled(m),
        Action::Deliver => deliver_enabled(m),
    }
}

/// The ticket an action issues or resolves in a state.
pub open spec fn ticket_of(m: ConnModel, a: Action) -> nat {
    match a {
        Action::Submit(w) => submit_trans(m, w).1,
        Action::Deliver => deliver_trans(m).1,
    }
}

/// The state after running `acts` from `m`.
pub open spec fn run(m: ConnModel, acts: Seq<Action>) -> ConnModel
    decreases acts.len(),
{
    if acts.len() == 0 {
        m
    } else {
        run(step(m, acts[0]), acts.skip(1))
    }
}

/// Every action of `acts` is allowed in the state it runs in.
pub open spec fn valid_run(m: ConnModel, acts: Seq<Action>) -> bool
    decreases acts.len(),
{
    if acts.len() == 0 {
        true
    } else {
        step_enabled(m, acts[0]) && valid_run(step(m, acts[0]), acts.skip(1))
    }
}

/// How many of the actions are submissions.
pub open spec fn count_submits(acts: Seq<Action>) -> nat
    decreases acts.len(),
{
    if acts.len() == 0 {
        0
    } else {
        (if acts[0] is Submit {
            1nat
        } else {
            0nat
        }) + count_submits(acts.skip(1))
    }
}

/// How many of the actions are deliveries.
pub open spec fn count_delivers(acts: Seq<Action>) -> nat
    decreases acts.len(),
{
    if acts.len() == 0 {
        0
    } else {
        (if acts[0] is Deliver {
            1nat
        } else {
            0nat
        }) + count_delivers(acts.skip(1))
    }
}

/// Running a sequence of actions adds exactly its submission count to
/// `submitted` and its delivery count to `delivered`.
pub proof fn lemma_run_counts(m: ConnModel, acts: Seq<Action>)
    ensures
        run(m, acts).submitted == m.submitted + count_submits(acts),
        run(m, acts).delivered == m.delivered + count_delivers(acts),
    decreases acts.len(),
{
    if acts.len() > 0 {
        lemma_run_counts(step(m, acts[0]), acts.skip(1));
    }
}

/// Running one more action steps the state once.
pub proof fn lemma_run_take_succ(m: ConnModel, acts: Seq<Action>, p: int)
    requires
        0 <= p < acts.len(),
    ensures
        run(m, acts.take(p + 1)) == step(run(m, acts.take(p)), acts[p]),
    decreases p,
{
    reveal_with_fuel(run, 3);
    if p == 0 {
        assert(acts.take(1)[0] == acts[0]);
        assert(acts.take(1).skip(1) =~= Seq::<Action>::empty());
        assert(acts.take(0) =~= Seq::<Action>::empty());
    } else {
        let t = acts.skip(1);
        lemma_run_take_succ(step(m, acts[0]), t, p - 1);
        assert(acts.take(p + 1)[0] == acts[0]);
        assert(acts.take(p + 1).skip(1) =~= t.take(p));
        assert(acts.take(p)[0] == acts[0]);
        assert(acts.take(p).skip(1) =~= t.take(p - 1));
        assert(t[p - 1] == acts[p]);
    }
}

/// In a valid run, each action is allowed in the state it meets.
pub proof fn lemma_valid_run_enabled(m: ConnModel, acts: Seq<Action>, p: int)
    requires
        valid_run(m, acts),
        0 <= p < acts.len(),
    ensures
        step_enabled(run(m, acts.take(p)), acts[p]),
    decreases p,
{
    if p == 0 {
        assert(acts.take(0) =~= Seq::<Action>::empty());
    } else {
        let t = acts.skip(1);
        lemma_valid_run_enabled(step(m, acts[0]), t, p - 1);
        assert(acts.take(p)[0] == acts[0]);
        assert(acts.take(p).skip(1) =~= t.take(p - 1));
        assert(t[p - 1] == acts[p]);
    }
}

/// FIFO pairing: in any valid run of a connection, the ticket issued by
/// the (k+1)-th submission is exactly the ticket resolved by the (k+1)-th
/// delivery. Each caller therefore receives the frame produced in
/// response to its own command, and frames are delivered in submission
/// order.
pub proof fn lemma_fifo_pairing(acts: Seq<Action>, i: int, j: int)
    requires
        valid_run(init_model(), acts),
        0 <= i < acts.len(),
        0 <= j < acts.len(),
        acts[i] is Submit,
        acts[j] is Deliver,
        count_submits(acts.take(i)) == count_delivers(acts.take(j)),
    ensures
        ticket_of(run(init_model(), acts.take(i)), acts[i]) == ticket_of(
            run(init_model(), acts.take(j)),
            acts[j],
        ),
{
    lemma_run_counts(init_model(), acts.take(i));
    lemma_run_counts(init_model(), acts.take(j));
}

proof fn lemma_idle_persists(acts: Seq<Action>, p: int, q: int, t: nat)
    requires
        valid_run(init_model(), acts),
        0 <= p <= q <= acts.len(),
        run(init_model(), acts.take(p)).idle == Some(t),
        forall|k: int|
            p <= k < q ==> !((#[trigger] acts[k]) is Deliver && ticket_of(
                run(init_model(), acts.take(k)),
                acts[k],
            ) == t),
    ensures
        run(init_model(), acts.take(q)).idle == Some(t),
    decreases q - p,
{
    if p < q {
        let m = run(init_model(), acts.take(p));
        lemma_valid_run_enabled(init_model(), acts, p);
        lemma_run_take_succ(init_model(), acts, p);
        match acts[p] {
            Action::Submit(_) => {
                // not enabled while the wait command holds the writer
                assert(false);
            },
            Action::Deliver => {
                assert(ticket_of(m, acts[p]) == m.delivered);
                assert(m.delivered != t);
                assert(run(init_model(), acts.take(p + 1)).idle == Some(t));
            },
        }
        lemma_idle_persists(acts, p + 1, q, t);
    }
}

/// Idle exclusivity: while a long-poll wait command is outstanding, no
/// further command reaches the wire. In any valid run, if a wait command
/// is submitted at position `i` and another command is submitted later at
/// position `j`, then strictly between the two the wait command's own
/// frame was delivered (resolving its ticket and releasing the writer).
pub proof fn lemma_idle_exclusive(acts: Seq<Action>, i: int, j: int)
    requires
        valid_run(init_model(), acts),
        0 <= i < j < acts.len(),
        acts[i] == Action::Submit(true),
        acts[j] is Submit,
    ensures
        exists|k: int|
            i < k < j && (#[trigger] acts[k]) is Deliver && ticket_of(
                run(init_model(), acts.take(k)),
                acts[k],
            ) == ticket_of(run(init_model(), acts.take(i)), acts[i]),
{
    let t = ticket_of(run(init_model(), acts.take(i)), acts[i]);
    lemma_run_take_succ(init_model(), acts, i);
    assert(run(init_model(), acts.take(i + 1)).idle == Some(t));
    if forall|k: int|
        i < k < j ==> !((#[trigger] acts[k]) is Deliver && ticket_of(
            run(init_model(), acts.take(k)),
            acts[k],
        ) == t) {
        lemma_idle_persists(acts, i + 1, j, t);
        lemma_valid_run_enabled(init_model(), acts, j);
        // the later submission would find the writer still held
        assert(false);
    }
}

} // verus!
