//! Several periodic routines on one thread: whichever is due soonest runs
//! next.
use vstd::prelude::*;
use crate::rate::{lemma_period_bounds, lemma_period_monotonic, period_of, Rate, HORIZON};
use crate::spin::wait_until;

verus! {

/// One registration: a routine, the rate at which it wants to run, what to
/// do when it falls behind, and the instant at which it is next due.
pub struct BrokenSyncClient<R> {
    /// The routine. The scheduler carries it and never looks inside.
    pub callable: R,
    /// The instant at which the routine is next due.
    pub nextCall: u64,
    /// When set, a late routine takes its next beat from the clock and
    /// drops the beats it missed; when clear, it keeps its nominal beats
    /// and catches up one run at a time.
    pub frameSkip: bool,
    /// The rate at which the routine wants to run.
    pub hertz: Rate,
}

/// The timing of a registration as a mathematical value.
pub struct ClientView {
    pub next_call: nat,
    pub frame_skip: bool,
    pub millihertz: nat,
}

impl ClientView {
    /// Nanoseconds between two runs at the nominal rate.
    pub open spec fn period(self) -> nat {
        period_of(self.millihertz)
    }

    /// The timing after a run at instant `now`.
    pub open spec fn advanced(self, now: nat) -> ClientView {
        ClientView {
            next_call: if self.frame_skip {
                now + self.period()
            } else {
                self.next_call + self.period()
            },
            frame_skip: self.frame_skip,
            millihertz: self.millihertz,
        }
    }

    /// How many runs the client is owed at instant `now`, the clock held
    /// still: none before it is due; one if it skips missed beats; and
    /// otherwise one for the beat that is due and one for each whole period
    /// that has passed since.
    pub open spec fn pending(self, now: nat) -> nat {
        if self.next_call > now {
            0
        } else if self.frame_skip {
            1
        } else {
            ((now - self.next_call) / (self.period() as int) + 1) as nat
        }
    }
}

impl<R> View for BrokenSyncClient<R> {
    type V = ClientView;

    open spec fn view(&self) -> ClientView {
        ClientView {
            next_call: self.nextCall as nat,
            frame_skip: self.frameSkip,
            millihertz: self.hertz@,
        }
    }
}

impl<R> BrokenSyncClient<R> {
    /// A registration of `callable` at rate `hertz`, first due at `now`.
    pub fn new(callable: R, hertz: Rate, frameSkip: bool, now: u64) -> (client: Self)
        ensures
            client.callable == callable,
            client.hertz == hertz,
            client.nextCall == now,
            client.frameSkip == frameSkip,
    {
        BrokenSyncClient { callable, nextCall: now, frameSkip, hertz }
    }
}

/// What the thread that drives a scheduler does next.
#[derive(Clone, Copy, Debug, PartialEq, Eq, Structural)]
pub enum Step {
    /// Nothing ran and nothing is to be waited for.
    Idle,
    /// Sleep for this many nanoseconds, then step again.
    Sleep(u64),
    /// The client with this index has been given its next beat: invoke its
    /// routine.
    Run(usize),
}

/// A `Step` with unbounded numbers.
pub enum StepView {
    Idle,
    Sleep(nat),
    Run(int),
}

impl View for Step {
    type V = StepView;

    open spec fn view(&self) -> StepView {
        match *self {
            Step::Idle => StepView::Idle,
            Step::Sleep(wait) => StepView::Sleep(wait as nat),
            Step::Run(client) => StepView::Run(client as int),
        }
    }
}

/// Whether client `i` is the one to run next: none is due sooner, and of
/// those due at the same instant it was registered first.
pub open spec fn is_earliest(clients: Seq<ClientView>, i: int) -> bool {
    &&& 0 <= i < clients.len()
    &&& forall|j: int|
        0 <= j < clients.len() ==> clients[i].next_call <= (#[trigger] clients[j]).next_call
    &&& forall|j: int| 0 <= j < i ==> clients[i].next_call < (#[trigger] clients[j]).next_call
}

/// The index of the client to run next. Meaningful when there is a client.
pub open spec fn earliest(clients: Seq<ClientView>) -> int {
    choose|i: int| is_earliest(clients, i)
}

/// What a step at instant `now` does. With no client, nothing. Otherwise
/// the earliest client decides: if it is due it runs; if not, a blocking
/// step sleeps until it is and a non-blocking step does nothing.
pub open spec fn step_of(clients: Seq<ClientView>, block: bool, now: nat) -> StepView {
    if clients.len() == 0 {
        StepView::Idle
    } else {
        let i = earliest(clients);
        if clients[i].next_call > now {
            if block {
                StepView::Sleep(wait_until(clients[i].next_call, now))
            } else {
                StepView::Idle
            }
        } else {
            StepView::Run(i)
        }
    }
}

/// The clients after a step at instant `now`: the one that runs has its
/// next beat set, and nothing else changes.
pub open spec fn stepped(clients: Seq<ClientView>, block: bool, now: nat) -> Seq<ClientView> {
    match step_of(clients, block, now) {
        StepView::Run(i) => clients.update(i, clients[i].advanced(now)),
        _ => clients,
    }
}

/// The runs that all clients together are owed at instant `now`.
pub open spec fn backlog(clients: Seq<ClientView>, now: nat) -> nat
    decreases clients.len(),
{
    if clients.len() == 0 {
        0
    } else {
        backlog(clients.drop_last(), now) + clients.last().pending(now)
    }
}

/// The clients after `n` non-blocking steps, all at instant `now`.
pub open spec fn drained(clients: Seq<ClientView>, now: nat, n: nat) -> Seq<ClientView>
    decreases n,
{
    if n == 0 {
        clients
    } else {
        stepped(drained(clients, now, (n - 1) as nat), false, now)
    }
}

/// The clients that `n` non-blocking steps at instant `now` run, in order.
pub open spec fn runs(clients: Seq<ClientView>, now: nat, n: nat) -> Seq<int>
    decreases n,
{
    if n == 0 {
        Seq::empty()
    } else {
        let before = runs(clients, now, (n - 1) as nat);
        match step_of(drained(clients, now, (n - 1) as nat), false, now) {
            StepView::Run(i) => before.push(i),
            _ => before,
        }
    }
}

/// How often `client` occurs among the clients that were run.
pub open spec fn times_run(ran: Seq<int>, client: int) -> nat
    decreases ran.len(),
{
    if ran.len() == 0 {
        0
    } else {
        times_run(ran.drop_last(), client) + if ran.last() == client {
            1nat
        } else {
            0nat
        }
    }
}

/// A scheduler of periodic routines for one thread. Clients are known by
/// the order in which they were added, counted from zero, and are never
/// removed.
pub struct BrokenSyncManager<R> {
    clients: Vec<BrokenSyncClient<R>>,
}

impl<R> Default for BrokenSyncManager<R> {
    fn default() -> (manager: Self)
        ensures
            manager.clients() == Seq::<BrokenSyncClient<R>>::empty(),
    {
        BrokenSyncManager::new()
    }
}

impl<R> BrokenSyncManager<R> {
    /// The registrations, in the order in which they were added.
    pub closed spec fn clients(&self) -> Seq<BrokenSyncClient<R>> {
        self.clients@
    }

    /// The timing of every registration.
    pub open spec fn view(&self) -> Seq<ClientView> {
        Seq::new(self.clients().len(), |i: int| self.clients()[i]@)
    }

    /// The routine of every registration.
    pub open spec fn callables(&self) -> Seq<R> {
        Seq::new(self.clients().len(), |i: int| self.clients()[i].callable)
    }

    /// A scheduler without clients.
    pub fn new() -> (manager: Self)
        ensures
            manager.clients() == Seq::<BrokenSyncClient<R>>::empty(),
    {
        BrokenSyncManager { clients: Vec::new() }
    }

    /// Registers `client` behind those already there.
    pub fn add(&mut self, client: BrokenSyncClient<R>)
        ensures
            final(self).clients() == old(self).clients().push(client),
    {
        self.clients.push(client);
    }

    /// The number of clients.
    pub fn len(&self) -> (n: usize)
        ensures
            n == self.clients().len(),
    {
        self.clients.len()
    }

    /// The client with index `client`.
    pub fn client(&self, client: usize) -> (found: Option<&BrokenSyncClient<R>>)
        ensures
            client < self.clients().len() ==> found == Some(&self.clients()[client as int]),
            client >= self.clients().len() ==> found.is_none(),
    {
        if client < self.clients.len() {
            Some(&self.clients[client])
        } else {
            None
        }
    }

    /// The routine of the client with index `client`, to invoke or to
    /// replace. The timing of every client stays as it is.
    pub fn callable(&mut self, client: usize) -> (routine: &mut R)
        requires
            client < old(self).clients().len(),
        ensures
            *routine == old(self).callables()[client as int],
            final(self).callables() == old(self).callables().update(client as int, *final(routine)),
            final(self)@ == old(self)@,
    {
        &mut self.clients[client].callable
    }

    /// Finds the client to run next.
    fn select(&self) -> (i: usize)
        requires
            self.clients().len() > 0,
        ensures
            is_earliest(self@, i as int),
    {
        let mut best: usize = 0;
        let mut j: usize = 1;
        while j < self.clients.len()
            invariant
                1 <= j <= self.clients.len(),
                is_earliest(self@.take(j as int), best as int),
            decreases self.clients.len() - j,
        {
            let ghost seen = self@.take(j as int);
            let ghost more = self@.take(j + 1);
            if self.clients[j].nextCall < self.clients[best].nextCall {
                proof {
                    assert forall|k: int| 0 <= k < more.len() implies more[j as int].next_call <= (
                    #[trigger] more[k]).next_call by {
                        if k < j {
                            assert(seen[best as int].next_call <= seen[k].next_call);
                        }
                    }
                    assert forall|k: int| 0 <= k < j implies more[j as int].next_call < (
                    #[trigger] more[k]).next_call by {
                        assert(seen[best as int].next_call <= seen[k].next_call);
                    }
                }
                best = j;
            } else {
                proof {
                    assert forall|k: int| 0 <= k < more.len() implies more[best as int].next_call
                        <= (#[trigger] more[k]).next_call by {
                        if k < j {
                            assert(seen[best as int].next_call <= seen[k].next_call);
                        }
                    }
                    assert forall|k: int| 0 <= k < best implies more[best as int].next_call < (
                    #[trigger] more[k]).next_call by {
                        assert(seen[best as int].next_call < seen[k].next_call);
                    }
                }
            }
            j = j + 1;
        }
        proof {
            assert(self@.take(j as int) =~= self@);
        }
        best
    }

    /// Performs the next step at instant `now`.
    ///
    /// The client due soonest decides; of several due at the same instant,
    /// the one registered first. If it is due, its next beat is set and the
    /// step says to run it: with `frameSkip` the beat is one period after
    /// `now`, without it one period after the beat that was due. If it is
    /// not due yet, a blocking step says how long to sleep and leaves every
    /// client as it was, and a non-blocking step does nothing. Without
    /// clients every step does nothing.
    pub fn step(&mut self, block: bool, now: u64) -> (step: Step)
        requires
            now <= HORIZON,
        ensures
            step@ == step_of(old(self)@, block, now as nat),
            final(self)@ == stepped(old(self)@, block, now as nat),
            final(self).callables() == old(self).callables(),
    {
        if self.clients.len() == 0 {
            return Step::Idle;
        }
        let i = self.select();
        proof {
            lemma_earliest(self@);
        }
        let due: u64 = self.clients[i].nextCall;
        if due > now {
            if block {
                Step::Sleep(due - now)
            } else {
                Step::Idle
            }
        } else {
            let period: u64 = self.clients[i].hertz.period();
            let beat: u64 = if self.clients[i].frameSkip {
                now + period
            } else {
                due + period
            };
            self.clients[i].nextCall = beat;
            proof {
                assert(final(self)@ =~= stepped(old(self)@, block, now as nat));
                assert(final(self).callables() =~= old(self).callables());
            }
            Step::Run(i)
        }
    }

    /// Runs every client that is due at instant `now`: steps without
    /// blocking, the clock held at `now`, until a step runs nothing.
    /// Returns the clients whose routines are to be invoked, in order.
    ///
    /// Each client is returned as often as it is owed a run, so a client
    /// that keeps its nominal beats appears once for every beat up to
    /// `now`. Afterwards no client is due.
    pub fn next(&mut self, now: u64) -> (ran: Vec<usize>)
        requires
            now <= HORIZON,
        ensures
            ran@.len() == backlog(old(self)@, now as nat),
            ran@.map_values(|client: usize| client as int) == runs(
                old(self)@,
                now as nat,
                backlog(old(self)@, now as nat),
            ),
            final(self)@ == drained(old(self)@, now as nat, backlog(old(self)@, now as nat)),
            step_of(final(self)@, false, now as nat) == StepView::Idle,
            final(self).callables() == old(self).callables(),
    {
        let mut ran: Vec<usize> = Vec::new();
        let ghost start = self@;
        proof {
            assert(ran@.map_values(|client: usize| client as int) =~= runs(start, now as nat, 0));
        }
        loop
            invariant_except_break
                ran@.len() + backlog(self@, now as nat) == backlog(start, now as nat),
            invariant
                now <= HORIZON,
                self@ == drained(start, now as nat, ran@.len()),
                ran@.map_values(|client: usize| client as int) == runs(
                    start,
                    now as nat,
                    ran@.len(),
                ),
                self.callables() == old(self).callables(),
            ensures
                ran@.len() == backlog(start, now as nat),
                step_of(self@, false, now as nat) == StepView::Idle,
            decreases backlog(self@, now as nat),
        {
            let ghost before = self@;
            let ghost done = ran@;
            proof {
                lemma_step_backlog(before, now as nat);
            }
            match self.step(false, now) {
                Step::Run(client) => {
                    ran.push(client);
                    proof {
                        assert(ran@.map_values(|client: usize| client as int) =~= done.map_values(
                            |client: usize| client as int,
                        ).push(client as int));
                    }
                },
                _ => {
                    break ;
                },
            }
        }
        ran
    }
}

/// Among one or more clients exactly one is the earliest.
pub proof fn lemma_earliest(clients: Seq<ClientView>)
    requires
        clients.len() > 0,
    ensures
        is_earliest(clients, earliest(clients)),
        forall|i: int| is_earliest(clients, i) ==> i == earliest(clients),
    decreases clients.len(),
{
    if clients.len() == 1 {
        assert(is_earliest(clients, 0));
    } else {
        let front = clients.drop_last();
        lemma_earliest(front);
        let e = earliest(front);
        let last = clients.len() - 1;
        assert forall|j: int| 0 <= j < last implies front[j] == clients[j] by {}
        if clients[last].next_call < clients[e].next_call {
            assert forall|j: int| 0 <= j < clients.len() implies clients[last].next_call <= (
            #[trigger] clients[j]).next_call by {
                if j < last {
                    assert(front[e].next_call <= front[j].next_call);
                }
            }
            assert forall|j: int| 0 <= j < last implies clients[last].next_call < (
            #[trigger] clients[j]).next_call by {
                assert(front[e].next_call <= front[j].next_call);
            }
            assert(is_earliest(clients, last));
        } else {
            assert forall|j: int| 0 <= j < clients.len() implies clients[e].next_call <= (
            #[trigger] clients[j]).next_call by {
                if j < last {
                    assert(front[e].next_call <= front[j].next_call);
                }
            }
            assert forall|j: int| 0 <= j < e implies clients[e].next_call < (
            #[trigger] clients[j]).next_call by {
                assert(front[e].next_call < front[j].next_call);
            }
            assert(is_earliest(clients, e));
        }
    }
    let chosen = earliest(clients);
    assert forall|i: int| is_earliest(clients, i) implies i == chosen by {
        if i < chosen {
            assert(clients[chosen].next_call < clients[i].next_call);
            assert(clients[i].next_call <= clients[chosen].next_call);
        } else if chosen < i {
            assert(clients[i].next_call < clients[chosen].next_call);
            assert(clients[chosen].next_call <= clients[i].next_call);
        }
    }
}

/// A run pays off exactly one of the runs that a due client is owed.
pub proof fn lemma_run_pays_one(client: ClientView, now: nat)
    requires
        client.next_call <= now,
    ensures
        client.advanced(now).pending(now) + 1 == client.pending(now),
{
    lemma_period_bounds(client.millihertz);
    if !client.frame_skip {
        let p = client.period() as int;
        let late = now - client.next_call;
        if late >= p {
            assert((late - p) / p + 1 == late / p) by (nonlinear_arith)
                requires
                    p > 0,
                    late >= p,
            ;
        } else {
            assert(late / p == 0) by (nonlinear_arith)
                requires
                    p > 0,
                    0 <= late < p,
            ;
        }
    }
}

/// Replacing one client changes the backlog by what that client is owed.
pub proof fn lemma_backlog_update(clients: Seq<ClientView>, i: int, client: ClientView, now: nat)
    requires
        0 <= i < clients.len(),
    ensures
        backlog(clients.update(i, client), now) + clients[i].pending(now) == backlog(clients, now)
            + client.pending(now),
    decreases clients.len(),
{
    let changed = clients.update(i, client);
    if i == clients.len() - 1 {
        assert(changed.drop_last() =~= clients.drop_last());
    } else {
        lemma_backlog_update(clients.drop_last(), i, client, now);
        assert(changed.drop_last() =~= clients.drop_last().update(i, client));
    }
}

/// Nothing is owed exactly when no client is due.
pub proof fn lemma_backlog_zero(clients: Seq<ClientView>, now: nat)
    ensures
        backlog(clients, now) == 0 <==> forall|j: int|
            0 <= j < clients.len() ==> (#[trigger] clients[j]).next_call > now,
    decreases clients.len(),
{
    if clients.len() > 0 {
        let front = clients.drop_last();
        lemma_backlog_zero(front, now);
        let last = clients.last();
        lemma_period_bounds(last.millihertz);
        if last.next_call <= now && !last.frame_skip {
            let p = last.period() as int;
            let late = now - last.next_call;
            assert(late / p >= 0) by (nonlinear_arith)
                requires
                    p > 0,
                    late >= 0,
            ;
        }
        if backlog(clients, now) == 0 {
            assert forall|j: int| 0 <= j < clients.len() implies (#[trigger] clients[j]).next_call
                > now by {
                if j < clients.len() - 1 {
                    assert(front[j].next_call > now);
                }
            }
        } else {
            if backlog(front, now) != 0 {
                let j = choose|j: int| 0 <= j < front.len() && !((#[trigger] front[j]).next_call > now);
                assert(clients[j].next_call <= now);
            } else {
                assert(clients[clients.len() - 1].next_call <= now);
            }
        }
    }
}

/// A non-blocking step either runs a client, and then the backlog falls by
/// one, or runs none, and then there is no backlog.
pub proof fn lemma_step_backlog(clients: Seq<ClientView>, now: nat)
    ensures
        step_of(clients, false, now) is Run ==> backlog(stepped(clients, false, now), now) + 1
            == backlog(clients, now),
        !(step_of(clients, false, now) is Run) ==> step_of(clients, false, now) == StepView::Idle
            && backlog(clients, now) == 0,
{
    lemma_backlog_zero(clients, now);
    if clients.len() > 0 {
        lemma_earliest(clients);
        let i = earliest(clients);
        if clients[i].next_call <= now {
            lemma_run_pays_one(clients[i], now);
            lemma_backlog_update(clients, i, clients[i].advanced(now), now);
        } else {
            assert forall|j: int| 0 <= j < clients.len() implies (#[trigger] clients[j]).next_call
                > now by {
                assert(clients[i].next_call <= clients[j].next_call);
            }
        }
    }
}

/// What `n` non-blocking steps at instant `now` have done, for `n` up to the
/// backlog: each ran a client, the backlog fell by `n`, and every client
/// was run as often as what it is owed has fallen.
pub proof fn lemma_drain_progress(clients: Seq<ClientView>, now: nat, n: nat, i: int)
    requires
        n <= backlog(clients, now),
        0 <= i < clients.len(),
    ensures
        drained(clients, now, n).len() == clients.len(),
        runs(clients, now, n).len() == n,
        backlog(drained(clients, now, n), now) + n == backlog(clients, now),
        times_run(runs(clients, now, n), i) + drained(clients, now, n)[i].pending(now)
            == clients[i].pending(now),
    decreases n,
{
    if n > 0 {
        let m = (n - 1) as nat;
        lemma_drain_progress(clients, now, m, i);
        let before = drained(clients, now, m);
        let ran = runs(clients, now, m);
        lemma_step_backlog(before, now);
        lemma_earliest(before);
        let e = earliest(before);
        assert(step_of(before, false, now) == StepView::Run(e));
        lemma_run_pays_one(before[e], now);
        assert(ran.push(e).drop_last() =~= ran);
    }
}

/// Earliest deadline first. A step runs a client only if it is due and no
/// other client is due sooner.
pub proof fn lemma_runs_earliest_due(clients: Seq<ClientView>, block: bool, now: nat, i: int)
    requires
        step_of(clients, block, now) == StepView::Run(i),
    ensures
        0 <= i < clients.len(),
        clients[i].next_call <= now,
        forall|j: int|
            0 <= j < clients.len() ==> clients[i].next_call <= (#[trigger] clients[j]).next_call,
{
    lemma_earliest(clients);
}

/// Without clients a step does nothing, blocking or not: it runs nothing,
/// asks for no sleep and leaves the scheduler empty.
pub proof fn lemma_empty_is_idle(block: bool, now: nat)
    ensures
        step_of(Seq::<ClientView>::empty(), block, now) == StepView::Idle,
        stepped(Seq::<ClientView>::empty(), block, now) == Seq::<ClientView>::empty(),
{
}

/// A blocking step gets a client run. With clients, a blocking step is
/// never idle. When it asks for a sleep, it leaves the clients as they
/// were, the sleep ends exactly when the earliest client is due, and a
/// step taken then or later runs that client.
pub proof fn lemma_blocking_step_runs(clients: Seq<ClientView>, now: nat, later: nat)
    requires
        clients.len() > 0,
    ensures
        step_of(clients, true, now) != StepView::Idle,
        step_of(clients, true, now) matches StepView::Sleep(wait) ==> {
            &&& wait > 0
            &&& now + wait == clients[earliest(clients)].next_call
            &&& stepped(clients, true, now) == clients
            &&& later >= now + wait ==> step_of(clients, true, later) == StepView::Run(
                earliest(clients),
            )
        },
{
    lemma_earliest(clients);
}

/// Frame skip against catch-up. Take a client that is `missed` whole
/// periods late at instant `now`. If it skips frames, one run sets its next
/// beat one period after `now` and it is owed nothing more. If it does
/// not, a run moves its beat on by one period only, and it is owed
/// `missed + 1` runs before it has caught up. On its own in a scheduler, a
/// drain at `now` runs it exactly that often.
pub proof fn lemma_frame_skip_or_catch_up(client: ClientView, now: nat, missed: nat)
    requires
        client.next_call + missed * client.period() <= now,
        now < client.next_call + (missed + 1) * client.period(),
    ensures
        client.frame_skip ==> client.advanced(now).next_call == now + client.period()
            && client.pending(now) == 1 && client.advanced(now).pending(now) == 0,
        !client.frame_skip ==> client.advanced(now).next_call == client.next_call + client.period()
            && client.pending(now) == missed + 1,
        backlog(seq![client], now) == client.pending(now),
{
    lemma_period_bounds(client.millihertz);
    let p = client.period() as int;
    let late = now - client.next_call;
    assert(late >= 0) by (nonlinear_arith)
        requires
            late >= missed * p,
            p > 0,
            missed >= 0,
    ;
    assert(late / p == missed) by (nonlinear_arith)
        requires
            p > 0,
            missed * p <= late < (missed + 1) * p,
    ;
    assert(seq![client].drop_last() =~= Seq::<ClientView>::empty());
    assert(backlog(seq![client].drop_last(), now) == 0);
}

/// One late client, step by step. A lone client that is due runs at the
/// next step, blocking or not. If it skips frames, its next beat is one
/// period after `now` and a second step at the same instant runs nothing.
/// If it does not, its beat moves on by one period only, and as long as
/// that beat is not after `now` the next step runs it again.
pub proof fn lemma_lone_client_step(client: ClientView, block: bool, now: nat)
    requires
        client.next_call <= now,
    ensures
        step_of(seq![client], block, now) == StepView::Run(0),
        stepped(seq![client], block, now) == seq![client.advanced(now)],
        client.frame_skip ==> client.advanced(now).next_call == now + client.period() && step_of(
            stepped(seq![client], block, now),
            false,
            now,
        ) == StepView::Idle,
        !client.frame_skip ==> client.advanced(now).next_call == client.next_call
            + client.period(),
        !client.frame_skip && client.next_call + client.period() <= now ==> step_of(
            stepped(seq![client], block, now),
            false,
            now,
        ) == StepView::Run(0),
{
    lemma_period_bounds(client.millihertz);
    let alone = seq![client];
    lemma_earliest(alone);
    assert(is_earliest(alone, 0));
    let after = seq![client.advanced(now)];
    assert(alone.update(0, client.advanced(now)) =~= after);
    lemma_earliest(after);
    assert(is_earliest(after, 0));
}

/// Two clients that start together. Of two clients that keep their nominal
/// beats and were due at the same instant, a drain at any later instant
/// `now` runs each once for the beat that was due and once more for every
/// whole period of its own gone by since: both at least once, and the one
/// with the higher rate at least as often as the other.
pub proof fn lemma_drain_of_two(faster: ClientView, slower: ClientView, now: nat)
    requires
        faster.next_call == slower.next_call,
        faster.next_call <= now,
        !faster.frame_skip,
        !slower.frame_skip,
        0 < slower.millihertz <= faster.millihertz,
    ensures
        times_run(runs(seq![faster, slower], now, backlog(seq![faster, slower], now)), 0) == (now
            - faster.next_call) / (faster.period() as int) + 1,
        times_run(runs(seq![faster, slower], now, backlog(seq![faster, slower], now)), 1) == (now
            - slower.next_call) / (slower.period() as int) + 1,
        times_run(runs(seq![faster, slower], now, backlog(seq![faster, slower], now)), 1) >= 1,
        times_run(runs(seq![faster, slower], now, backlog(seq![faster, slower], now)), 0)
            >= times_run(runs(seq![faster, slower], now, backlog(seq![faster, slower], now)), 1),
{
    let both = seq![faster, slower];
    assert(both[0] == faster && both[1] == slower);
    lemma_drain_runs_what_is_owed(both, now, 0);
    lemma_drain_runs_what_is_owed(both, now, 1);
    lemma_faster_is_owed_more(faster, slower, now);
    lemma_period_bounds(slower.millihertz);
    lemma_period_bounds(faster.millihertz);
    let late = now - slower.next_call;
    let long = slower.period() as int;
    let short = faster.period() as int;
    assert(late / long >= 0 && late / short >= 0) by (nonlinear_arith)
        requires
            long > 0,
            short > 0,
            late >= 0,
    ;
}

/// Every client gets what it is owed. A drain at instant `now` runs each
/// client exactly as often as it is owed a run at `now`: not at all if it
/// is not due, once if it skips frames, and otherwise once for the beat
/// that is due and once more for every whole period gone by since.
pub proof fn lemma_drain_runs_what_is_owed(clients: Seq<ClientView>, now: nat, i: int)
    requires
        0 <= i < clients.len(),
    ensures
        times_run(runs(clients, now, backlog(clients, now)), i) == clients[i].pending(now),
{
    let n = backlog(clients, now);
    lemma_drain_progress(clients, now, n, i);
    let after = drained(clients, now, n);
    lemma_backlog_zero(after, now);
    assert(after[i].next_call > now);
}

/// The faster client runs at least as often. Of two clients that were due
/// at the same instant and treat missed beats alike, the one with the
/// higher rate is owed at least as many runs at any later instant.
pub proof fn lemma_faster_is_owed_more(faster: ClientView, slower: ClientView, now: nat)
    requires
        faster.next_call == slower.next_call,
        faster.frame_skip == slower.frame_skip,
        0 < slower.millihertz <= faster.millihertz,
    ensures
        faster.pending(now) >= slower.pending(now),
{
    lemma_period_monotonic(slower.millihertz, faster.millihertz);
    lemma_period_bounds(slower.millihertz);
    lemma_period_bounds(faster.millihertz);
    if faster.next_call <= now && !faster.frame_skip {
        let late = now - faster.next_call;
        let short = faster.period() as int;
        let long = slower.period() as int;
        assert(late / long <= late / short) by (nonlinear_arith)
            requires
                0 < short <= long,
                late >= 0,
        ;
    }
}

} // verus!
