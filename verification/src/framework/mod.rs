//! The application facade and the frame driver behind it.

pub mod destroy_queue;
pub mod driver;

use crate::error::Error;
use crate::interfaces::{lemma_destroyed_all_is_without, may_assign, RHI};
use destroy_queue::{enqueued, DestroyQueue};
use driver::{frame_outcome, lemma_primary_lost_halts, DriverState, FrameOutcome, RunReport};
use vstd::prelude::*;

verus! {

/// The entry surface of the framework: one backend, the queue of windows that
/// wait to be destroyed, and the frame driver's state.
pub struct AurenFoxFramework<B: RHI> {
    pub backend: B,
    pub destroy_queue: DestroyQueue,
    pub state: DriverState,
}

impl<B: RHI> AurenFoxFramework<B> {
    /// What the next tick comes to.
    pub open spec fn next_outcome(&self) -> FrameOutcome {
        frame_outcome(self.state, self.backend@, self.destroy_queue@)
    }

    /// The backend went from `before` to `after` by destroying the windows
    /// `ids` one after the other, first to last. `steps` holds the backend
    /// before each of the calls, and after the last.
    pub open spec fn destroyed_in_turn(before: B, ids: Seq<usize>, after: B, steps: Seq<B>) -> bool {
        &&& steps.len() == ids.len() + 1
        &&& steps[0] == before
        &&& steps[ids.len() as int] == after
        &&& forall|i: int|
            0 <= i < ids.len() ==> steps[i].window_destroyed(#[trigger] ids[i], &steps[i + 1])
    }

    /// The backend went from `before` to `after` by destroying the windows
    /// `ids` one after the other, first to last, and by nothing else.
    pub open spec fn cleaned(before: B, ids: Seq<usize>, after: B) -> bool {
        &&& after@ == before@.destroyed_all(ids)
        &&& exists|steps: Seq<B>| #[trigger] Self::destroyed_in_turn(before, ids, after, steps)
    }

    /// `later` is `self` after the cleanup and the frame start of a tick: the
    /// queue is empty, what was in it is destroyed, in its order, and the
    /// backend has started a frame on what was left. The backend was asked
    /// for nothing else.
    pub open spec fn frame_opened(&self, later: &Self) -> bool {
        &&& later.state == DriverState::Running
        &&& later.destroy_queue@ == Seq::<usize>::empty()
        &&& self.backend@.without(self.destroy_queue@.to_set()).frame_started(later.backend@)
        &&& exists|mid: B|
            {
                &&& #[trigger] Self::cleaned(self.backend, self.destroy_queue@, mid)
                &&& mid.frame_begun(&later.backend)
            }
    }

    /// `later` is `self` after the frame end of a tick: the backend has ended
    /// the frame, and nothing else is touched.
    pub open spec fn frame_closed(&self, later: &Self) -> bool {
        &&& self.backend.frame_ended(&later.backend)
        &&& later.backend@ == self.backend@
        &&& later.destroy_queue == self.destroy_queue
        &&& later.state == self.state
    }

    /// `later` is `self` after a terminate check that fired: the driver is
    /// terminated, and neither the backend nor the queue was touched.
    pub open spec fn terminated(&self, later: &Self) -> bool {
        &&& later.state == DriverState::Terminated
        &&& later.backend == self.backend
        &&& later.destroy_queue == self.destroy_queue
    }

    /// `later` is `self` one tick on, where no user code is run. A tick that
    /// ends at its terminate check touches nothing. A halted tick opens the
    /// frame and stops. An active tick opens the frame and closes it.
    pub open spec fn kept_house(&self, later: &Self) -> bool {
        match self.next_outcome() {
            FrameOutcome::Terminated => self.terminated(later),
            FrameOutcome::Halted => self.frame_opened(later) && later.backend@.terminating,
            FrameOutcome::Active => exists|opened: Self|
                {
                    &&& #[trigger] self.frame_opened(&opened)
                    &&& !opened.backend@.terminating
                    &&& opened.frame_closed(later)
                },
        }
    }

    /// `self`, with an idle driver set running.
    pub open spec fn started(&self) -> Self {
        AurenFoxFramework {
            backend: self.backend,
            destroy_queue: self.destroy_queue,
            state: if self.state == DriverState::Idle {
                DriverState::Running
            } else {
                self.state
            },
        }
    }

    /// How many of the first `n` states of `trace` stand before an active
    /// tick.
    pub open spec fn active_among(trace: Seq<Self>, n: int) -> int
        decreases n,
    {
        if n <= 0 {
            0
        } else {
            Self::active_among(trace, n - 1) + if trace[n - 1].next_outcome()
                == FrameOutcome::Active {
                1int
            } else {
                0int
            }
        }
    }

    /// `trace` holds the framework before each of the `frames` ticks of a run
    /// that got past their terminate checks, and after the last of them. The
    /// run began at `start`; `active` of the ticks were active; and each tick
    /// in which no user code was due, or none was there, kept house.
    pub open spec fn traced(
        start: Self,
        trace: Seq<Self>,
        frames: int,
        active: int,
        with_code: bool,
    ) -> bool {
        &&& trace.len() == frames + 1
        &&& trace[0] == start
        &&& active == Self::active_among(trace, frames)
        &&& forall|k: int|
            0 <= k < frames ==> {
                &&& (#[trigger] trace[k]).next_outcome() != FrameOutcome::Terminated
                &&& trace[k].next_outcome() != FrameOutcome::Active || !with_code
                    ==> trace[k].kept_house(&trace[k + 1])
            }
    }

    /// The tick on the state `k` of `trace` is an active one.
    pub open spec fn active_at(trace: Seq<Self>, k: int) -> bool {
        trace[k].next_outcome() == FrameOutcome::Active
    }

    /// `traced`, folded up.
    #[verifier::opaque]
    spec fn so_far(start: Self, trace: Seq<Self>, frames: int, active: int, with_code: bool)
        -> bool {
        Self::traced(start, trace, frames, active, with_code)
    }

    /// A halted tick is the last tick of its run: whatever user code did in
    /// the ticks before, once a frame start has raised the flag, no further
    /// frame is opened, no user code is run and no frame is ended.
    pub proof fn lemma_halted_tick_is_last(
        start: Self,
        trace: Seq<Self>,
        frames: int,
        active: int,
        with_code: bool,
        k: int,
    )
        requires
            Self::traced(start, trace, frames, active, with_code),
            0 <= k < frames,
            trace[k].next_outcome() == FrameOutcome::Halted,
        ensures
            k == frames - 1,
            trace[frames].backend@.terminating,
    {
        assert(trace[k].kept_house(&trace[k + 1]));
        if k + 1 < frames {
            assert(trace[k + 1].next_outcome() != FrameOutcome::Terminated);
        }
    }

    /// Once the primary window is gone, the run is over with the next tick.
    /// If the framework stands, before some tick of a run, with its primary
    /// window destroyed, queued for destruction or reported closed, then
    /// that tick is halted, so that it runs no user code and ends no frame,
    /// and it is the last tick of the run.
    pub proof fn lemma_run_ends_once_primary_is_lost(
        start: Self,
        trace: Seq<Self>,
        frames: int,
        active: int,
        with_code: bool,
        k: int,
        primary: usize,
    )
        requires
            Self::traced(start, trace, frames, active, with_code),
            0 <= k < frames,
            trace[k].backend@.primary == Some(primary),
            !trace[k].backend@.live().contains(primary) || trace[k].destroy_queue@.contains(
                primary,
            ) || trace[k].backend@.closing().contains(primary),
        ensures
            trace[k].next_outcome() == FrameOutcome::Halted,
            k == frames - 1,
            trace[frames].backend@.terminating,
    {
        assert(trace[k].next_outcome() != FrameOutcome::Terminated);
        lemma_primary_lost_halts(
            trace[k].state,
            trace[k].backend@,
            trace[k].destroy_queue@,
            primary,
        );
        Self::lemma_halted_tick_is_last(start, trace, frames, active, with_code, k);
    }

    /// The count of active ticks looks at the states before the ticks only.
    pub proof fn lemma_active_among_push(trace: Seq<Self>, n: int, next: Self)
        requires
            0 <= n <= trace.len(),
        ensures
            Self::active_among(trace.push(next), n) == Self::active_among(trace, n),
            0 <= Self::active_among(trace, n) <= n,
        decreases n,
    {
        if n > 0 {
            Self::lemma_active_among_push(trace, n - 1, next);
            assert(trace.push(next)[n - 1] == trace[n - 1]);
        }
    }

    /// A framework over `backend_struct`, with nothing queued and the driver
    /// idle.
    pub fn new(backend_struct: B) -> (app: Self)
        ensures
            app.backend == backend_struct,
            app.destroy_queue@ == Seq::<usize>::empty(),
            app.state == DriverState::Idle,
    {
        Self {
            backend: backend_struct,
            destroy_queue: DestroyQueue::new(),
            state: DriverState::Idle,
        }
    }

    /// Creates a window through the backend and gives its identity: `id` if
    /// one is asked for, the first gap among the live identities if not. A
    /// failure changes nothing.
    pub fn create_window(&mut self, title: &str, width: u32, height: u32, id: Option<usize>) -> (r:
        Result<usize, Error>)
        ensures
            match r {
                Ok(n) => {
                    &&& may_assign(old(self).backend@.live(), id, n)
                    &&& final(self).backend@ == old(self).backend@.created(n)
                },
                Err(e) => {
                    &&& final(self).backend@ == old(self).backend@
                    &&& e == Error::DuplicateIdentity <==> (id matches Some(wanted) && old(
                        self,
                    ).backend@.live().contains(wanted))
                },
            },
            (id matches Some(wanted) && old(self).backend@.live().contains(wanted)) ==> r is Err,
            old(self).backend.window_created(title@, width, height, id, &final(self).backend, r),
            final(self).destroy_queue == old(self).destroy_queue,
            final(self).state == old(self).state,
    {
        return self.backend.create_window(title, width, height, id);
    }

    /// Names `id` the primary window: the run loop ends once it is gone.
    /// Whether such a window is live is not looked at here.
    pub fn assign_master(&mut self, id: usize)
        ensures
            final(self).backend@ == old(self).backend@.with_master(id),
            old(self).backend.master_assigned(id, &final(self).backend),
            final(self).destroy_queue == old(self).destroy_queue,
            final(self).state == old(self).state,
    {
        self.backend.assign_master(id);
    }

    /// Queues the window `id` for destruction at the start of the next tick.
    /// No window goes before that.
    pub fn queue_destroy(&mut self, id: usize)
        ensures
            final(self).destroy_queue@ == enqueued(old(self).destroy_queue@, id),
            final(self).backend == old(self).backend,
            final(self).state == old(self).state,
    {
        self.destroy_queue.enqueue(id);
    }

    /// Destroys the window `id` on the spot. Nothing happens if no such
    /// window is live.
    pub fn destroy(&mut self, id: &usize)
        ensures
            final(self).backend@ == old(self).backend@.destroyed(*id),
            !old(self).backend@.live().contains(*id) ==> final(self).backend@ == old(self).backend@,
            old(self).backend.window_destroyed(*id, &final(self).backend),
            final(self).destroy_queue == old(self).destroy_queue,
            final(self).state == old(self).state,
    {
        self.backend.destroy_window(*id);
    }

    /// Empties the destroy queue and destroys each window that was in it, in
    /// the order in which they were queued. The backend is asked for nothing
    /// else.
    pub fn process_destroy_queue(&mut self)
        ensures
            final(self).destroy_queue@ == Seq::<usize>::empty(),
            Self::cleaned(old(self).backend, old(self).destroy_queue@, final(self).backend),
            final(self).backend@ == old(self).backend@.without(old(self).destroy_queue@.to_set()),
            final(self).state == old(self).state,
    {
        let targets: Vec<usize> = self.destroy_queue.drain();
        let ghost mut steps: Seq<B> = seq![self.backend];
        let mut i: usize = 0;
        while i < targets.len()
            invariant
                i <= targets.len(),
                targets@ == old(self).destroy_queue@,
                self.destroy_queue@ == Seq::<usize>::empty(),
                self.state == old(self).state,
                self.backend@ == old(self).backend@.destroyed_all(targets@.take(i as int)),
                Self::destroyed_in_turn(
                    old(self).backend,
                    targets@.take(i as int),
                    self.backend,
                    steps,
                ),
            decreases targets.len() - i,
        {
            self.destroy(&targets[i]);
            proof {
                assert(targets@.take(i + 1).drop_last() =~= targets@.take(i as int));
                let earlier = steps;
                steps = steps.push(self.backend);
                assert forall|k: int| 0 <= k < i + 1 implies steps[k].window_destroyed(
                    #[trigger] targets@.take(i + 1)[k],
                    &steps[k + 1],
                ) by {
                    if k < i {
                        assert(targets@.take(i as int)[k] == targets@.take(i + 1)[k]);
                        assert(earlier[k].window_destroyed(
                            targets@.take(i as int)[k],
                            &earlier[k + 1],
                        ));
                    }
                }
            }
            i += 1;
        }
        proof {
            assert(targets@.take(i as int) =~= targets@);
            lemma_destroyed_all_is_without(old(self).backend@, old(self).destroy_queue@);
        }
    }

    /// Where the frame driver stands.
    pub fn state(&self) -> (state: DriverState)
        ensures
            state == self.state,
    {
        self.state
    }

    /// The first three steps of a tick. The terminate check comes first: if
    /// the driver has terminated or the backend's flag is up, the driver is
    /// terminated and nothing else is done. Else the destroy queue is
    /// processed and the backend starts the frame. If the frame start raised
    /// the flag, the tick is over: the caller runs no user code and no frame
    /// end. Else the frame is active: user code is due, and `end_tick` after
    /// it.
    pub fn begin_tick(&mut self) -> (outcome: FrameOutcome)
        ensures
            outcome == old(self).next_outcome(),
            outcome == FrameOutcome::Terminated ==> old(self).terminated(final(self)),
            outcome != FrameOutcome::Terminated ==> old(self).frame_opened(final(self)),
            outcome == FrameOutcome::Halted ==> final(self).backend@.terminating,
            outcome == FrameOutcome::Active ==> !final(self).backend@.terminating,
    {
        if self.state == DriverState::Terminated || self.backend.should_close() {
            self.state = DriverState::Terminated;
            return FrameOutcome::Terminated;
        }
        self.state = DriverState::Running;
        self.process_destroy_queue();
        let ghost cleaned = self.backend;
        self.backend.start_frame();
        proof {
            lemma_destroyed_all_is_without(old(self).backend@, old(self).destroy_queue@);
            assert(Self::cleaned(old(self).backend, old(self).destroy_queue@, cleaned));
            assert(cleaned.frame_begun(&self.backend));
        }
        if self.backend.should_close() {
            FrameOutcome::Halted
        } else {
            FrameOutcome::Active
        }
    }

    /// The last step of an active tick: the backend ends the frame. Neither
    /// the destroy queue nor the driver's state is touched.
    pub fn end_tick(&mut self)
        ensures
            old(self).frame_closed(final(self)),
            old(self).backend.frame_ended(&final(self).backend),
            final(self).backend@ == old(self).backend@,
            final(self).destroy_queue == old(self).destroy_queue,
            final(self).state == old(self).state,
    {
        self.backend.end_frame();
    }

    /// One tick: `begin_tick`, and if the frame is active, user code once, if
    /// there is any, and then `end_tick`. User code gets the whole framework
    /// and may do with it what it likes: what the frame end finds is what
    /// user code left.
    pub fn tick<F: FnMut(&mut AurenFoxFramework<B>)>(&mut self, user_code: &mut Option<F>) -> (outcome:
        FrameOutcome)
        requires
            *old(user_code) matches Some(f) ==> forall|app: &mut AurenFoxFramework<B>|
                call_requires(f, (app,)),
        ensures
            outcome == old(self).next_outcome(),
            outcome != FrameOutcome::Active || *old(user_code) is None ==> old(self).kept_house(
                final(self),
            ),
            outcome == FrameOutcome::Active ==> (*old(user_code) matches Some(f) ==> exists|
                app: &mut AurenFoxFramework<B>,
            |
                {
                    &&& old(self).frame_opened(&*app)
                    &&& !app.backend@.terminating
                    &&& #[trigger] call_ensures(f, (app,), ())
                    &&& final(app).frame_closed(final(self))
                }),
            outcome == FrameOutcome::Terminated ==> old(self).terminated(final(self)),
            outcome == FrameOutcome::Halted ==> {
                &&& old(self).frame_opened(final(self))
                &&& final(self).backend@.terminating
            },
            outcome == FrameOutcome::Active && *old(user_code) is None ==> {
                &&& final(self).state == DriverState::Running
                &&& final(self).destroy_queue@ == Seq::<usize>::empty()
                &&& old(self).backend@.without(old(self).destroy_queue@.to_set()).frame_started(
                    final(self).backend@,
                )
                &&& !final(self).backend@.terminating
            },
            *final(user_code) == *old(user_code),
    {
        let outcome = self.begin_tick();
        if outcome == FrameOutcome::Active {
            if let Some(code) = user_code {
                code(self);
            }
            self.end_tick();
        }
        outcome
    }

    /// Runs ticks until one ends at its terminate check, and reports how many
    /// got past it. An idle driver is set running. A driver that has
    /// terminated does not start again: the call does nothing then. The loop
    /// gives up after `u64::MAX` frames; short of that, the driver is
    /// terminated when the call returns.
    ///
    /// The run is a chain of ticks, each on what the tick before it left, and
    /// a terminate check at the end. In each active tick user code, if there
    /// is any, is handed the framework once, between the frame start and the
    /// frame end; in no other tick, and at no other time.
    ///
    /// What the first tick comes to is known beforehand. If it ends at the
    /// terminate check, no frame is run and nothing is touched but the
    /// driver's state. If its frame start raises the flag, which it does
    /// where no window is live or the primary one is gone, that one frame is
    /// opened, user code is not run, and the next terminate check ends the
    /// loop. If it is active, user code is run at least once.
    pub fn run<F: FnMut(&mut AurenFoxFramework<B>)>(&mut self, user_code: Option<F>) -> (report:
        RunReport)
        requires
            user_code matches Some(f) ==> forall|app: &mut AurenFoxFramework<B>|
                call_requires(f, (app,)),
        ensures
            report.active <= report.frames,
            report.frames < u64::MAX ==> final(self).state == DriverState::Terminated,
            exists|trace: Seq<Self>|
                {
                    &&& #[trigger] Self::traced(
                        old(self).started(),
                        trace,
                        report.frames as int,
                        report.active as int,
                        user_code is Some,
                    )
                    &&& forall|k: int|
                        0 <= k < report.frames && #[trigger] Self::active_at(trace, k) ==> (
                        user_code matches Some(f) ==> exists|app: &mut AurenFoxFramework<B>|
                            {
                                &&& trace[k].frame_opened(&*app)
                                &&& !app.backend@.terminating
                                &&& #[trigger] call_ensures(f, (app,), ())
                                &&& final(app).frame_closed(&trace[k + 1])
                            })
                    &&& {
                        ||| {
                            &&& trace[report.frames as int].next_outcome()
                                == FrameOutcome::Terminated
                            &&& trace[report.frames as int].terminated(final(self))
                        }
                        ||| {
                            &&& report.frames == u64::MAX
                            &&& *final(self) == trace[report.frames as int]
                        }
                    }
                },
            old(self).next_outcome() == FrameOutcome::Terminated ==> {
                &&& report.frames == 0
                &&& final(self).backend == old(self).backend
                &&& final(self).destroy_queue == old(self).destroy_queue
            },
            old(self).next_outcome() == FrameOutcome::Halted ==> {
                &&& report.frames == 1
                &&& report.active == 0
                &&& final(self).backend@.terminating
                &&& final(self).destroy_queue@ == Seq::<usize>::empty()
                &&& old(self).backend@.without(old(self).destroy_queue@.to_set()).frame_started(
                    final(self).backend@,
                )
                &&& exists|opened: Self|
                    {
                        &&& #[trigger] old(self).frame_opened(&opened)
                        &&& final(self).backend == opened.backend
                        &&& final(self).destroy_queue == opened.destroy_queue
                    }
            },
            old(self).next_outcome() == FrameOutcome::Active ==> {
                &&& report.frames >= 1
                &&& report.active >= 1
            },
            user_code is None && old(self).state != DriverState::Terminated && report.frames
                < u64::MAX ==> final(self).backend@.terminating,
            user_code is None && report.frames >= 1 ==> final(self).destroy_queue@ == Seq::<
                usize,
            >::empty(),
    {
        let ghost code = user_code;
        let mut slot = user_code;
        let mut frames: u64 = 0;
        let mut active: u64 = 0;
        let mut going = true;
        if self.state == DriverState::Idle {
            self.state = DriverState::Running;
        }
        let ghost start = *self;
        let ghost mut trace: Seq<Self> = seq![start];
        proof {
            assert(start == old(self).started());
            assert(Self::so_far(start, trace, 0, 0, code is Some)) by {
                reveal(AurenFoxFramework::so_far);
            }
        }
        while going && frames < u64::MAX
            invariant
                active <= frames,
                slot == code,
                slot matches Some(f) ==> forall|app: &mut AurenFoxFramework<B>|
                    call_requires(f, (app,)),
                start == old(self).started(),
                trace.len() == frames + 1,
                Self::so_far(start, trace, frames as int, active as int, code is Some),
                forall|k: int|
                    0 <= k < frames && #[trigger] Self::active_at(trace, k) ==> (
                    code matches Some(f) ==> exists|app: &mut AurenFoxFramework<B>|
                        {
                            &&& trace[k].frame_opened(&*app)
                            &&& !app.backend@.terminating
                            &&& #[trigger] call_ensures(f, (app,), ())
                            &&& final(app).frame_closed(&trace[k + 1])
                        }),
                going ==> trace[frames as int] == *self,
                !going ==> {
                    &&& trace[frames as int].next_outcome() == FrameOutcome::Terminated
                    &&& trace[frames as int].terminated(&*self)
                },
                !going ==> self.state == DriverState::Terminated,
                code is None && going ==> self.state == start.state || self.state
                    == DriverState::Running,
                code is None && frames >= 1 ==> self.destroy_queue@ == Seq::<usize>::empty(),
                code is None && !going && start.state != DriverState::Terminated
                    ==> self.backend@.terminating,
                frames == 0 ==> {
                    &&& self.next_outcome() == old(self).next_outcome()
                    &&& self.backend == old(self).backend
                    &&& self.destroy_queue == old(self).destroy_queue
                    &&& going || old(self).next_outcome() == FrameOutcome::Terminated
                },
                frames > 0 ==> old(self).next_outcome() != FrameOutcome::Terminated,
                frames > 0 && old(self).next_outcome() == FrameOutcome::Halted ==> {
                    &&& frames == 1
                    &&& active == 0
                    &&& self.backend@.terminating
                    &&& self.destroy_queue@ == Seq::<usize>::empty()
                    &&& old(self).backend@.without(
                        old(self).destroy_queue@.to_set(),
                    ).frame_started(self.backend@)
                    &&& exists|opened: Self|
                        {
                            &&& #[trigger] old(self).frame_opened(&opened)
                            &&& self.backend == opened.backend
                            &&& self.destroy_queue == opened.destroy_queue
                        }
                },
                frames > 0 && old(self).next_outcome() == FrameOutcome::Active ==> active >= 1,
            decreases (if going { 1int } else { 0int }), u64::MAX - frames,
        {
            let ghost before = *self;
            let ghost earlier = trace;
            let ghost frames_before = frames as int;
            let outcome = self.tick(&mut slot);
            match outcome {
                FrameOutcome::Terminated => {
                    going = false;
                },
                FrameOutcome::Halted => {
                    frames = frames + 1;
                },
                FrameOutcome::Active => {
                    frames = frames + 1;
                    active = active + 1;
                },
            }
            proof {
                if outcome != FrameOutcome::Terminated {
                    trace = earlier.push(*self);
                    assert(trace[frames - 1] == before);
                    assert(trace[frames as int] == *self);
                    assert(Self::so_far(start, trace, frames as int, active as int, code is Some))
                        by {
                        reveal(AurenFoxFramework::so_far);
                        Self::lemma_active_among_push(earlier, frames_before, *self);
                        assert forall|k: int| 0 <= k < frames implies {
                            &&& (#[trigger] trace[k]).next_outcome() != FrameOutcome::Terminated
                            &&& trace[k].next_outcome() != FrameOutcome::Active || !(code is Some)
                                ==> trace[k].kept_house(&trace[k + 1])
                        } by {
                            if k < frames - 1 {
                                assert(trace[k] == earlier[k] && trace[k + 1] == earlier[k + 1]);
                            }
                        }
                    }
                    assert forall|k: int|
                        0 <= k < frames && #[trigger] Self::active_at(trace, k) implies (
                    code matches Some(f) ==> exists|app: &mut AurenFoxFramework<B>|
                        {
                            &&& trace[k].frame_opened(&*app)
                            &&& !app.backend@.terminating
                            &&& #[trigger] call_ensures(f, (app,), ())
                            &&& final(app).frame_closed(&trace[k + 1])
                        }) by {
                        if k < frames - 1 {
                            assert(trace[k] == earlier[k] && trace[k + 1] == earlier[k + 1]);
                            assert(Self::active_at(earlier, k));
                        }
                    }
                    if frames == 1 {
                        assert(before.backend == old(self).backend && before.destroy_queue
                            == old(self).destroy_queue);
                        if outcome == FrameOutcome::Halted {
                            assert(before.frame_opened(&*self));
                            assert(old(self).frame_opened(&*self));
                        }
                    }
                }
            }
        }
        proof {
            assert(Self::traced(
                old(self).started(),
                trace,
                frames as int,
                active as int,
                user_code is Some,
            )) by {
                reveal(AurenFoxFramework::so_far);
            }
        }
        let report = RunReport { frames, active };
        assert(report.frames == frames && report.active == active);
        report
    }
}

} // verus!
