//! The worker's scheduler: the command table and schedule list it holds,
//! when a monotonic schedule is due, which realtime schedules match a
//! moment, the exact frame sequence one executed job emits, and the
//! self-quiescing outbound queue.

use vstd::prelude::*;

use crate::calendar::realtime::{parse_calendar, rt_conforms, spec_parse_calendar, Moment, Realtime};
use crate::message::{CommandTable, WorkerClientToWorkerSession, WorkerFrameView};
use crate::model::{clone_string_vec, Schedule, Span};

verus! {

/// How long the drainer may sit on an empty queue before the supervisor
/// stops it, in milliseconds.
pub const QUEUE_IDLE_MS: u64 = 30000;

// ---------------------------------------------------------------------------
// Monotonic schedules
// ---------------------------------------------------------------------------
/// One armed monotonic schedule: installed at `start_ms`, it runs first at
/// `start_ms + on_boot_ms` and then every `on_active_ms`.
#[derive(Clone, Copy, Debug, PartialEq, Eq, Structural)]
pub struct MonotonicState {
    /// When the schedule was installed.
    pub start_ms: u64,
    /// The delay to the first run.
    pub on_boot_ms: u64,
    /// The delay between later runs.
    pub on_active_ms: u64,
    /// How many runs have fired.
    pub fired: u64,
}

impl MonotonicState {
    /// When the `k`-th run (counting from zero) is due.
    pub open spec fn spec_fire_time(&self, k: nat) -> int {
        self.start_ms + self.on_boot_ms + k * self.on_active_ms
    }

    /// Arm a schedule now.
    pub fn new(start_ms: u64, on_boot_ms: u64, on_active_ms: u64) -> (r: MonotonicState)
        ensures
            r == (MonotonicState { start_ms, on_boot_ms, on_active_ms, fired: 0u64 }),
    {
        MonotonicState { start_ms, on_boot_ms, on_active_ms, fired: 0 }
    }

    /// When the next run is due, if that time fits the clock.
    pub fn next_due(&self) -> (r: Option<u64>)
        ensures
            r matches Some(t) ==> t == self.spec_fire_time(self.fired as nat),
            r is None <==> self.spec_fire_time(self.fired as nat) > u64::MAX,
    {
        proof {
            assert((self.fired as int) * (self.on_active_ms as int) <= 0xffff_ffff_ffff_ffff
                * 0xffff_ffff_ffff_ffff) by (nonlinear_arith)
                requires
                    self.fired <= 0xffff_ffff_ffff_ffff && self.on_active_ms
                        <= 0xffff_ffff_ffff_ffff,
            ;
            assert((self.fired as int) * (self.on_active_ms as int) >= 0) by (nonlinear_arith);
        }
        let prod: u128 = (self.fired as u128) * (self.on_active_ms as u128);
        let due: u128 = (self.start_ms as u128) + (self.on_boot_ms as u128) + prod;
        proof {
            assert(due == self.spec_fire_time(self.fired as nat));
        }
        if due > (u64::MAX as u128) {
            None
        } else {
            Some(due as u64)
        }
    }

    /// At a tick, decide whether the next run fires; firing counts it.
    pub fn on_tick(&mut self, now_ms: u64) -> (run: bool)
        ensures
            run <==> (old(self).spec_fire_time(old(self).fired as nat) <= now_ms && old(
                self,
            ).fired < u64::MAX),
            run ==> *final(self) == (MonotonicState { fired: (old(self).fired + 1) as u64, ..*old(self) }),
            !run ==> *final(self) == *old(self),
    {
        match self.next_due() {
            Some(due) => {
                if now_ms >= due && self.fired < u64::MAX {
                    self.fired = self.fired + 1;
                    true
                } else {
                    false
                }
            },
            None => false,
        }
    }
}

/// The timing law of a monotonic schedule installed at time `T` with boot
/// delay `B` and period `A`: the runs are due exactly at `T + B`,
/// `T + B + A`, `T + B + 2A`, ..., so no run is due before `T + B`, and
/// consecutive runs are exactly `A` apart.
pub proof fn lemma_monotonic_timing(m: MonotonicState, k: nat)
    ensures
        m.spec_fire_time(k) == m.start_ms + m.on_boot_ms + k * m.on_active_ms,
        m.spec_fire_time(k) >= m.start_ms + m.on_boot_ms,
        m.spec_fire_time((k + 1) as nat) == m.spec_fire_time(k) + m.on_active_ms,
{
    assert(k * m.on_active_ms >= 0) by (nonlinear_arith);
    assert((k + 1) * m.on_active_ms == k * m.on_active_ms + m.on_active_ms) by (nonlinear_arith);
}

// ---------------------------------------------------------------------------
// The worker's installed state
// ---------------------------------------------------------------------------
/// One armed realtime schedule: the parsed matcher and the commands it runs.
#[derive(Debug)]
pub struct RealtimeEntry {
    /// The parsed calendar matcher.
    pub matcher: Realtime,
    /// The names of the commands to run, in order.
    pub cmds: Vec<String>,
}

/// The worker's installed schedule state.
#[derive(Debug)]
pub struct Worker {
    /// The current command table.
    pub commands: CommandTable,
    /// The installed schedules, as received.
    pub schedules: Vec<Schedule>,
    /// The armed realtime schedules.
    pub rt: Vec<RealtimeEntry>,
    /// Whether executors may run.
    pub running: bool,
}

/// The realtime schedules of a schedule list whose calendars are accepted
/// by the parser, in order: the name lists they run.
pub open spec fn spec_rt_cmds(s: Seq<Schedule>) -> Seq<Seq<String>>
    decreases s.len(),
{
    if s.len() == 0 {
        Seq::empty()
    } else {
        let rest = spec_rt_cmds(s.drop_last());
        match s.last() {
            Schedule::Realtime { on_calendar, persistent, cmds } => {
                if spec_parse_calendar(on_calendar@) is Ok {
                    rest.push(cmds@)
                } else {
                    rest
                }
            },
            _ => rest,
        }
    }
}

/// The calendars of those same schedules, in the same order, so entry `t`
/// of `spec_rt_cmds` runs under entry `t` of this sequence.
pub open spec fn spec_rt_cals(s: Seq<Schedule>) -> Seq<Seq<char>>
    decreases s.len(),
{
    if s.len() == 0 {
        Seq::empty()
    } else {
        let rest = spec_rt_cals(s.drop_last());
        match s.last() {
            Schedule::Realtime { on_calendar, persistent, cmds } => {
                if spec_parse_calendar(on_calendar@) is Ok {
                    rest.push(on_calendar@)
                } else {
                    rest
                }
            },
            _ => rest,
        }
    }
}

proof fn lemma_rt_lens(s: Seq<Schedule>)
    ensures
        spec_rt_cals(s).len() == spec_rt_cmds(s).len(),
    decreases s.len(),
{
    if s.len() > 0 {
        lemma_rt_lens(s.drop_last());
    }
}

/// The monotonic schedules of a schedule list, in order, armed at `now`,
/// with their spans in milliseconds saturated to the clock.
pub open spec fn spec_monotonics(s: Seq<Schedule>, now: u64) -> Seq<MonotonicState>
    decreases s.len(),
{
    if s.len() == 0 {
        Seq::empty()
    } else {
        let rest = spec_monotonics(s.drop_last(), now);
        match s.last() {
            Schedule::Monotonic { on_boot_sec, on_unit_active_sec, cmds } => rest.push(
                MonotonicState {
                    start_ms: now,
                    on_boot_ms: spec_span_ms(on_boot_sec),
                    on_active_ms: spec_span_ms(on_unit_active_sec),
                    fired: 0,
                },
            ),
            _ => rest,
        }
    }
}

/// A span in milliseconds, saturated to the clock's range.
pub open spec fn spec_span_ms(s: Span) -> u64 {
    if s.spec_as_millis() > u64::MAX {
        u64::MAX
    } else {
        s.spec_as_millis() as u64
    }
}

/// A span in milliseconds, saturated to the clock's range.
pub fn span_ms(s: &Span) -> (r: u64)
    ensures
        r == spec_span_ms(*s),
{
    let ms: u128 = (s.secs as u128) * 1000 + ((s.nanos / 1000000) as u128);
    proof {
        assert(ms == s.spec_as_millis());
    }
    if ms > (u64::MAX as u128) {
        u64::MAX
    } else {
        ms as u64
    }
}

impl Worker {
    /// The command table is well formed.
    pub open spec fn wf(&self) -> bool {
        self.commands.wf()
    }

    /// A worker with nothing installed.
    pub fn new() -> (r: Worker)
        ensures
            r.wf(),
            r.commands@ == Seq::<(Seq<char>, crate::model::Command)>::empty(),
            r.schedules@.len() == 0,
            r.rt@.len() == 0,
            !r.running,
    {
        Worker {
            commands: crate::registry::NameMap::new(),
            schedules: Vec::new(),
            rt: Vec::new(),
            running: false,
        }
    }

    /// Tear down the installed schedules: executors stop and the armed
    /// realtime schedules are dropped; the command table stays for frames
    /// still in flight.
    pub fn stop(&mut self)
        ensures
            final(self).commands == old(self).commands,
            final(self).schedules == old(self).schedules,
            final(self).rt@.len() == 0,
            !final(self).running,
    {
        self.running = false;
        self.rt.clear();
    }

    /// Install a fresh command table and schedule list at time `now_ms`:
    /// every monotonic schedule is armed at `now_ms`, every realtime
    /// schedule whose calendar parses is armed with a matcher, and the
    /// running flag is raised.  The returned monotonic states are armed in
    /// schedule order; the flag says whether any realtime schedule was
    /// present, so the caller knows to run the once-a-second matcher tick.
    pub fn install(
        &mut self,
        commands: CommandTable,
        schedules: Vec<Schedule>,
        now_ms: u64,
    ) -> (r: (Vec<MonotonicState>, bool))
        ensures
            final(self).commands == commands,
            final(self).schedules == schedules,
            final(self).running,
            r.0@ == spec_monotonics(schedules@, now_ms),
            final(self).rt@.len() == spec_rt_cmds(schedules@).len(),
            forall|t: int|
                0 <= t < final(self).rt@.len() ==> (#[trigger] final(self).rt@[t]).cmds@
                    == spec_rt_cmds(schedules@)[t],
            forall|t: int|
                0 <= t < final(self).rt@.len() ==> (spec_parse_calendar(
                    spec_rt_cals(schedules@)[t],
                ) matches Ok(c) && rt_conforms((#[trigger] final(self).rt@[t]).matcher, c)),
            r.1 == exists|j: int|
                0 <= j < schedules@.len() && (#[trigger] schedules@[j]) is Realtime,
    {
        self.running = false;
        self.rt.clear();
        let mut monos: Vec<MonotonicState> = Vec::new();
        let mut has_realtime = false;
        let mut i: usize = 0;
        proof {
            assert(schedules@.take(0) =~= Seq::<Schedule>::empty());
        }
        while i < schedules.len()
            invariant
                i <= schedules@.len(),
                monos@ == spec_monotonics(schedules@.take(i as int), now_ms),
                self.rt@.len() == spec_rt_cmds(schedules@.take(i as int)).len(),
                forall|t: int|
                    0 <= t < self.rt@.len() ==> (#[trigger] self.rt@[t]).cmds@ == spec_rt_cmds(
                        schedules@.take(i as int),
                    )[t],
                forall|t: int|
                    0 <= t < self.rt@.len() ==> (spec_parse_calendar(
                        spec_rt_cals(schedules@.take(i as int))[t],
                    ) matches Ok(c) && rt_conforms((#[trigger] self.rt@[t]).matcher, c)),
                has_realtime == exists|j: int|
                    0 <= j < i && (#[trigger] schedules@[j]) is Realtime,
            decreases schedules@.len() - i,
        {
            proof {
                assert(schedules@.take(i + 1).drop_last() =~= schedules@.take(i as int));
                assert(schedules@.take(i + 1).last() == schedules@[i as int]);
                lemma_rt_lens(schedules@.take(i as int));
                lemma_rt_lens(schedules@.take(i + 1));
            }
            match &schedules[i] {
                Schedule::Monotonic { on_boot_sec, on_unit_active_sec, cmds: _ } => {
                    monos.push(
                        MonotonicState {
                            start_ms: now_ms,
                            on_boot_ms: span_ms(on_boot_sec),
                            on_active_ms: span_ms(on_unit_active_sec),
                            fired: 0,
                        },
                    );
                },
                Schedule::Realtime { on_calendar, persistent: _, cmds } => {
                    has_realtime = true;
                    match parse_calendar(on_calendar.as_str()) {
                        Ok(matcher) => {
                            proof {
                                assert(spec_parse_calendar(on_calendar@) is Ok);
                                assert(spec_rt_cals(schedules@.take(i + 1)) =~= spec_rt_cals(
                                    schedules@.take(i as int),
                                ).push(on_calendar@));
                                assert(spec_rt_cmds(schedules@.take(i + 1)) =~= spec_rt_cmds(
                                    schedules@.take(i as int),
                                ).push(cmds@));
                            }
                            let ghost rt_before = self.rt@;
                            self.rt.push(RealtimeEntry { matcher, cmds: clone_string_vec(cmds) });
                            proof {
                                assert(forall|t: int|
                                    0 <= t < rt_before.len() ==> #[trigger] self.rt@[t]
                                        == rt_before[t]);
                                assert(self.rt@.last().matcher == matcher);
                            }
                        },
                        Err(_) => {
                            proof {
                                assert(spec_parse_calendar(on_calendar@) is Err);
                                assert(spec_rt_cals(schedules@.take(i + 1)) =~= spec_rt_cals(
                                    schedules@.take(i as int),
                                ));
                                assert(spec_rt_cmds(schedules@.take(i + 1)) =~= spec_rt_cmds(
                                    schedules@.take(i as int),
                                ));
                            }
                        },
                    }
                },
            }
            i += 1;
        }
        proof {
            assert(schedules@.take(schedules@.len() as int) =~= schedules@);
            lemma_rt_lens(schedules@);
        }
        self.commands = commands;
        self.schedules = schedules;
        self.running = true;
        (monos, has_realtime)
    }

    /// The command lists of the realtime schedules matching this moment, in
    /// installation order; the once-a-second tick runs each list.
    pub fn due_commands(&self, now: &Moment) -> (r: Vec<Vec<String>>)
        ensures
            r@.len() == spec_due(self.rt@, *now).len(),
            forall|t: int|
                0 <= t < r@.len() ==> (#[trigger] r@[t])@ == spec_due(self.rt@, *now)[t],
    {
        let mut r: Vec<Vec<String>> = Vec::new();
        let mut i: usize = 0;
        proof {
            assert(self.rt@.take(0) =~= Seq::<RealtimeEntry>::empty());
        }
        while i < self.rt.len()
            invariant
                i <= self.rt@.len(),
                r@.len() == spec_due(self.rt@.take(i as int), *now).len(),
                forall|t: int|
                    0 <= t < r@.len() ==> (#[trigger] r@[t])@ == spec_due(
                        self.rt@.take(i as int),
                        *now,
                    )[t],
            decreases self.rt@.len() - i,
        {
            proof {
                assert(self.rt@.take(i + 1).drop_last() =~= self.rt@.take(i as int));
                assert(self.rt@.take(i + 1).last() == self.rt@[i as int]);
            }
            if self.rt[i].matcher.should_run(now) {
                r.push(clone_string_vec(&self.rt[i].cmds));
            }
            i += 1;
        }
        proof {
            assert(self.rt@.take(self.rt@.len() as int) =~= self.rt@);
        }
        r
    }
}

/// The command lists of the armed realtime schedules that match a moment.
pub open spec fn spec_due(rt: Seq<RealtimeEntry>, now: Moment) -> Seq<Seq<String>>
    decreases rt.len(),
{
    if rt.len() == 0 {
        Seq::empty()
    } else {
        let rest = spec_due(rt.drop_last(), now);
        if rt.last().matcher.spec_should_run(now) {
            rest.push(rt.last().cmds@)
        } else {
            rest
        }
    }
}

// ---------------------------------------------------------------------------
// The executor's transcript
// ---------------------------------------------------------------------------
/// One line a running child wrote, on one of its two streams.
#[derive(Debug, PartialEq, Eq)]
pub enum OutputEvent {
    /// A line of standard output.
    OutLine(String),
    /// A line of standard error.
    ErrLine(String),
}

/// The frames one executed job emits, in order: `JobStart`, one `Stdout` or
/// `Stderr` frame per line as the child wrote them, then `Status`, then
/// `JobEnd`.  This is the whole transcript of a terminated job.
pub fn job_transcript(
    job_id: u128,
    job_name: String,
    events: Vec<OutputEvent>,
    code: i32,
) -> (r: Vec<WorkerClientToWorkerSession>)
    ensures
        r@.len() == events@.len() + 3,
        r@[0]@ matches WorkerFrameView::JobStart { id, name } && id == job_id && name@
            == job_name@,
        forall|t: int|
            0 <= t < events@.len() ==> #[trigger] r@[t + 1]@ == (match events@[t] {
                OutputEvent::OutLine(l) => WorkerFrameView::Stdout { id: job_id, line: l },
                OutputEvent::ErrLine(l) => WorkerFrameView::Stderr { id: job_id, line: l },
            }),
        r@[events@.len() as int + 1]@ matches WorkerFrameView::Status { id, code: c } && id
            == job_id && c == code,
        r@[events@.len() as int + 2]@ matches WorkerFrameView::JobEnd { id, name } && id == job_id
            && name@ == job_name@,
{
    let mut r: Vec<WorkerClientToWorkerSession> = Vec::new();
    let n = events.len();
    r.push(WorkerClientToWorkerSession::JobStart { id: job_id, name: job_name.clone() });
    let mut i: usize = 0;
    while i < n
        invariant
            i <= n,
            n == events@.len(),
            r@.len() == i + 1,
            r@[0]@ matches WorkerFrameView::JobStart { id, name } && id == job_id && name@
                == job_name@,
            forall|t: int|
                0 <= t < i ==> #[trigger] r@[t + 1]@ == (match events@[t] {
                    OutputEvent::OutLine(l) => WorkerFrameView::Stdout { id: job_id, line: l },
                    OutputEvent::ErrLine(l) => WorkerFrameView::Stderr { id: job_id, line: l },
                }),
        decreases n - i,
    {
        match &events[i] {
            OutputEvent::OutLine(l) => {
                r.push(WorkerClientToWorkerSession::Stdout { id: job_id, line: l.clone() });
            },
            OutputEvent::ErrLine(l) => {
                r.push(WorkerClientToWorkerSession::Stderr { id: job_id, line: l.clone() });
            },
        }
        i += 1;
    }
    r.push(WorkerClientToWorkerSession::Status { id: job_id, code });
    r.push(WorkerClientToWorkerSession::JobEnd { id: job_id, name: job_name });
    r
}

// ---------------------------------------------------------------------------
// The outbound queue
// ---------------------------------------------------------------------------
/// What the queue's supervisor decided at a tick.
#[derive(Clone, Copy, Debug, PartialEq, Eq, Structural)]
pub enum DrainAction {
    /// Start a drainer: frames are waiting and none is running.
    Start,
    /// Stop the drainer: the queue has sat empty past the idle bound.
    Stop,
    /// Leave things as they are.
    Keep,
}

/// The worker's outbound frame queue and its drainer's state.
#[derive(Debug)]
pub struct OutboundQueue {
    /// The serialized frames waiting to go out, oldest first.
    pub queue: Vec<Vec<u8>>,
    /// Whether a drainer is running.
    pub draining: bool,
    /// When a frame last left the queue.
    pub last_drain_ms: u64,
}

impl OutboundQueue {
    /// A fresh, idle queue.
    pub fn new(now_ms: u64) -> (r: OutboundQueue)
        ensures
            r.queue@.len() == 0,
            !r.draining,
            r.last_drain_ms == now_ms,
    {
        OutboundQueue { queue: Vec::new(), draining: false, last_drain_ms: now_ms }
    }

    /// Queue one serialized frame.
    pub fn push_frame(&mut self, bytes: Vec<u8>)
        ensures
            final(self).queue@ == old(self).queue@.push(bytes),
            final(self).draining == old(self).draining,
            final(self).last_drain_ms == old(self).last_drain_ms,
    {
        self.queue.push(bytes);
    }

    /// The supervisor's decision at a tick: start a drainer when frames
    /// wait and none runs; stop it when the queue has been empty longer
    /// than the idle bound; otherwise leave it.
    pub fn supervisor_tick(&mut self, now_ms: u64) -> (r: DrainAction)
        ensures
            final(self).queue@ == old(self).queue@,
            final(self).last_drain_ms == old(self).last_drain_ms,
            r == (if old(self).queue@.len() > 0 && !old(self).draining {
                DrainAction::Start
            } else if old(self).queue@.len() == 0 && old(self).draining && now_ms > old(
                self,
            ).last_drain_ms + QUEUE_IDLE_MS {
                DrainAction::Stop
            } else {
                DrainAction::Keep
            }),
            r is Start ==> final(self).draining,
            r is Stop ==> !final(self).draining,
            r is Keep ==> final(self).draining == old(self).draining,
    {
        if self.queue.len() > 0 && !self.draining {
            self.draining = true;
            DrainAction::Start
        } else if self.queue.len() == 0 && self.draining && now_ms > self.last_drain_ms
            && now_ms - self.last_drain_ms > QUEUE_IDLE_MS {
            self.draining = false;
            DrainAction::Stop
        } else {
            DrainAction::Keep
        }
    }

    /// Take the oldest waiting frame, if any; taking one marks the drain
    /// time.
    pub fn pop_frame(&mut self, now_ms: u64) -> (r: Option<Vec<u8>>)
        ensures
            old(self).queue@.len() == 0 ==> r is None && *final(self) == *old(self),
            old(self).queue@.len() > 0 ==> {
                &&& r matches Some(b) && b@ == old(self).queue@[0]@
                &&& final(self).queue@ == old(self).queue@.drop_first()
                &&& final(self).last_drain_ms == now_ms
                &&& final(self).draining == old(self).draining
            },
    {
        if self.queue.len() == 0 {
            return None;
        }
        let b = self.queue.remove(0);
        self.last_drain_ms = now_ms;
        proof {
            assert(self.queue@ =~= old(self).queue@.drop_first());
        }
        Some(b)
    }
}

} // verus!
