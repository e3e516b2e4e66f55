//! The data the server and its workers exchange: commands, schedules, and
//! archived job documents.

use vstd::prelude::*;

verus! {

/// A span of time, in whole seconds and leftover nanoseconds.
#[derive(Clone, Copy, Debug, PartialEq, Eq)]
pub struct Span {
    /// Whole seconds.
    pub secs: u64,
    /// Nanoseconds below one second.
    pub nanos: u32,
}

impl Span {
    /// This span in milliseconds, rounded down.
    pub open spec fn spec_as_millis(&self) -> int {
        self.secs * 1000 + self.nanos / 1000000
    }

}

/// A command to run on a worker.
#[derive(Clone, Debug, Default, PartialEq, Eq)]
pub struct Command {
    /// The shell command to run.
    cmd: String,
}

impl View for Command {
    type V = Seq<char>;

    closed spec fn view(&self) -> Seq<char> {
        self.cmd@
    }
}

impl Command {
    /// Build a command from its shell text.
    pub fn new(cmd: String) -> (r: Command)
        ensures
            r@ == cmd@,
    {
        Command { cmd }
    }

    /// The shell text of this command.
    pub fn cmd(&self) -> (r: &String)
        ensures
            r@ == self@,
    {
        &self.cmd
    }

    /// An equal copy of this command.
    pub fn duplicate(&self) -> (r: Command)
        ensures
            r == *self,
    {
        Command { cmd: self.cmd.clone() }
    }
}

/// Copy a vector of strings.
pub fn clone_string_vec(v: &Vec<String>) -> (r: Vec<String>)
    ensures
        r@ == v@,
{
    let mut r: Vec<String> = Vec::new();
    let mut i: usize = 0;
    while i < v.len()
        invariant
            i <= v@.len(),
            r@ =~= v@.take(i as int),
        decreases v@.len() - i,
    {
        r.push(v[i].clone());
        proof {
            assert(r@ =~= v@.take(i + 1));
        }
        i += 1;
    }
    proof {
        assert(r@ =~= v@);
    }
    r
}

/// The schedule to run commands on a given worker client.
#[derive(Clone, Debug, PartialEq, Eq)]
pub enum Schedule {
    /// A monotonic schedule: run once `on_boot_sec` after install, then
    /// every `on_unit_active_sec`.
    Monotonic {
        /// The delay from install to the first run.
        on_boot_sec: Span,
        /// The delay between runs after the first.
        on_unit_active_sec: Span,
        /// The names of the commands to run, in order.
        cmds: Vec<String>,
    },
    /// A realtime schedule: run at every wall-clock second matching the
    /// calendar string.
    Realtime {
        /// A calendar string in the systemd-like format.
        on_calendar: String,
        /// Whether a missed run should be made up; accepted and recorded,
        /// never consulted.
        persistent: bool,
        /// The names of the commands to run, in order.
        cmds: Vec<String>,
    },
}

/// The view of a schedule: its vectors replaced by sequences.
pub enum ScheduleView {
    Monotonic { on_boot_sec: Span, on_unit_active_sec: Span, cmds: Seq<String> },
    Realtime { on_calendar: String, persistent: bool, cmds: Seq<String> },
}

impl View for Schedule {
    type V = ScheduleView;

    open spec fn view(&self) -> ScheduleView {
        match self {
            Schedule::Monotonic { on_boot_sec, on_unit_active_sec, cmds } => ScheduleView::Monotonic {
                on_boot_sec: *on_boot_sec,
                on_unit_active_sec: *on_unit_active_sec,
                cmds: cmds@,
            },
            Schedule::Realtime { on_calendar, persistent, cmds } => ScheduleView::Realtime {
                on_calendar: *on_calendar,
                persistent: *persistent,
                cmds: cmds@,
            },
        }
    }
}

/// The views of a vector of schedules.
pub open spec fn scheds_view(s: Seq<Schedule>) -> Seq<ScheduleView> {
    s.map_values(|x: Schedule| x@)
}

/// The view of an archived job document: its vectors replaced by sequences.
pub struct JobDocView {
    pub worker_id: u128,
    pub worker_name: String,
    pub job_id: u128,
    pub job_name: String,
    pub start_time: u64,
    pub end_time: u64,
    pub stdout: Seq<String>,
    pub stderr: Seq<String>,
    pub status: i32,
}

impl View for JobDoc {
    type V = JobDocView;

    open spec fn view(&self) -> JobDocView {
        JobDocView {
            worker_id: self.worker_id,
            worker_name: self.worker_name,
            job_id: self.job_id,
            job_name: self.job_name,
            start_time: self.start_time,
            end_time: self.end_time,
            stdout: self.stdout@,
            stderr: self.stderr@,
            status: self.status,
        }
    }
}

impl Schedule {
    /// An equal copy of this schedule.
    pub fn duplicate(&self) -> (r: Schedule)
        ensures
            r@ == self@,
    {
        match self {
            Schedule::Monotonic { on_boot_sec, on_unit_active_sec, cmds } => {
                Schedule::Monotonic {
                    on_boot_sec: *on_boot_sec,
                    on_unit_active_sec: *on_unit_active_sec,
                    cmds: clone_string_vec(cmds),
                }
            },
            Schedule::Realtime { on_calendar, persistent, cmds } => {
                Schedule::Realtime {
                    on_calendar: on_calendar.clone(),
                    persistent: *persistent,
                    cmds: clone_string_vec(cmds),
                }
            },
        }
    }
}

/// Copy a vector of schedules.
pub fn clone_schedule_vec(v: &Vec<Schedule>) -> (r: Vec<Schedule>)
    ensures
        scheds_view(r@) == scheds_view(v@),
        r@.len() == v@.len(),
{
    let mut r: Vec<Schedule> = Vec::new();
    let mut i: usize = 0;
    while i < v.len()
        invariant
            i <= v@.len(),
            r@.len() == i,
            forall|t: int| 0 <= t < i ==> (#[trigger] r@[t])@ == v@[t]@,
        decreases v@.len() - i,
    {
        r.push(v[i].duplicate());
        i += 1;
    }
    proof {
        assert(scheds_view(r@) =~= scheds_view(v@));
    }
    r
}

/// All of the schedules for one worker client.
#[derive(Clone, Debug, PartialEq, Eq)]
pub struct Schedules {
    /// The schedules, in configuration order.
    schedules: Vec<Schedule>,
}

impl View for Schedules {
    type V = Seq<ScheduleView>;

    closed spec fn view(&self) -> Seq<ScheduleView> {
        scheds_view(self.schedules@)
    }
}

impl Schedules {
    /// Wrap a list of schedules.
    pub fn new(schedules: Vec<Schedule>) -> (r: Schedules)
        ensures
            r@ == scheds_view(schedules@),
    {
        Schedules { schedules }
    }

    /// The schedules, in configuration order.
    pub fn schedules(&self) -> (r: &Vec<Schedule>)
        ensures
            scheds_view(r@) == self@,
    {
        &self.schedules
    }

    /// Take the schedules out of the struct.
    pub fn take(self) -> (r: Vec<Schedule>)
        ensures
            scheds_view(r@) == self@,
    {
        self.schedules
    }

    /// An equal copy of these schedules.
    pub fn duplicate(&self) -> (r: Schedules)
        ensures
            r@ == self@,
    {
        Schedules { schedules: clone_schedule_vec(&self.schedules) }
    }

    /// A copy of the schedule list itself.
    pub fn to_vec(&self) -> (r: Vec<Schedule>)
        ensures
            scheds_view(r@) == self@,
    {
        clone_schedule_vec(&self.schedules)
    }
}

/// The archived record of one command invocation on one worker.
#[derive(Clone, Debug, PartialEq, Eq)]
pub struct JobDoc {
    /// The id of the worker session the job ran under.
    pub worker_id: u128,
    /// The advisory name of that worker.
    pub worker_name: String,
    /// The id the worker gave the job.
    pub job_id: u128,
    /// The name of the command the job ran.
    pub job_name: String,
    /// When the job started, in seconds since the epoch.
    pub start_time: u64,
    /// When the job ended, in seconds since the epoch.
    pub end_time: u64,
    /// The standard output lines, in order.
    pub stdout: Vec<String>,
    /// The standard error lines, in order.
    pub stderr: Vec<String>,
    /// The exit status of the job.
    pub status: i32,
}

impl JobDoc {
    /// A fresh document for a job that just started.
    pub fn new(worker_id: u128, worker_name: String, job_id: u128, job_name: String, now: u64) -> (r:
        JobDoc)
        ensures
            r.worker_id == worker_id,
            r.worker_name == worker_name,
            r.job_id == job_id,
            r.job_name == job_name,
            r.start_time == now,
            r.end_time == now,
            r.stdout@ == Seq::<String>::empty(),
            r.stderr@ == Seq::<String>::empty(),
            r.status == 0,
    {
        let stdout: Vec<String> = Vec::new();
        let stderr: Vec<String> = Vec::new();
        JobDoc {
            worker_id,
            worker_name,
            job_id,
            job_name,
            start_time: now,
            end_time: now,
            stdout,
            stderr,
            status: 0,
        }
    }
}

/// An equal copy of a job document.
impl JobDoc {
    pub fn duplicate(&self) -> (r: JobDoc)
        ensures
            r@ == self@,
    {
        JobDoc {
            worker_id: self.worker_id,
            worker_name: self.worker_name.clone(),
            job_id: self.job_id,
            job_name: self.job_name.clone(),
            start_time: self.start_time,
            end_time: self.end_time,
            stdout: clone_string_vec(&self.stdout),
            stderr: clone_string_vec(&self.stderr),
            status: self.status,
        }
    }
}

} // verus!
