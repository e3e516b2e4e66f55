//! Tests of the logging rules, configuration path lookup, framing,
//! heartbeat, router, sessions and scheduler.

use pud::calendar::hms::{Hour, Minute, Second};
use pud::calendar::realtime::{Moment, Realtime};
use pud::calendar::ymd::{Day, Month, Year};
use pud::config::{Config, TomlConfig};
use pud::framing::{
    chunk_frames, parse_ts_ping, send_ts_ping, ContItem, ContinuationBuffer, Heartbeat, OutFrame,
};
use pud::message::{
    ManagerClientToManagerSession, ServerAction, ServerToManagerClient, ServerToWorkerClient,
    WorkerClientToWorkerSession, WorkerSessionToServer,
};
use pud::model::{Command, JobDoc, Schedule, Schedules, Span};
use pud::registry::NameMap;
use pud::render::{outcome_code, reload_line, render_workers_list, workers_count_line, RunOutcome};
use pud::server::{effective_commands, Server};
use pud::session::{ManagerAction, ManagerSession, SessionAction, WorkerSession};
use pud::text::{u64_to_string, uuid_to_string};
use pud::worker::{
    job_transcript, DrainAction, MonotonicState, OutboundQueue, OutputEvent, Worker,
};
use pud::{
    config_file_path, get_effective_level, parse_calendar, success, Cli, DayOfWeek, Defaults,
    LogLevel,
};

fn empty_toml() -> TomlConfig {
    TomlConfig {
        workers: 8,
        ip: String::from("127.0.0.1"),
        port: 32276,
        cert_file_path: String::from("fullchain.pem"),
        key_file_path: String::from("privkey.pem"),
        db_url: String::from("http://localhost:8529"),
        db_user: String::from("root"),
        db_pass: String::from("SECRET-REDACTED"),
        db_name: String::from("pud"),
        tracing: None,
        hostlist: NameMap::new(),
        default: NameMap::new(),
        overrides: NameMap::new(),
        schedules: NameMap::new(),
    }
}

fn demo_config() -> Config {
    let mut default: NameMap<Command> = NameMap::new();
    default.insert(String::from("ls"), Command::new(String::from("ls /")));
    default.insert(String::from("free"), Command::new(String::from("free -m")));
    let mut alpha_over: NameMap<Command> = NameMap::new();
    alpha_over.insert(String::from("ls"), Command::new(String::from("ls /tmp")));
    let mut overrides: NameMap<NameMap<Command>> = NameMap::new();
    overrides.insert(String::from("alpha"), alpha_over);
    let mut schedules: NameMap<Schedules> = NameMap::new();
    schedules.insert(
        String::from("alpha"),
        Schedules::new(vec![Schedule::Monotonic {
            on_boot_sec: Span { secs: 1, nanos: 0 },
            on_unit_active_sec: Span { secs: 2, nanos: 0 },
            cmds: vec![String::from("ls")],
        }]),
    );
    let mut t = empty_toml();
    t.default = default;
    t.overrides = overrides;
    t.schedules = schedules;
    Config::from_toml(t)
}

#[test]
fn mod_get_effective_level_works() {
    assert_eq!(LogLevel::Info, get_effective_level(0, 0));
    assert_eq!(LogLevel::Debug, get_effective_level(0, 1));
    assert_eq!(LogLevel::Trace, get_effective_level(0, 2));
    assert_eq!(LogLevel::Trace, get_effective_level(0, 3));
    assert_eq!(LogLevel::Warn, get_effective_level(1, 0));
    assert_eq!(LogLevel::Warn, get_effective_level(1, 1));
    assert_eq!(LogLevel::Warn, get_effective_level(1, 2));
    assert_eq!(LogLevel::Warn, get_effective_level(1, 3));
    assert_eq!(LogLevel::Error, get_effective_level(2, 0));
    assert_eq!(LogLevel::Error, get_effective_level(2, 1));
    assert_eq!(LogLevel::Error, get_effective_level(2, 2));
    assert_eq!(LogLevel::Error, get_effective_level(2, 3));
}

#[test]
fn log_get_effective_level_works() {
    assert_eq!(LogLevel::Info, get_effective_level(0, 0));
    assert_eq!(LogLevel::Debug, get_effective_level(0, 1));
    assert_eq!(LogLevel::Trace, get_effective_level(0, 2));
    assert_eq!(LogLevel::Warn, get_effective_level(1, 0));
    assert_eq!(LogLevel::Error, get_effective_level(2, 0));
}

#[test]
fn mod_config_file_path_is_set() {
    let args = Cli::new(0, 0, false, Some(String::from("test/config.toml")));
    let defaults = Defaults::pudw_defaults();
    let path = config_file_path(&args, defaults).unwrap();
    assert_eq!(path, "test/config.toml");
}

#[test]
fn config_config_file_path_is_set() {
    let args = Cli::new(0, 0, false, Some(String::from("test/config.toml")));
    let defaults = Defaults::puds_defaults();
    let path = config_file_path(&args, defaults).unwrap();
    assert_eq!(path, "test/config.toml");
}

#[test]
fn error_success_works() {
    assert_eq!(0, success(()));
}

#[test]
fn outcome_codes() {
    assert_eq!(0, outcome_code(RunOutcome::Help));
    assert_eq!(0, outcome_code(RunOutcome::Version));
    assert_eq!(1, outcome_code(RunOutcome::BadUsage));
    assert_eq!(1, outcome_code(RunOutcome::Failed));
}

// --- framing ---

#[test]
fn ts_ping_round_trip() {
    let bytes = send_ts_ping(987654321, 123456789);
    assert_eq!(bytes.len(), 12);
    let (secs, nanos) = parse_ts_ping(&bytes).unwrap();
    assert_eq!(secs, 987654321);
    assert_eq!(nanos, 123456789);
}

#[test]
fn ts_ping_wrong_length_ignored() {
    let bytes = vec![1, 2, 3];
    assert!(parse_ts_ping(&bytes).is_none());
}

#[test]
fn ts_ping_known_bytes() {
    let bytes = send_ts_ping(1, 2);
    assert_eq!(bytes, vec![0, 0, 0, 0, 0, 0, 0, 1, 0, 0, 0, 2]);
}

#[test]
fn small_payload_single_frame() {
    let frames = chunk_frames(vec![1, 2, 3]);
    assert_eq!(frames.len(), 1);
    match &frames[0] {
        OutFrame::Single(b) => assert_eq!(*b, vec![1, 2, 3]),
        _ => panic!("a small payload should go in one frame"),
    }
}

#[test]
fn large_payload_chunks_and_reassembles() {
    let payload: Vec<u8> = (0..200000u32).map(|x| (x % 251) as u8).collect();
    let frames = chunk_frames(payload.clone());
    assert_eq!(frames.len(), 4);
    assert!(matches!(frames[0], OutFrame::First(_)));
    assert!(matches!(frames[1], OutFrame::Middle(_)));
    assert!(matches!(frames[2], OutFrame::Middle(_)));
    assert!(matches!(frames[3], OutFrame::Last(_)));
    let mut buf = ContinuationBuffer::new();
    let mut delivered = None;
    for f in frames {
        let item = match f {
            OutFrame::Single(b) => ContItem::Last(b),
            OutFrame::First(b) => ContItem::FirstBinary(b),
            OutFrame::Middle(b) => ContItem::Continue(b),
            OutFrame::Last(b) => ContItem::Last(b),
        };
        if let Some(p) = buf.handle(item) {
            delivered = Some(p);
        }
    }
    assert_eq!(delivered.unwrap(), payload);
}

#[test]
fn text_continuation_dropped() {
    let mut buf = ContinuationBuffer::new();
    assert!(buf.handle(ContItem::FirstText(vec![1, 2])).is_none());
    assert!(buf.handle(ContItem::FirstBinary(vec![3])).is_none());
    let whole = buf.handle(ContItem::Last(vec![4])).unwrap();
    assert_eq!(whole, vec![3, 4]);
}

// --- heartbeat ---

#[test]
fn heartbeat_discipline() {
    let mut hb = Heartbeat::new(1000);
    // inbound frames every nine seconds keep the session open
    assert!(!hb.timed_out(1000 + 9000));
    hb.on_activity(10000);
    assert!(!hb.timed_out(10000 + 9000));
    // ten seconds of silence, checked one second later, closes it
    assert!(hb.timed_out(10000 + 10001));
    assert_eq!(hb.elapsed_ms(11000), 10000);
}

// --- monotonic schedules ---

#[test]
fn monotonic_fire_times() {
    // installed at T = 1000 with B = 1s and A = 2s
    let mut m = MonotonicState::new(1000, 1000, 2000);
    assert_eq!(m.next_due(), Some(2000));
    // nothing runs before T + B
    assert!(!m.on_tick(1999));
    assert!(m.on_tick(2000));
    // the next run is exactly A later
    assert_eq!(m.next_due(), Some(4000));
    assert!(!m.on_tick(3999));
    assert!(m.on_tick(4000));
    assert_eq!(m.next_due(), Some(6000));
}

// --- the executor's transcript ---

#[test]
fn transcript_order() {
    let events = vec![
        OutputEvent::OutLine(String::from("hi")),
        OutputEvent::ErrLine(String::from("oops")),
        OutputEvent::OutLine(String::from("done")),
    ];
    let frames = job_transcript(7, String::from("echo"), events, 0);
    assert_eq!(frames.len(), 6);
    assert!(matches!(&frames[0], WorkerClientToWorkerSession::JobStart { id: 7, name } if name == "echo"));
    assert!(matches!(&frames[1], WorkerClientToWorkerSession::Stdout { id: 7, line } if line == "hi"));
    assert!(matches!(&frames[2], WorkerClientToWorkerSession::Stderr { id: 7, line } if line == "oops"));
    assert!(matches!(&frames[3], WorkerClientToWorkerSession::Stdout { id: 7, line } if line == "done"));
    assert!(matches!(&frames[4], WorkerClientToWorkerSession::Status { id: 7, code: 0 }));
    assert!(matches!(&frames[5], WorkerClientToWorkerSession::JobEnd { id: 7, name } if name == "echo"));
}

// --- the outbound queue ---

#[test]
fn queue_self_quiesces() {
    let mut q = OutboundQueue::new(0);
    // idle and empty: nothing to do
    assert_eq!(q.supervisor_tick(1000), DrainAction::Keep);
    q.push_frame(vec![1]);
    q.push_frame(vec![2]);
    // frames waiting and no drainer: start one
    assert_eq!(q.supervisor_tick(2000), DrainAction::Start);
    assert_eq!(q.supervisor_tick(2500), DrainAction::Keep);
    assert_eq!(q.pop_frame(3000), Some(vec![1]));
    assert_eq!(q.pop_frame(3001), Some(vec![2]));
    assert_eq!(q.pop_frame(3002), None);
    // empty but not yet idle long enough
    assert_eq!(q.supervisor_tick(33001), DrainAction::Keep);
    // empty past the idle bound: stop the drainer
    assert_eq!(q.supervisor_tick(33002), DrainAction::Stop);
    assert_eq!(q.supervisor_tick(40000), DrainAction::Keep);
}

// --- the override merge ---

#[test]
fn override_merge_wins() {
    let mut defaults: NameMap<Command> = NameMap::new();
    defaults.insert(String::from("ls"), Command::new(String::from("ls /")));
    defaults.insert(String::from("free"), Command::new(String::from("free -m")));
    let mut over: NameMap<Command> = NameMap::new();
    over.insert(String::from("ls"), Command::new(String::from("ls /tmp")));
    over.insert(String::from("extra"), Command::new(String::from("uptime")));

    let merged = effective_commands(&defaults, Some(&over));
    assert_eq!(merged.get(&String::from("ls")).unwrap().cmd(), "ls /tmp");
    assert_eq!(merged.get(&String::from("free")).unwrap().cmd(), "free -m");
    assert_eq!(merged.get(&String::from("extra")).unwrap().cmd(), "uptime");
    assert!(merged.get(&String::from("missing")).is_none());

    let verbatim = effective_commands(&defaults, None);
    assert_eq!(verbatim.get(&String::from("ls")).unwrap().cmd(), "ls /");
    assert_eq!(verbatim.get(&String::from("free")).unwrap().cmd(), "free -m");
    assert_eq!(verbatim.len(), 2);
}

// --- the router ---

#[test]
fn list_workers_snapshot() {
    let mut s = Server::new(demo_config());
    let (u1, _) = s.connect_worker(String::from("10.0.0.1"), String::from("alpha"));
    let (u2, _) = s.connect_worker(String::from("10.0.0.2"), String::from("beta"));
    let actions = s.handle_list_workers(99);
    assert_eq!(actions.len(), 1);
    match &actions[0] {
        ServerAction::ToManager(99, ServerToManagerClient::WorkersList(ws)) => {
            assert_eq!(ws.len(), 2);
            assert!(ws.contains(&(u1, (String::from("10.0.0.1"), String::from("alpha")))));
            assert!(ws.contains(&(u2, (String::from("10.0.0.2"), String::from("beta")))));
        }
        _ => panic!("list-workers should answer the asking manager"),
    }
}

#[test]
fn schedules_for_unknown_worker() {
    let s = Server::new(demo_config());
    let actions = s.handle_manager_schedules(42, String::from("gamma"));
    assert_eq!(actions.len(), 1);
    match &actions[0] {
        ServerAction::ToManager(42, ServerToManagerClient::Schedules { name, schedules }) => {
            assert_eq!(name, "gamma");
            assert!(schedules.is_empty());
        }
        _ => panic!("an unknown worker should be answered at once"),
    }
}

#[test]
fn schedules_for_known_worker() {
    let mut s = Server::new(demo_config());
    let (u1, _) = s.connect_worker(String::from("10.0.0.1"), String::from("alpha"));
    let actions = s.handle_manager_schedules(42, String::from("alpha"));
    assert_eq!(actions.len(), 1);
    match &actions[0] {
        ServerAction::ToWorker(to, ServerToWorkerClient::Schedules(mid)) => {
            assert_eq!(*to, u1);
            assert_eq!(*mid, 42);
        }
        _ => panic!("a known worker should get the request"),
    }
}

#[test]
fn broadcast_skips_the_new_peer() {
    let mut s = Server::new(demo_config());
    let (u1, _) = s.connect_worker(String::from("10.0.0.1"), String::from("alpha"));
    let (u2, actions) = s.connect_worker(String::from("10.0.0.2"), String::from("beta"));
    // the join notice reaches the other worker and never the new one
    match &actions[0] {
        ServerAction::BroadcastWorkers(ids, ServerToWorkerClient::Status(msg)) => {
            assert!(ids.contains(&u1));
            assert!(!ids.contains(&u2));
            assert_eq!(*msg, format!("worker joined: {}", uuid_to_string(u2)));
        }
        _ => panic!("a join should be broadcast"),
    }
    // the totals reach everyone
    match &actions[2] {
        ServerAction::BroadcastWorkers(ids, ServerToWorkerClient::Status(msg)) => {
            assert!(ids.contains(&u1));
            assert!(ids.contains(&u2));
            assert_eq!(*msg, "total workers 2");
        }
        _ => panic!("totals should be broadcast"),
    }
}

#[test]
fn initialize_merges_commands() {
    let s = Server::new(demo_config());
    let actions = s.handle_worker_message(WorkerSessionToServer::Initialize {
        id: 5,
        name: String::from("alpha"),
    });
    assert_eq!(actions.len(), 1);
    match &actions[0] {
        ServerAction::ToWorker(5, ServerToWorkerClient::Initialize(tbl, scheds)) => {
            assert_eq!(tbl.get(&String::from("ls")).unwrap().cmd(), "ls /tmp");
            assert_eq!(tbl.get(&String::from("free")).unwrap().cmd(), "free -m");
            assert_eq!(scheds.len(), 1);
        }
        _ => panic!("initialize should answer the worker"),
    }
}

#[test]
fn reload_keeps_old_config_on_failure() {
    let mut s = Server::new(demo_config());
    let actions = s.handle_reload(7, None);
    assert_eq!(actions.len(), 2);
    assert!(matches!(
        &actions[0],
        ServerAction::ToManager(7, ServerToManagerClient::Reload(true))
    ));
    assert!(matches!(&actions[1], ServerAction::BroadcastWorkers(_, ServerToWorkerClient::Reload)));
    // the old table still answers initializations
    let acts = s.handle_worker_message(WorkerSessionToServer::Initialize {
        id: 5,
        name: String::from("beta"),
    });
    match &acts[0] {
        ServerAction::ToWorker(_, ServerToWorkerClient::Initialize(tbl, _)) => {
            assert_eq!(tbl.get(&String::from("ls")).unwrap().cmd(), "ls /");
        }
        _ => panic!("initialize should answer the worker"),
    }
}

#[test]
fn reload_applies_new_config() {
    let mut s = Server::new(demo_config());
    let mut t = empty_toml();
    let mut default: NameMap<Command> = NameMap::new();
    default.insert(String::from("ls"), Command::new(String::from("ls /tmp")));
    t.default = default;
    let _ = s.handle_reload(7, Some(Config::from_toml(t)));
    let acts = s.handle_worker_message(WorkerSessionToServer::Initialize {
        id: 5,
        name: String::from("beta"),
    });
    match &acts[0] {
        ServerAction::ToWorker(_, ServerToWorkerClient::Initialize(tbl, _)) => {
            assert_eq!(tbl.get(&String::from("ls")).unwrap().cmd(), "ls /tmp");
        }
        _ => panic!("initialize should answer the worker"),
    }
}

#[test]
fn disconnect_is_idempotent() {
    let mut s = Server::new(demo_config());
    let (u1, _) = s.connect_worker(String::from("10.0.0.1"), String::from("alpha"));
    let actions = s.disconnect_worker(u1);
    assert_eq!(actions.len(), 4);
    let again = s.disconnect_worker(u1);
    assert!(again.is_empty());
}

#[test]
fn query_frames_done_flag() {
    let s = Server::new(demo_config());
    let mut d1 = JobDoc::new(1, String::from("alpha"), 10, String::from("ls"), 1700000000);
    d1.stdout.push(String::from("a"));
    let d2 = JobDoc::new(1, String::from("alpha"), 11, String::from("free"), 1700000100);
    let actions = s.handle_query(9, vec![d1, d2], 1700000200);
    assert_eq!(actions.len(), 2);
    match (&actions[0], &actions[1]) {
        (
            ServerAction::ToManager(9, ServerToManagerClient::QueryReturn { done: d_first, .. }),
            ServerAction::ToManager(9, ServerToManagerClient::QueryReturn { done: d_last, stdout, .. }),
        ) => {
            assert!(!d_first);
            assert!(d_last);
            assert!(stdout.is_empty());
        }
        _ => panic!("each archived job should come back in one frame"),
    }
    let empty = s.handle_query(9, vec![], 1700000300);
    assert_eq!(empty.len(), 1);
    assert!(matches!(
        &empty[0],
        ServerAction::ToManager(9, ServerToManagerClient::QueryReturn { done: true, .. })
    ));
}

// --- sessions ---

#[test]
fn job_lifecycle_archives_once() {
    let mut ws = WorkerSession::new(1, String::from("alpha"), String::from("10.0.0.1"));
    let none = ws.handle_frame(
        WorkerClientToWorkerSession::JobStart { id: 10, name: String::from("echo") },
        100,
    );
    assert!(none.is_empty());
    ws.handle_frame(
        WorkerClientToWorkerSession::Stdout { id: 10, line: String::from("hi") },
        101,
    );
    ws.handle_frame(WorkerClientToWorkerSession::Status { id: 10, code: 0 }, 102);
    let out = ws.handle_frame(
        WorkerClientToWorkerSession::JobEnd { id: 10, name: String::from("echo") },
        103,
    );
    assert_eq!(out.len(), 1);
    match &out[0] {
        SessionAction::Archive(doc) => {
            assert_eq!(doc.worker_id, 1);
            assert_eq!(doc.worker_name, "alpha");
            assert_eq!(doc.job_id, 10);
            assert_eq!(doc.job_name, "echo");
            assert_eq!(doc.start_time, 100);
            assert_eq!(doc.end_time, 103);
            assert_eq!(doc.stdout, vec![String::from("hi")]);
            assert!(doc.stderr.is_empty());
            assert_eq!(doc.status, 0);
        }
        _ => panic!("a finished job should be archived"),
    }
    // frames about the finished job are dropped
    let late = ws.handle_frame(
        WorkerClientToWorkerSession::Stdout { id: 10, line: String::from("late") },
        104,
    );
    assert!(late.is_empty());
}

#[test]
fn manager_requests_translate() {
    let ms = ManagerSession::new(3, String::from("ops"), String::from("10.0.0.9"));
    assert!(matches!(
        ms.handle_request(ManagerClientToManagerSession::Reload),
        ManagerAction::ToServer(pud::ManagerSessionToServer::Reload(3))
    ));
    assert!(matches!(
        ms.handle_request(ManagerClientToManagerSession::ListWorkers),
        ManagerAction::ToServer(pud::ManagerSessionToServer::ListWorkers(3))
    ));
    match ms.handle_request(ManagerClientToManagerSession::Query(String::from("all"))) {
        ManagerAction::RunQuery(q) => assert_eq!(q, "all"),
        _ => panic!("queries go to the archive first"),
    }
}

// --- the worker's installed state ---

#[test]
fn install_arms_schedules() {
    let mut w = Worker::new();
    let mut commands: NameMap<Command> = NameMap::new();
    commands.insert(String::from("echo"), Command::new(String::from("echo hi")));
    let schedules = vec![
        Schedule::Monotonic {
            on_boot_sec: Span { secs: 1, nanos: 0 },
            on_unit_active_sec: Span { secs: 2, nanos: 0 },
            cmds: vec![String::from("echo")],
        },
        Schedule::Realtime {
            on_calendar: String::from("*-*-* *:*:00"),
            persistent: false,
            cmds: vec![String::from("echo")],
        },
    ];
    let (monos, has_rt) = w.install(commands, schedules, 5000);
    assert!(has_rt);
    assert!(w.running);
    assert_eq!(monos.len(), 1);
    assert_eq!(monos[0], MonotonicState { start_ms: 5000, on_boot_ms: 1000, on_active_ms: 2000, fired: 0 });
    // the armed matcher fires exactly on minute boundaries
    let mut at = Moment { year: 2023, month: 6, day: 12, hour: 9, minute: 30, second: 0, day_of_week: 1 };
    let due = w.due_commands(&at);
    assert_eq!(due, vec![vec![String::from("echo")]]);
    at.second = 1;
    assert!(w.due_commands(&at).is_empty());
    w.stop();
    assert!(!w.running);
    assert!(w.due_commands(&at).is_empty());
}

#[test]
fn bad_calendar_is_skipped() {
    let mut w = Worker::new();
    let schedules = vec![Schedule::Realtime {
        on_calendar: String::from("not a calendar at all"),
        persistent: false,
        cmds: vec![String::from("echo")],
    }];
    let (monos, has_rt) = w.install(NameMap::new(), schedules, 0);
    // the schedule is present, so the ticker starts, but nothing is armed
    assert!(has_rt);
    assert!(monos.is_empty());
    let at = Moment { year: 2023, month: 6, day: 12, hour: 9, minute: 30, second: 0, day_of_week: 1 };
    assert!(w.due_commands(&at).is_empty());
}

// --- rendering ---

#[test]
fn renders_sorted_padded_lines() {
    let workers = vec![
        (2u128, (String::from("10.0.0.2"), String::from("zeta"))),
        (1u128, (String::from("10.0.0.1"), String::from("alpha"))),
    ];
    let lines = render_workers_list(&workers);
    assert_eq!(lines.len(), 2);
    assert_eq!(
        lines[0],
        format!("alpha - 10.0.0.1 ({})", uuid_to_string(1))
    );
    assert_eq!(
        lines[1],
        format!("zeta  - 10.0.0.2 ({})", uuid_to_string(2))
    );
    assert_eq!(workers_count_line(2), "2 worker(s) connected");
    assert_eq!(reload_line(true), "reload was a success");
    assert_eq!(reload_line(false), "reload was a failure");
}

#[test]
fn renders_ids_and_numbers() {
    assert_eq!(uuid_to_string(0), "00000000-0000-0000-0000-000000000000");
    assert_eq!(
        uuid_to_string(0x123e4567_e89b_12d3_a456_426614174000),
        "123e4567-e89b-12d3-a456-426614174000"
    );
    assert_eq!(u64_to_string(0), "0");
    assert_eq!(u64_to_string(90210), "90210");
}

#[test]
fn into_stdout_and_stderr_wrap_lines() {
    match WorkerClientToWorkerSession::into_stdout(String::from("a line")) {
        WorkerClientToWorkerSession::Stdout { line, .. } => assert_eq!(line, "a line"),
        _ => panic!("into_stdout should build a stdout frame"),
    }
    match WorkerClientToWorkerSession::into_stderr(String::from("an error")) {
        WorkerClientToWorkerSession::Stderr { line, .. } => assert_eq!(line, "an error"),
        _ => panic!("into_stderr should build a stderr frame"),
    }
}

#[test]
fn schedules_take_returns_the_list() {
    let s = Schedules::new(vec![Schedule::Realtime {
        on_calendar: String::from("minutely"),
        persistent: false,
        cmds: vec![String::from("t")],
    }]);
    let v = s.take();
    assert_eq!(v.len(), 1);
}

#[test]
fn wildcard_parse_matches_shape() {
    let rt = parse_calendar("*-*-* *:*:*").unwrap();
    let expected = Realtime::new(
        DayOfWeek::All,
        Year::All,
        Month::All,
        Day::All,
        Hour::All,
        Minute::All,
        Second::All,
    );
    assert_eq!(rt, expected);
}

#[test]
fn bad_field_value_is_reported() {
    match pud::parse_hms("aa:00:00") {
        Ok(_) => panic!("this time should be invalid"),
        Err(e) => assert_eq!(e.message(), "invalid value: 'aa'"),
    }
}

#[test]
fn zero_step_is_rejected() {
    match pud::parse_hms("0/0:00:00") {
        Ok(_) => panic!("a repetition with step zero should be invalid"),
        Err(e) => assert_eq!(e.message(), "invalid range: '0/0'"),
    }
}

#[test]
fn config_dir_error_message() {
    assert_eq!(
        pud::Error::ConfigDir.message(),
        "There is no valid config directory"
    );
}

#[test]
fn reversed_year_range_is_rejected() {
    match pud::parse_year("1980..1976") {
        Ok(_) => panic!("a reversed year range should be invalid"),
        Err(e) => assert_eq!(e.message(), "invalid range: '1980..1976'"),
    }
    match pud::parse_date("1980..1976-*-*") {
        Ok(_) => panic!("a reversed year range should be invalid"),
        Err(e) => assert_eq!(e.message(), "invalid range: '1980..1976'"),
    }
    let (year, _, _) = pud::parse_date("1976..1980-*-*").unwrap();
    assert_eq!(year, Year::Range(1976, 1980));
}
