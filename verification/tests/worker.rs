use xfl::config::init_config;
use xfl::config::ServerConfig;
use xfl::engine::libfuzzer_c::build_invocation;
use xfl::engine::libfuzzer_c::interpret_output;
use xfl::engine::libfuzzer_c::parse_line;
use xfl::engine::libfuzzer_c::run_fuzzer;
use xfl::engine::libfuzzer_c::tokenize;
use xfl::engine::libfuzzer_c::LibFuzzerFuzzTask;
use xfl::engine::libfuzzer_c::RuntimeStats;
use xfl::engine::libfuzzer_c::StatUpdate;
use xfl::parse::CommandLine;
use xfl::parse::SocketAddr;
use xfl::schedule::select_engine;
use xfl::schedule::EngineStrategy;
use xfl::supervisor::next_report_decision;
use xfl::supervisor::ReportDecision;
use xfl::supervisor::ReportOutcome;
use xfl::supervisor::WorkerAction;
use xfl::supervisor::WorkerEvent;
use xfl::supervisor::WorkerState;

fn command_line(language: &str, engine: &str, persistent: u8, args: &str) -> CommandLine {
    CommandLine {
        address: SocketAddr { o1: 10, o2: 0, o3: 0, o4: 5, port: 3000 },
        language: language.to_string(),
        engine: engine.to_string(),
        persistent,
        args: args.to_string(),
    }
}

#[test]
fn dispatch_supported_pairs() {
    for lang in ["C", "c"] {
        let opt = command_line(lang, "xlibfuzzer", 0, "run");
        assert_eq!(select_engine(&opt).unwrap(), EngineStrategy::LibFuzzerC);
    }
}

#[test]
fn dispatch_unsupported_pair_names_inputs() {
    // Scenario: an unsupported pair is reported with the exact inputs and
    // nothing is spawned; the node goes on.
    let opt = command_line("python", "xlibfuzzer", 0, "run");
    let err = select_engine(&opt).unwrap_err();
    assert_eq!(err.language, "python");
    assert_eq!(err.engine, "xlibfuzzer");

    let opt = command_line("c", "honggfuzz", 0, "run");
    let err = select_engine(&opt).unwrap_err();
    assert_eq!(err.language, "c");
    assert_eq!(err.engine, "honggfuzz");
}

#[test]
fn config_is_copied_verbatim() {
    let opt = command_line("C", "xlibfuzzer", 2, "afl-fuzz -i in -o out");
    let cfg = init_config(&opt);
    assert_eq!(cfg.server_addr, opt.address);
    assert_eq!(cfg.language, "C");
    assert_eq!(cfg.engine, "xlibfuzzer");
    assert_eq!(cfg.persistent, 2);
    assert_eq!(cfg.args, "afl-fuzz -i in -o out");
}

#[test]
fn default_config_is_loopback() {
    let cfg = ServerConfig::default();
    assert_eq!(cfg.server_addr, SocketAddr { o1: 127, o2: 0, o3: 0, o4: 1, port: 50051 });
    assert_eq!(cfg.persistent, 0);
    assert!(cfg.language.is_empty());
    assert!(cfg.engine.is_empty());
    assert!(cfg.args.is_empty());
}

fn fresh_stats(cmd: &str) -> RuntimeStats {
    RuntimeStats::new(7, 1, cmd.to_string())
}

#[test]
fn counters_are_monotonic() {
    let mut stats = fresh_stats("run");
    interpret_output("execs: 120", &mut stats);
    assert_eq!(stats.count, 120);
    interpret_output("execs: 50", &mut stats);
    assert_eq!(stats.count, 120);
    interpret_output("execs: 121", &mut stats);
    assert_eq!(stats.count, 121);
    interpret_output("crashes: 3", &mut stats);
    interpret_output("crashes: 1", &mut stats);
    assert_eq!(stats.crashes, 3);
    interpret_output("queue: 17", &mut stats);
    interpret_output("queue: 16", &mut stats);
    assert_eq!(stats.queue_entries, 17);
}

#[test]
fn rate_is_instantaneous() {
    let mut stats = fresh_stats("run");
    interpret_output("execs_sec: 900", &mut stats);
    assert_eq!(stats.execs_sec, 900);
    interpret_output("execs_sec: 20", &mut stats);
    assert_eq!(stats.execs_sec, 20);
}

#[test]
fn coverage_respects_denominator() {
    let mut stats = fresh_stats("run");
    interpret_output("basic_blocks: 5/120", &mut stats);
    assert_eq!((stats.basic_blocks, stats.whole_basic_blocks), (5, 120));
    // An inconsistent pair is ignored outright.
    interpret_output("basic_blocks: 120/5", &mut stats);
    assert_eq!((stats.basic_blocks, stats.whole_basic_blocks), (5, 120));
    interpret_output("functions: 9/9", &mut stats);
    assert_eq!((stats.functions, stats.whole_functions), (9, 9));
    interpret_output("lines: 100/2000", &mut stats);
    interpret_output("edges: 7/9", &mut stats);
    assert!(stats.lines <= stats.whole_lines);
    assert!(stats.edges <= stats.whole_edges);
}

#[test]
fn unparseable_lines_are_ignored() {
    let mut stats = fresh_stats("run");
    interpret_output("#1234 NEW cov: 567", &mut stats);
    interpret_output("", &mut stats);
    interpret_output("execs 12", &mut stats);
    interpret_output("execs:12", &mut stats);
    interpret_output("execs: 012", &mut stats);
    interpret_output("execs: twelve", &mut stats);
    interpret_output("mystery: 5", &mut stats);
    assert_eq!(stats.count, 0);
    assert_eq!(stats.crashes, 0);
    assert_eq!(stats.queue_entries, 0);
}

#[test]
fn line_grammar_is_exact() {
    assert_eq!(parse_line("execs: 42"), Some(StatUpdate::Execs(42)));
    assert_eq!(parse_line("execs_sec: 900"), Some(StatUpdate::ExecsSec(900)));
    assert_eq!(parse_line("crashes: 0"), Some(StatUpdate::Crashes(0)));
    assert_eq!(parse_line("queue: 7"), Some(StatUpdate::Queue(7)));
    assert_eq!(parse_line("edges: 7/9"), Some(StatUpdate::Edges(7, 9)));
    assert_eq!(parse_line("lines: 1/2"), Some(StatUpdate::Lines(1, 2)));
    // Numerals are capped at 19 digits.
    assert_eq!(
        parse_line("execs: 9999999999999999999"),
        Some(StatUpdate::Execs(9999999999999999999))
    );
    assert_eq!(parse_line("execs: 18446744073709551615"), None);
    assert_eq!(parse_line("edges: 7/"), None);
    assert_eq!(parse_line("edges: /9"), None);
    assert_eq!(parse_line("edges: 7-9"), None);
}

#[test]
fn tokenize_splits_on_spaces() {
    assert_eq!(tokenize("afl-fuzz -i in -o out"), vec!["afl-fuzz", "-i", "in", "-o", "out"]);
    assert_eq!(tokenize("  a   b "), vec!["a", "b"]);
    assert_eq!(tokenize(""), Vec::<String>::new());
    assert_eq!(tokenize("   "), Vec::<String>::new());
}

#[test]
fn build_invocation_splits_program_and_args() {
    let opt = command_line("C", "xlibfuzzer", 0, "afl-fuzz -i in -o out -- ./target @@");
    let cfg = init_config(&opt);
    let spec = build_invocation(&cfg).unwrap();
    assert_eq!(spec.program, "afl-fuzz");
    assert_eq!(spec.argv, vec!["-i", "in", "-o", "out", "--", "./target", "@@"]);
}

#[test]
fn build_invocation_rejects_blank_command_line() {
    for args in ["", "   "] {
        let opt = command_line("C", "xlibfuzzer", 0, args);
        let cfg = init_config(&opt);
        let err = build_invocation(&cfg).unwrap_err();
        assert!(!err.message.is_empty());
    }
}

#[test]
fn scenario_native_run_to_exit() {
    // Scenario: a native C job is dispatched, spawns, runs, and exits
    // cleanly; the final state is Exited with run identity and command
    // line intact.
    let args = "afl-fuzz -i in -o out -- ./target @@";
    let opt = command_line("C", "xlibfuzzer", 0, args);
    let cfg = init_config(&opt);
    assert_eq!(select_engine(&opt).unwrap(), EngineStrategy::LibFuzzerC);

    let mut task = run_fuzzer(&cfg, 0);
    assert_eq!(task.supervisor.state, WorkerState::Idle);
    let run_id = task.supervisor.stats.run_id;
    assert_ne!(run_id, 0);
    assert_eq!((run_id >> 76) & 0xf, 4);

    assert_eq!(task.run(), WorkerAction::Spawn);
    assert_eq!(task.supervisor.state, WorkerState::Spawning);
    assert_eq!(task.step(&WorkerEvent::SpawnOk), WorkerAction::Continue);
    assert_eq!(task.supervisor.state, WorkerState::Running);
    assert_eq!(task.step(&WorkerEvent::ExitClean), WorkerAction::Finish);
    assert_eq!(task.supervisor.state, WorkerState::Exited);
    assert_eq!(task.supervisor.stats.run_id, run_id);
    assert_eq!(task.supervisor.stats.cmd, args);
}

#[test]
fn scenario_persistent_restarts() {
    // Scenario: persistence 2 restarts the cycle exactly twice more, so
    // three runs share one run identity before the terminal exit.
    let opt = command_line("C", "xlibfuzzer", 2, "./target");
    let cfg = init_config(&opt);
    let mut task = run_fuzzer(&cfg, 3);
    let run_id = task.supervisor.stats.run_id;

    assert_eq!(task.run(), WorkerAction::Spawn);
    assert_eq!(task.step(&WorkerEvent::SpawnOk), WorkerAction::Continue);
    assert_eq!(task.step(&WorkerEvent::Output("execs: 10".to_string())), WorkerAction::Continue);
    assert_eq!(task.supervisor.stats.count, 10);

    // First clean exit: a restart, not a terminal state.
    assert_eq!(task.step(&WorkerEvent::ExitClean), WorkerAction::Spawn);
    assert_eq!(task.supervisor.state, WorkerState::Spawning);
    assert_eq!(task.supervisor.restarts, 1);
    // Per-run counters are reset; identity is kept.
    assert_eq!(task.supervisor.stats.count, 0);
    assert_eq!(task.supervisor.stats.run_id, run_id);
    assert_eq!(task.supervisor.stats.worker_id, 3);

    // Second clean exit: the last granted restart.
    assert_eq!(task.step(&WorkerEvent::SpawnOk), WorkerAction::Continue);
    assert_eq!(task.step(&WorkerEvent::ExitClean), WorkerAction::Spawn);
    assert_eq!(task.supervisor.restarts, 2);

    // Third clean exit: persistence exhausted, terminal Exited.
    assert_eq!(task.step(&WorkerEvent::SpawnOk), WorkerAction::Continue);
    assert_eq!(task.step(&WorkerEvent::ExitClean), WorkerAction::Finish);
    assert_eq!(task.supervisor.state, WorkerState::Exited);
    assert_eq!(task.supervisor.stats.run_id, run_id);
    assert_eq!(task.supervisor.stats.worker_id, 3);
}

#[test]
fn cancel_always_kills() {
    let opt = command_line("C", "xlibfuzzer", 5, "./target");
    let cfg = init_config(&opt);
    let mut task = run_fuzzer(&cfg, 0);
    task.run();
    task.step(&WorkerEvent::SpawnOk);
    assert_eq!(task.supervisor.state, WorkerState::Running);
    // Cancellation from Running orders the child killed and is terminal,
    // whatever persistence remains.
    assert_eq!(task.step(&WorkerEvent::Cancel), WorkerAction::KillChild);
    assert_eq!(task.supervisor.state, WorkerState::Killed);
}

#[test]
fn spawn_failure_without_persistence_is_crashed() {
    let opt = command_line("C", "xlibfuzzer", 0, "./missing");
    let cfg = init_config(&opt);
    let mut task = run_fuzzer(&cfg, 0);
    task.run();
    assert_eq!(task.step(&WorkerEvent::SpawnFail), WorkerAction::Finish);
    assert_eq!(task.supervisor.state, WorkerState::Crashed);
}

#[test]
fn crash_exit_with_persistence_restarts() {
    let opt = command_line("C", "xlibfuzzer", 1, "./target");
    let cfg = init_config(&opt);
    let mut task = run_fuzzer(&cfg, 0);
    task.run();
    task.step(&WorkerEvent::SpawnOk);
    assert_eq!(task.step(&WorkerEvent::ExitCrash), WorkerAction::Spawn);
    assert_eq!(task.supervisor.state, WorkerState::Spawning);
    task.step(&WorkerEvent::SpawnOk);
    assert_eq!(task.step(&WorkerEvent::ExitCrash), WorkerAction::Finish);
    assert_eq!(task.supervisor.state, WorkerState::Crashed);
}

#[test]
fn mismatched_events_are_ignored() {
    let stats = RuntimeStats::new(0, 9, "./t".to_string());
    let mut task = LibFuzzerFuzzTask::new(stats, 0);
    assert_eq!(task.step(&WorkerEvent::ExitClean), WorkerAction::Ignore);
    assert_eq!(task.supervisor.state, WorkerState::Idle);
    assert_eq!(task.step(&WorkerEvent::SpawnOk), WorkerAction::Ignore);
    assert_eq!(task.supervisor.state, WorkerState::Idle);
    task.run();
    assert_eq!(task.step(&WorkerEvent::Output("execs: 1".to_string())), WorkerAction::Ignore);
    assert_eq!(task.supervisor.stats.count, 0);
}

#[test]
fn distinct_workers_get_distinct_run_ids() {
    let opt = command_line("C", "xlibfuzzer", 0, "./target");
    let cfg = init_config(&opt);
    let a = run_fuzzer(&cfg, 0);
    let b = run_fuzzer(&cfg, 1);
    // Two fresh version-4 identities virtually never collide; equality
    // here would mean the generator returned a constant.
    assert_ne!(a.supervisor.stats.run_id, b.supervisor.stats.run_id);
}

#[test]
fn report_retry_policy_is_bounded() {
    assert_eq!(next_report_decision(1, ReportOutcome::Ack), ReportDecision::Done);
    assert_eq!(
        next_report_decision(1, ReportOutcome::TransientError),
        ReportDecision::RetryAfterMs(200)
    );
    assert_eq!(
        next_report_decision(4, ReportOutcome::TransientError),
        ReportDecision::RetryAfterMs(1600)
    );
    assert_eq!(next_report_decision(5, ReportOutcome::TransientError), ReportDecision::Drop);
    assert_eq!(next_report_decision(5, ReportOutcome::Ack), ReportDecision::Done);
}
