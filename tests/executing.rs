use yarp::job::{interrupt_message, CancelAction, CancelMsg, Canceller, JobSlot, Received};
use yarp::parser::parse_statement;
use yarp::pipeline::{wiring_for, Action, ExecError, PipelineRun, StdinPlan, StdoutPlan, Wiring};
use yarp::resolver::{candidates, first_probe, join_path, next_probe, search_dirs, Probe};
use yarp::session::{LineEvent, LinePhase, LineRun};
use yarp::parser::parse_line;

fn strings(v: &[&str]) -> Vec<String> {
    v.iter().map(|s| s.to_string()).collect()
}

#[test]
fn search_path_directories_in_order() {
    assert_eq!(search_dirs("/usr/bin:/bin"), strings(&["/usr/bin", "/bin"]));
    assert_eq!(search_dirs(""), strings(&[""]));
    assert_eq!(search_dirs("a::b"), strings(&["a", "", "b"]));
}

#[test]
fn join_path_cases() {
    assert_eq!(join_path("/usr/bin", "ls"), "/usr/bin/ls");
    assert_eq!(join_path("/usr/bin/", "ls"), "/usr/bin/ls");
    assert_eq!(join_path("", "ls"), "ls");
    assert_eq!(join_path("/usr/bin", "/bin/ls"), "/bin/ls");
}

#[test]
fn candidates_follow_search_path() {
    assert_eq!(
        candidates("/usr/local/bin:/usr/bin:/bin", "cat"),
        strings(&["/usr/local/bin/cat", "/usr/bin/cat", "/bin/cat"])
    );
}

#[test]
fn probes_stop_at_first_hit() {
    let present = [false, true, true];
    let mut p = first_probe(present.len());
    let mut checked = Vec::new();
    let found = loop {
        match p {
            Probe::Check(i) => {
                checked.push(i);
                p = next_probe(present.len(), i, present[i]);
            }
            Probe::Found(i) => break Some(i),
            Probe::NotFound => break None,
        }
    };
    assert_eq!(found, Some(1));
    assert_eq!(checked, vec![0, 1]);
    assert_eq!(first_probe(0), Probe::NotFound);
    assert_eq!(next_probe(2, 1, false), Probe::NotFound);
    assert_eq!(next_probe(2, 0, false), Probe::Check(1));
    assert_eq!(next_probe(2, 1, true), Probe::Found(1));
}

#[test]
fn wiring_of_stages() {
    assert_eq!(
        wiring_for(1, 0),
        Wiring { stdin: StdinPlan::Inherit, stdout: StdoutPlan::Inherit }
    );
    assert_eq!(
        wiring_for(3, 0),
        Wiring { stdin: StdinPlan::Inherit, stdout: StdoutPlan::Piped }
    );
    assert_eq!(
        wiring_for(3, 1),
        Wiring { stdin: StdinPlan::FromPrevious, stdout: StdoutPlan::Piped }
    );
    assert_eq!(
        wiring_for(3, 2),
        Wiring { stdin: StdinPlan::FromPrevious, stdout: StdoutPlan::Inherit }
    );
}

/// Drives a run with every stage resolving to `/bin/<name>` and spawning
/// with ids from 100 on; returns the spawn requests and the final action.
fn drive_all_ok(text: &str) -> (Vec<(usize, String, Wiring)>, Action) {
    let (mut run, mut action) = PipelineRun::start(parse_statement(text));
    let mut spawns = Vec::new();
    let mut next_pid = 100u32;
    loop {
        match action {
            Action::Resolve(i) => {
                assert!(run.is_resolving());
                let path = format!("/bin/{}", run.stages[i].program);
                action = run.on_resolved(Some(path));
            }
            Action::Spawn { stage, path, wiring } => {
                assert!(run.is_spawning());
                spawns.push((stage, path, wiring));
                action = run.on_spawned(Ok(next_pid));
                next_pid += 1;
            }
            other => return (spawns, other),
        }
    }
}

#[test]
fn echo_hi_into_cat() {
    let (spawns, end) = drive_all_ok("echo hi | cat");
    assert_eq!(spawns.len(), 2);
    assert_eq!(spawns[0].0, 0);
    assert_eq!(spawns[0].1, "/bin/echo");
    assert_eq!(spawns[0].2, Wiring { stdin: StdinPlan::Inherit, stdout: StdoutPlan::Piped });
    assert_eq!(spawns[1].0, 1);
    assert_eq!(spawns[1].1, "/bin/cat");
    assert_eq!(spawns[1].2, Wiring { stdin: StdinPlan::FromPrevious, stdout: StdoutPlan::Inherit });
    assert!(matches!(end, Action::Finished(Some(101))));
}

#[test]
fn three_stage_chain_pipes_adjacent_stages() {
    let (spawns, end) = drive_all_ok("a | b | c");
    assert_eq!(spawns.len(), 3);
    for k in 0..2 {
        assert_eq!(spawns[k].2.stdout, StdoutPlan::Piped);
        assert_eq!(spawns[k + 1].2.stdin, StdinPlan::FromPrevious);
    }
    assert_eq!(spawns[0].2.stdin, StdinPlan::Inherit);
    assert_eq!(spawns[2].2.stdout, StdoutPlan::Inherit);
    assert!(matches!(end, Action::Finished(Some(102))));
}

#[test]
fn all_stages_resolved_before_any_spawn() {
    let (mut run, mut action) = PipelineRun::start(parse_statement("a | b | c"));
    let mut order = Vec::new();
    loop {
        match action {
            Action::Resolve(i) => {
                order.push(format!("r{}", i));
                action = run.on_resolved(Some(String::from("/x")));
            }
            Action::Spawn { stage, .. } => {
                order.push(format!("s{}", stage));
                action = run.on_spawned(Ok(7));
            }
            _ => break,
        }
    }
    assert_eq!(order, strings(&["r0", "r1", "r2", "s0", "s1", "s2"]));
}

#[test]
fn unresolved_stage_spawns_nothing_at_any_position() {
    for missing in 0..3usize {
        let (mut run, mut action) = PipelineRun::start(parse_statement("a | b | c"));
        let mut spawned = 0;
        let end = loop {
            match action {
                Action::Resolve(i) => {
                    let found = if i == missing { None } else { Some(String::from("/x")) };
                    action = run.on_resolved(found);
                }
                Action::Spawn { .. } => {
                    spawned += 1;
                    action = run.on_spawned(Ok(9));
                }
                other => break other,
            }
        };
        assert_eq!(spawned, 0);
        assert!(run.spawned.is_empty());
        let name = ["a", "b", "c"][missing];
        match end {
            Action::Failed(ExecError::CommandNotFound(n)) => assert_eq!(n, name),
            _ => panic!("expected CommandNotFound"),
        }
    }
}

#[test]
fn spawn_failure_names_the_stage() {
    let (mut run, action) = PipelineRun::start(parse_statement("a | b"));
    assert!(matches!(action, Action::Resolve(0)));
    assert!(matches!(run.on_resolved(Some(String::from("/bin/a"))), Action::Resolve(1)));
    assert!(matches!(run.on_resolved(Some(String::from("/bin/b"))), Action::Spawn { stage: 0, .. }));
    assert!(matches!(run.on_spawned(Ok(10)), Action::Spawn { stage: 1, .. }));
    match run.on_spawned(Err(String::from("permission denied"))) {
        Action::Failed(ExecError::SpawnFailed(n, cause)) => {
            assert_eq!(n, "b");
            assert_eq!(cause, "permission denied");
        }
        _ => panic!("expected SpawnFailed"),
    }
    assert_eq!(run.spawned, vec![10]);
    assert!(run.ended);
}

#[test]
fn empty_statement_is_a_no_op() {
    let (run, action) = PipelineRun::start(parse_statement("  "));
    assert!(matches!(action, Action::Finished(None)));
    assert!(run.ended);
    assert!(!run.is_resolving());
}

#[test]
fn slot_transitions() {
    let mut slot = JobSlot::new();
    assert!(slot.is_empty());
    slot.occupy(42);
    assert_eq!(slot.pid, 42);
    assert!(!slot.is_empty());
    slot.vacate();
    assert!(slot.is_empty());
}

#[test]
fn interrupt_with_empty_slot_signals_nothing() {
    let mut c = Canceller::new();
    let msg = interrupt_message(JobSlot::new());
    assert_eq!(msg, CancelMsg::Terminate(0));
    assert_eq!(c.handle(Received::Message(msg)), CancelAction::Idle);
    assert!(!c.stopped);
}

#[test]
fn interrupt_with_foreground_signals_it_once() {
    let mut c = Canceller::new();
    let mut slot = JobSlot::new();
    slot.occupy(4242);
    let msg = interrupt_message(slot);
    assert_eq!(c.handle(Received::Message(msg)), CancelAction::Signal(4242));
    assert!(!c.stopped);
}

#[test]
fn shutdown_stops_canceller_for_good() {
    let mut c = Canceller::new();
    assert_eq!(c.handle(Received::Message(CancelMsg::Shutdown)), CancelAction::Stop);
    assert!(c.stopped);
    assert_eq!(c.handle(Received::Message(CancelMsg::Terminate(77))), CancelAction::Stop);
    assert_eq!(c.handle(Received::Broken), CancelAction::Stop);
}

#[test]
fn broken_channel_is_reported_and_loop_goes_on() {
    let mut c = Canceller::new();
    assert_eq!(c.handle(Received::Broken), CancelAction::ReportBroken);
    assert!(!c.stopped);
    assert_eq!(c.handle(Received::Message(CancelMsg::Terminate(3))), CancelAction::Signal(3));
}

#[test]
fn statements_run_in_sequence() {
    let mut line = LineRun::start(3);
    assert_eq!(line.phase, LinePhase::SettingUp);
    assert!(!line.can_take(LineEvent::Reaped));
    line.step(LineEvent::SetupEnded(Some(55)));
    assert_eq!(line.phase, LinePhase::Waiting);
    assert_eq!(line.slot.pid, 55);
    assert_eq!(line.current, 0);
    assert!(!line.can_take(LineEvent::SetupEnded(None)));
    line.step(LineEvent::Reaped);
    assert_eq!(line.current, 1);
    assert!(line.slot.is_empty());
    assert_eq!(line.phase, LinePhase::SettingUp);
    line.step(LineEvent::SetupEnded(None));
    assert_eq!(line.current, 2);
    assert_eq!(line.phase, LinePhase::SettingUp);
    line.step(LineEvent::SetupEnded(Some(56)));
    line.step(LineEvent::Reaped);
    assert_eq!(line.current, 3);
    assert_eq!(line.phase, LinePhase::Done);
}

#[test]
fn failed_statement_does_not_stop_the_next() {
    let statements = parse_line("doesnotexist; echo ok");
    let mut line = LineRun::start(statements.len());
    let mut outcomes = Vec::new();
    for st in statements {
        assert_eq!(line.phase, LinePhase::SettingUp);
        let (mut run, mut action) = PipelineRun::start(st);
        let fg = loop {
            match action {
                Action::Resolve(i) => {
                    let found = if run.stages[i].program == "echo" {
                        Some(String::from("/bin/echo"))
                    } else {
                        None
                    };
                    action = run.on_resolved(found);
                }
                Action::Spawn { .. } => action = run.on_spawned(Ok(300)),
                Action::Finished(fg) => {
                    outcomes.push(String::from("ran"));
                    break fg;
                }
                Action::Failed(ExecError::CommandNotFound(n)) => {
                    outcomes.push(format!("not found: {}", n));
                    break None;
                }
                Action::Failed(_) => panic!("unexpected spawn failure"),
            }
        };
        line.step(LineEvent::SetupEnded(fg));
        if fg.is_some() {
            assert_eq!(line.slot.pid, 300);
            line.step(LineEvent::Reaped);
        }
    }
    assert_eq!(outcomes, strings(&["not found: doesnotexist", "ran"]));
    assert_eq!(line.phase, LinePhase::Done);
    assert!(line.slot.is_empty());
}

#[test]
fn empty_line_is_done_at_once() {
    let line = LineRun::start(0);
    assert_eq!(line.phase, LinePhase::Done);
}

#[test]
fn search_without_hits_is_not_found() {
    let present = [false, false];
    let mut p = first_probe(present.len());
    let mut steps = 0;
    while let Probe::Check(i) = p {
        p = next_probe(present.len(), i, present[i]);
        steps += 1;
    }
    assert_eq!(p, Probe::NotFound);
    assert_eq!(steps, 2);
}
