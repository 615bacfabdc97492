use lindera_store::failure::Failure;
use lindera_store::layout::Presence;
use lindera_store::subprocess::{
    child_exit, ensure_materialized_via_subprocess, wait_outcome, SubprocessAction,
    SubprocessEvent, SubprocessStage, ViaSubprocess,
};

fn refusal(r: Result<(), Failure>) -> String {
    match r {
        Ok(()) => panic!("no refusal"),
        Err(f) => {
            assert_eq!(f.cause, None);
            f.context
        }
    }
}

fn probed(ready: bool) -> SubprocessEvent {
    SubprocessEvent::Probed(Presence { marker: ready, da: true, metadata: true })
}

/// A run whose store is not complete, at the split.
fn at_fork() -> ViaSubprocess {
    let (mut run, _) = ensure_materialized_via_subprocess("/d", true);
    assert!(matches!(run.step(probed(false)), SubprocessAction::CreateRoot));
    assert!(matches!(run.step(SubprocessEvent::Done), SubprocessAction::Fork));
    run
}

#[test]
fn exit_with_code_zero_is_success() {
    assert!(wait_outcome(100, 0, "").is_ok());
}

#[test]
fn exit_with_another_code_names_it() {
    assert_eq!(
        refusal(wait_outcome(100, 1 << 8, "")),
        "dict materialization subprocess exited with code 1"
    );
    assert_eq!(
        refusal(wait_outcome(100, 101 << 8, "")),
        "dict materialization subprocess exited with code 101"
    );
    assert_eq!(
        refusal(wait_outcome(100, 255 << 8, "")),
        "dict materialization subprocess exited with code 255"
    );
}

#[test]
fn death_by_signal_names_it() {
    assert_eq!(
        refusal(wait_outcome(100, 9, "")),
        "dict materialization subprocess killed by signal 9"
    );
    assert_eq!(
        refusal(wait_outcome(100, 11 | 0x80, "")),
        "dict materialization subprocess killed by signal 11"
    );
}

#[test]
fn stop_is_an_abnormal_end() {
    assert_eq!(
        refusal(wait_outcome(100, (19 << 8) | 0x7f, "")),
        "dict materialization subprocess terminated abnormally"
    );
}

#[test]
fn failed_wait_carries_the_system_text() {
    assert_eq!(
        refusal(wait_outcome(-1, 0, "No child processes (os error 10)")),
        "waitpid for dict materialization subprocess failed: No child processes (os error 10)"
    );
}

#[test]
fn exit_codes_cross_to_the_parent() {
    for code in 0..256 {
        assert_eq!(wait_outcome(1, code << 8, "").is_ok(), code == 0);
    }
}

#[test]
fn child_leaves_with_the_outcome_of_its_run() {
    let good = child_exit(&Ok(()));
    assert_eq!(good.code, 0);
    assert_eq!(good.line, None);
    let failure = Failure {
        context: "mkdir /d".to_string(),
        cause: Some("read-only".to_string()),
    };
    let bad = child_exit(&Err(failure));
    assert_eq!(bad.code, 1);
    assert_eq!(
        bad.line,
        Some("[pg_search INSTR-4902] dict materialization (child) failed: mkdir /d".to_string())
    );
}

#[test]
fn complete_store_needs_no_subprocess() {
    let (mut run, first) = ensure_materialized_via_subprocess("/d", true);
    assert!(matches!(first, SubprocessAction::Probe { dict: 0 }));
    assert!(matches!(run.step(probed(true)), SubprocessAction::Probe { dict: 1 }));
    assert!(matches!(run.step(probed(true)), SubprocessAction::Probe { dict: 2 }));
    assert!(matches!(run.step(probed(true)), SubprocessAction::Finished));
    assert!(run.stage == SubprocessStage::Finished);
}

#[test]
fn first_gap_ends_the_looks() {
    let (mut run, _) = ensure_materialized_via_subprocess("/d", true);
    run.step(probed(true));
    assert!(matches!(run.step(probed(false)), SubprocessAction::CreateRoot));
}

#[test]
fn refused_root_needs_no_subprocess() {
    let (mut run, _) = ensure_materialized_via_subprocess("/d", true);
    run.step(probed(false));
    match run.step(SubprocessEvent::Refused("read-only".to_string())) {
        SubprocessAction::Failed(f) => {
            assert_eq!(f.context, "mkdir /d");
            assert_eq!(f.cause, Some("read-only".to_string()));
        }
        _ => panic!("went on"),
    }
}

#[test]
fn parent_waits_for_its_child() {
    let mut run = at_fork();
    let forked = SubprocessEvent::Forked { pid: 77, os_error: String::new() };
    assert!(matches!(run.step(forked), SubprocessAction::Wait { pid: 77 }));
    let waited = SubprocessEvent::Waited { waited: 77, status: 0, os_error: String::new() };
    assert!(matches!(run.step(waited), SubprocessAction::Finished));
}

#[test]
fn parent_fails_with_its_child() {
    let mut run = at_fork();
    run.step(SubprocessEvent::Forked { pid: 77, os_error: String::new() });
    let waited = SubprocessEvent::Waited { waited: 77, status: 256, os_error: String::new() };
    match run.step(waited) {
        SubprocessAction::Failed(f) => {
            assert_eq!(f.context, "dict materialization subprocess exited with code 1");
        }
        _ => panic!("finished"),
    }
    assert!(run.stage == SubprocessStage::Failed);
}

#[test]
fn child_runs_and_exits() {
    let mut run = at_fork();
    let forked = SubprocessEvent::Forked { pid: 0, os_error: String::new() };
    assert!(matches!(run.step(forked), SubprocessAction::RunAndExit));
    assert!(run.stage == SubprocessStage::Child);
}

#[test]
fn failed_split_carries_the_system_text() {
    let mut run = at_fork();
    let forked = SubprocessEvent::Forked { pid: -1, os_error: "no memory".to_string() };
    match run.step(forked) {
        SubprocessAction::Failed(f) => {
            assert_eq!(
                f.context,
                "fork() failed for lindera dict materialization: no memory"
            );
            assert_eq!(f.cause, None);
        }
        _ => panic!("went on"),
    }
}

#[test]
fn system_without_split_runs_in_process() {
    let (mut run, first) = ensure_materialized_via_subprocess("/d", false);
    assert!(matches!(first, SubprocessAction::RunInProcess));
    assert!(matches!(run.step(SubprocessEvent::Ran(Ok(()))), SubprocessAction::Finished));
    let (mut run, _) = ensure_materialized_via_subprocess("/d", false);
    let failure = Failure { context: "mkdir /d".to_string(), cause: None };
    match run.step(SubprocessEvent::Ran(Err(failure))) {
        SubprocessAction::Failed(f) => assert_eq!(f.context, "mkdir /d"),
        _ => panic!("finished"),
    }
}
