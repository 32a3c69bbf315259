use process_surgeon::models::KillResult;
use process_surgeon::safety::SafetyRegistry;
use process_surgeon::terminator::GracefulStep;
use process_surgeon::terminator::PollDecision;
use process_surgeon::terminator::ProcessTerminator;
use process_surgeon::terminator::TerminationDecision;
use process_surgeon::terminator::conclude_attempt;
use process_surgeon::terminator::decide_poll;
use process_surgeon::terminator::decide_termination;
use process_surgeon::terminator::graceful_step_of;
use process_surgeon::terminator::elevated_success_result;
use process_surgeon::terminator::elevation_failed_result;
use process_surgeon::terminator::needs_elevation;
use process_surgeon::terminator::uid_matches;

/// A pid that no process of this machine carries, found by probing the
/// freshly read process table.
fn absent_pid() -> u32 {
    let mut system = sysinfo::System::new();
    system.refresh_processes(sysinfo::ProcessesToUpdate::All, true);
    let mut candidate: u32 = 3_000_000;
    while system.process(sysinfo::Pid::from_u32(candidate)).is_some() {
        candidate += 1;
    }
    candidate
}

#[test]
fn test_terminator_creation() {
    let _terminator = ProcessTerminator::new(SafetyRegistry::linux(7777));
    assert!(true);
}

#[test]
fn terminate_pid_one_is_refused() {
    let mut terminator = ProcessTerminator::new(SafetyRegistry::linux(7777));
    let outcome = terminator.terminate(1, false);
    assert!(!outcome.success);
    assert!(!outcome.required_elevation);
    assert!(outcome.message.contains("protected PID"));
    assert_eq!(outcome.message, "Cannot terminate protected PID: 1");
}

#[test]
fn terminate_absent_pid_reports_not_found() {
    let pid = absent_pid();
    let mut terminator = ProcessTerminator::new(SafetyRegistry::linux(7777));
    let outcome = terminator.terminate(pid, true);
    assert!(!outcome.success);
    assert!(!outcome.required_elevation);
    assert!(outcome.message.contains("not found"));
    assert_eq!(outcome.message, format!("Process {} not found", pid));
}

#[test]
fn terminate_self_pid_is_refused() {
    let mut terminator = ProcessTerminator::new(SafetyRegistry::linux(424242));
    let outcome = terminator.terminate(424242, false);
    assert!(!outcome.success);
    assert!(!outcome.required_elevation);
    assert_eq!(outcome.message, "Cannot terminate self");
}

#[test]
fn no_signal_is_sent_for_protected_targets() {
    let reg = SafetyRegistry::linux(7777);
    let decision = decide_termination(&reg, 100, &Some("systemd".to_string()));
    match decision {
        TerminationDecision::Refuse(k) => {
            assert!(!k.success);
            assert!(!k.required_elevation);
            assert_eq!(k.message, "Cannot terminate protected system process: systemd");
        }
        _ => panic!("a protected name must be refused before any kill call"),
    }
    let decision = decide_termination(&reg, 7777, &Some("anything".to_string()));
    assert!(matches!(decision, TerminationDecision::Refuse(_)));
    let decision = decide_termination(&reg, 1, &None);
    assert!(matches!(decision, TerminationDecision::Refuse(_)));
}

#[test]
fn safe_and_present_target_gets_the_signal() {
    let reg = SafetyRegistry::linux(7777);
    let decision = decide_termination(&reg, 100, &Some("nginx".to_string()));
    match decision {
        TerminationDecision::SendSignal(name) => assert_eq!(name, "nginx"),
        _ => panic!("a safe, present target must get the signal"),
    }
    let decision = decide_termination(&reg, 100, &None);
    match decision {
        TerminationDecision::ReportNotFound(k) => {
            assert!(!k.success);
            assert!(!k.required_elevation);
            assert_eq!(k.message, "Process 100 not found");
        }
        _ => panic!("a safe, absent target is reported not found"),
    }
}

#[test]
fn attempt_outcomes_follow_delivery() {
    let delivered = conclude_attempt(55, "nginx", true);
    assert!(delivered.success);
    assert!(!delivered.required_elevation);
    assert_eq!(delivered.message, "Process 55 (nginx) terminated successfully");

    let failed = conclude_attempt(55, "nginx", false);
    assert!(!failed.success);
    assert!(failed.required_elevation);
    assert_eq!(
        failed.message,
        "Failed to terminate process 55 (nginx). May require elevated privileges."
    );
}

#[test]
fn elevation_decision_and_outcomes() {
    let retry = KillResult {
        success: false,
        message: "m".to_string(),
        required_elevation: true,
    };
    assert!(needs_elevation(&retry));
    let done = KillResult {
        success: true,
        message: "m".to_string(),
        required_elevation: false,
    };
    assert!(!needs_elevation(&done));
    let refused = KillResult {
        success: false,
        message: "m".to_string(),
        required_elevation: false,
    };
    assert!(!needs_elevation(&refused));

    let ok = elevated_success_result(99);
    assert!(ok.success);
    assert!(ok.required_elevation);
    assert_eq!(ok.message, "Process 99 terminated with elevated privileges");

    let bad = elevation_failed_result("authentication dismissed");
    assert!(!bad.success);
    assert!(bad.required_elevation);
    assert_eq!(bad.message, "Elevated termination failed: authentication dismissed");
}

#[test]
fn graceful_start_propagates_failures_at_once() {
    let mut terminator = ProcessTerminator::new(SafetyRegistry::linux(7777));
    // A refusal is propagated immediately, with no polling and no retry.
    match terminator.terminate_graceful_start(1) {
        GracefulStep::Finished(k) => {
            assert!(!k.success);
            assert!(!k.required_elevation);
            assert_eq!(k.message, "Cannot terminate protected PID: 1");
        }
        GracefulStep::AwaitPoll => panic!("a refusal must be propagated at once"),
    }
    // A not-found outcome is propagated immediately too.
    let pid = absent_pid();
    match terminator.terminate_graceful_start(pid) {
        GracefulStep::Finished(k) => {
            assert!(!k.success);
            assert!(!k.required_elevation);
            assert_eq!(k.message, format!("Process {} not found", pid));
        }
        GracefulStep::AwaitPoll => panic!("a not-found failure must be propagated at once"),
    }
}

#[test]
fn graceful_step_decisions() {
    // Only a delivered signal moves to the polling phase.
    let delivered = KillResult {
        success: true,
        message: "sent".to_string(),
        required_elevation: false,
    };
    assert!(matches!(graceful_step_of(delivered), GracefulStep::AwaitPoll));
    // Every failure is returned unchanged.
    let refused = KillResult {
        success: false,
        message: "no".to_string(),
        required_elevation: false,
    };
    match graceful_step_of(refused) {
        GracefulStep::Finished(k) => {
            assert!(!k.success);
            assert!(!k.required_elevation);
            assert_eq!(k.message, "no");
        }
        GracefulStep::AwaitPoll => panic!("a failure must finish the sequence"),
    }
    let privileged = KillResult {
        success: false,
        message: "needs rights".to_string(),
        required_elevation: true,
    };
    match graceful_step_of(privileged) {
        GracefulStep::Finished(k) => {
            assert!(k.required_elevation);
            assert_eq!(k.message, "needs rights");
        }
        GracefulStep::AwaitPoll => panic!("a privilege failure must finish the sequence"),
    }
}

#[test]
fn poll_tick_decisions() {
    assert!(matches!(decide_poll(false, false), PollDecision::ReportExited));
    assert!(matches!(decide_poll(false, true), PollDecision::ReportExited));
    assert!(matches!(decide_poll(true, false), PollDecision::KeepPolling));
    assert!(matches!(decide_poll(true, true), PollDecision::ForceKill));
}

#[test]
fn graceful_poll_outcomes() {
    let mut terminator = ProcessTerminator::new(SafetyRegistry::linux(7777));
    // An exited target finishes the sequence with success, within the
    // window and at expiry alike.
    let pid = absent_pid();
    for timed_out in [false, true] {
        match terminator.graceful_poll(pid, timed_out) {
            GracefulStep::Finished(k) => {
                assert!(k.success);
                assert!(!k.required_elevation);
                assert_eq!(k.message, format!("Process {} terminated gracefully", pid));
            }
            GracefulStep::AwaitPoll => panic!("an exited target must finish the sequence"),
        }
    }

    // A live target within the window asks for another poll interval.
    let step = terminator.graceful_poll(1, false);
    assert!(matches!(step, GracefulStep::AwaitPoll));

    // At timeout expiry the forced retry is still safety-gated: the
    // protected target is refused, and no signal is delivered.
    match terminator.graceful_poll(1, true) {
        GracefulStep::Finished(k) => {
            assert!(!k.success);
            assert!(!k.required_elevation);
            assert_eq!(k.message, "Cannot terminate protected PID: 1");
        }
        GracefulStep::AwaitPoll => panic!("timeout expiry must finish the sequence"),
    }
}

#[test]
fn uid_matching() {
    assert!(uid_matches(&Some(1000), 1000));
    assert!(!uid_matches(&Some(1001), 1000));
    assert!(!uid_matches(&None, 1000));
}
