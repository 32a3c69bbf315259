use process_surgeon::safety::SafetyCheckResult;
use process_surgeon::safety::SafetyRegistry;
use process_surgeon::safety::check_process_safety;
use process_surgeon::safety::is_pid_one;
use process_surgeon::safety::is_self_process;

#[test]
fn test_protected_pid() {
    let reg = SafetyRegistry::linux(7777);
    assert!(!check_process_safety(&reg, 0, "System").is_safe());
    assert!(!check_process_safety(&reg, 1, "init").is_safe());
}

#[test]
fn test_protected_process_names() {
    let macos = SafetyRegistry::macos(7777);
    assert!(!check_process_safety(&macos, 100, "kernel_task").is_safe());
    assert!(!check_process_safety(&macos, 100, "launchd").is_safe());
    assert!(!check_process_safety(&macos, 100, "WindowServer").is_safe());

    let linux = SafetyRegistry::linux(7777);
    assert!(!check_process_safety(&linux, 100, "systemd").is_safe());
    assert!(!check_process_safety(&linux, 100, "init").is_safe());

    let windows = SafetyRegistry::windows(7777);
    assert!(!check_process_safety(&windows, 100, "csrss.exe").is_safe());
    assert!(!check_process_safety(&windows, 100, "lsass.exe").is_safe());
}

#[test]
fn test_safe_process() {
    let reg = SafetyRegistry::linux(7777);
    assert!(check_process_safety(&reg, 12345, "node").is_safe());
    assert!(check_process_safety(&reg, 12345, "python3").is_safe());
    assert!(check_process_safety(&reg, 12345, "nginx").is_safe());
}

#[test]
fn test_self_protection() {
    let reg = SafetyRegistry::linux(4242);
    assert!(!check_process_safety(&reg, 4242, "test").is_safe());
}

#[test]
fn classify_systemd_scenario() {
    let reg = SafetyRegistry::linux(7777);
    let verdict = check_process_safety(&reg, 100, "systemd");
    match verdict {
        SafetyCheckResult::ProtectedProcess(name) => assert_eq!(name, "systemd"),
        _ => panic!("expected a protected-name verdict"),
    }
    let verdict = check_process_safety(&reg, 100, "nginx");
    assert!(matches!(verdict, SafetyCheckResult::Safe));
}

#[test]
fn classify_is_case_insensitive_and_strips_exe() {
    let linux = SafetyRegistry::linux(7777);
    assert!(!check_process_safety(&linux, 100, "SYSTEMD").is_safe());
    assert!(!check_process_safety(&linux, 100, "systemd.exe").is_safe());
    // Unicode case folding: a Kelvin-sign K still matches "kworker".
    assert!(!check_process_safety(&linux, 100, "\u{212A}WORKER").is_safe());
    let windows = SafetyRegistry::windows(7777);
    assert!(!check_process_safety(&windows, 100, "Csrss.EXE").is_safe());
    assert!(!check_process_safety(&windows, 100, "csrss").is_safe());
    assert!(!check_process_safety(&windows, 100, "LSASS").is_safe());
}

#[test]
fn self_verdict_beats_pid_and_name() {
    let reg = SafetyRegistry::linux(1);
    let verdict = check_process_safety(&reg, 1, "systemd");
    assert!(matches!(verdict, SafetyCheckResult::SelfTermination));
}

#[test]
fn protected_pid_verdict_carries_pid() {
    let reg = SafetyRegistry::linux(7777);
    match check_process_safety(&reg, 0, "anything") {
        SafetyCheckResult::ProtectedPid(p) => assert_eq!(p, 0),
        _ => panic!("expected a protected-pid verdict"),
    }
}

#[test]
fn pid_one_and_self_helpers() {
    let reg = SafetyRegistry::linux(4242);
    assert!(is_pid_one(1));
    assert!(!is_pid_one(2));
    assert!(is_self_process(&reg, 4242));
    assert!(!is_self_process(&reg, 4243));
}

#[test]
fn custom_registry_parts_are_used() {
    let reg = SafetyRegistry::new(10, vec![500, 600], vec!["guard".to_string()]);
    assert!(!check_process_safety(&reg, 10, "x").is_safe());
    assert!(!check_process_safety(&reg, 500, "x").is_safe());
    assert!(!check_process_safety(&reg, 600, "x").is_safe());
    assert!(!check_process_safety(&reg, 700, "Guard").is_safe());
    assert!(check_process_safety(&reg, 700, "other").is_safe());
    assert!(check_process_safety(&reg, 0, "x").is_safe());
}
