use process_surgeon::models::AppError;
use process_surgeon::strutil::contains_sub;
use process_surgeon::strutil::normalize_name;
use process_surgeon::strutil::u32_to_string;

#[test]
fn decimal_formatting() {
    assert_eq!(u32_to_string(0), "0");
    assert_eq!(u32_to_string(7), "7");
    assert_eq!(u32_to_string(42), "42");
    assert_eq!(u32_to_string(8080), "8080");
    assert_eq!(u32_to_string(u32::MAX), "4294967295");
}

#[test]
fn name_normalization() {
    assert_eq!(normalize_name("Nginx"), b"nginx");
    assert_eq!(normalize_name("CSRSS.EXE"), b"csrss");
    assert_eq!(normalize_name("tool.exe.exe"), b"tool");
    assert_eq!(normalize_name("plain"), b"plain");
    assert_eq!(normalize_name(""), b"");
    // The fold is Unicode, not ASCII: the Kelvin sign lowers to "k".
    assert_eq!(normalize_name("\u{212A}WORKER"), b"kworker");
}

#[test]
fn substring_search() {
    assert!(contains_sub(b"com.docker.backend", b"docker"));
    assert!(contains_sub(b"abc", b""));
    assert!(!contains_sub(b"abc", b"abcd"));
    assert!(!contains_sub(b"vpnkit2", b"dockerd"));
}

#[test]
fn app_error_constructors() {
    let e = AppError::new("SCAN_ERROR", "cannot read socket table");
    assert_eq!(e.code, "SCAN_ERROR");
    assert_eq!(e.message, "cannot read socket table");
    assert!(e.details.is_none());

    let e = AppError::with_details("C", "m", "d");
    assert_eq!(e.details.as_deref(), Some("d"));

    let e = AppError::safety_violation("systemd");
    assert_eq!(e.code, "SAFETY_VIOLATION");
    assert_eq!(e.message, "Operation Forbidden: Critical System Process");
    assert_eq!(
        e.details.as_deref(),
        Some("Cannot terminate protected process: systemd")
    );

    let e = AppError::access_denied(321);
    assert_eq!(e.code, "ACCESS_DENIED");
    assert_eq!(e.message, "Insufficient privileges");
    assert_eq!(
        e.details.as_deref(),
        Some("Elevated privileges required to terminate PID 321")
    );

    let e = AppError::process_not_found(55);
    assert_eq!(e.code, "NOT_FOUND");
    assert_eq!(e.message, "Process 55 not found");
    assert!(e.details.is_none());
}
