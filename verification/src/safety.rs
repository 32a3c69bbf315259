//! The safety registry: classifies a (process id, process name) pair as
//! terminable or protected.  The registry is a plain value built once at
//! start-up from a platform table and the engine's own process id; it holds
//! no mutable state.

use vstd::prelude::*;
use crate::strutil::ascii_lower;
use crate::strutil::bytes_eq;
use crate::strutil::lemma_norm_name_ascii;
use crate::strutil::norm_name;
use crate::strutil::normalize_name;
use vstd::utf8::is_ascii_chars;

verus! {

/// Verdict of a safety check, first match wins: the engine's own process,
/// a protected process id, a protected process name, or safe.
#[derive(Debug, Clone)]
pub enum SafetyCheckResult {
    Safe,
    ProtectedProcess(String),
    ProtectedPid(u32),
    SelfTermination,
}

impl SafetyCheckResult {
    /// True exactly of the `Safe` verdict.
    pub fn is_safe(&self) -> (r: bool)
        ensures
            r == (self is Safe),
    {
        matches!(self, SafetyCheckResult::Safe)
    }
}

/// A denylist entry matches a process name when both agree after Unicode
/// case folding and stripping of trailing executable suffixes.
pub open spec fn entry_matches(entry: Seq<char>, name: Seq<char>) -> bool {
    norm_name(entry) == norm_name(name)
}

/// The name is matched by some entry of the denylist.
pub open spec fn name_is_protected(entries: Seq<String>, name: Seq<char>) -> bool {
    exists|i: int| 0 <= i < entries.len() && entry_matches(#[trigger] entries[i]@, name)
}

/// The registry of protected identities.  Read-only after construction.
#[derive(Debug, Clone)]
pub struct SafetyRegistry {
    /// The engine's own process id; terminating it is always refused.
    pub current_pid: u32,
    /// Process ids that are never terminable (kernel/init anchors).
    pub protected_pids: Vec<u32>,
    /// Process names that are never terminable, compared case-insensitively
    /// with executable suffixes stripped.
    pub protected_names: Vec<String>,
}

/// The character views of a denylist.
pub open spec fn name_views(entries: Seq<String>) -> Seq<Seq<char>> {
    entries.map_values(|s: String| s@)
}

/// The anchor pids protected on every platform: the kernel and init.
pub open spec fn anchor_pids() -> Seq<u32> {
    seq![0u32, 1u32]
}

/// The Linux table: service manager, kernel housekeeping threads, session
/// infrastructure, and the engine's own process names.
pub open spec fn linux_protected_names() -> Seq<Seq<char>> {
    seq![
        "init"@,
        "systemd"@,
        "kthreadd"@,
        "ksoftirqd"@,
        "kworker"@,
        "rcu_sched"@,
        "migration"@,
        "watchdog"@,
        "cpuhp"@,
        "netns"@,
        "dbus-daemon"@,
        "NetworkManager"@,
        "systemd-journald"@,
        "systemd-logind"@,
        "systemd-udevd"@,
        "process-surgeon"@,
        "ps-surgeon-proxy"@,
    ]
}

/// The macOS table.
pub open spec fn macos_protected_names() -> Seq<Seq<char>> {
    seq![
        "kernel_task"@,
        "launchd"@,
        "WindowServer"@,
        "loginwindow"@,
        "opendirectoryd"@,
        "diskarbitrationd"@,
        "configd"@,
        "securityd"@,
        "coreauthd"@,
        "cfprefsd"@,
        "powerd"@,
        "logd"@,
        "UserEventAgent"@,
        "mds"@,
        "mds_stores"@,
        "notifyd"@,
        "distnoted"@,
        "process-surgeon"@,
        "Process Surgeon"@,
        "ps-surgeon-proxy"@,
    ]
}

/// The Windows table.
pub open spec fn windows_protected_names() -> Seq<Seq<char>> {
    seq![
        "csrss.exe"@,
        "lsass.exe"@,
        "wininit.exe"@,
        "smss.exe"@,
        "services.exe"@,
        "winlogon.exe"@,
        "dwm.exe"@,
        "system"@,
        "registry"@,
        "memory compression"@,
        "process-surgeon.exe"@,
        "ps-surgeon-proxy.exe"@,
    ]
}

/// The pair (pid, name) classifies as Safe: it is not the engine itself,
/// not a protected id, and not a protected name.
pub open spec fn safe_verdict(reg: SafetyRegistry, pid: u32, name: Seq<char>) -> bool {
    &&& pid != reg.current_pid
    &&& !reg.protected_pids@.contains(pid)
    &&& !name_is_protected(reg.protected_names@, name)
}

/// Classifies a (process id, process name) pair against the registry.
/// Evaluation order, first match wins: self-termination, protected id,
/// protected name, safe.
pub fn check_process_safety(reg: &SafetyRegistry, pid: u32, process_name: &str) -> (r:
    SafetyCheckResult)
    ensures
        (r is SelfTermination) <==> pid == reg.current_pid,
        (r is ProtectedPid) <==> (pid != reg.current_pid && reg.protected_pids@.contains(pid)),
        r matches SafetyCheckResult::ProtectedPid(p) ==> p == pid,
        (r is ProtectedProcess) <==> (pid != reg.current_pid && !reg.protected_pids@.contains(pid)
            && name_is_protected(reg.protected_names@, process_name@)),
        r matches SafetyCheckResult::ProtectedProcess(n) ==> n@ == process_name@,
        (r is Safe) <==> safe_verdict(*reg, pid, process_name@),
{
    if pid == reg.current_pid {
        return SafetyCheckResult::SelfTermination;
    }
    let mut i: usize = 0;
    while i < reg.protected_pids.len()
        invariant
            pid != reg.current_pid,
            i <= reg.protected_pids@.len(),
            forall|j: int| 0 <= j < i ==> reg.protected_pids@[j] != pid,
        decreases reg.protected_pids@.len() - i,
    {
        if reg.protected_pids[i] == pid {
            return SafetyCheckResult::ProtectedPid(pid);
        }
        i = i + 1;
    }
    proof {
        assert(!reg.protected_pids@.contains(pid));
    }
    let name_norm: Vec<u8> = normalize_name(process_name);
    let mut k: usize = 0;
    while k < reg.protected_names.len()
        invariant
            pid != reg.current_pid,
            !reg.protected_pids@.contains(pid),
            k <= reg.protected_names@.len(),
            name_norm@ == norm_name(process_name@),
            forall|j: int| 0 <= j < k ==> !entry_matches(#[trigger] reg.protected_names@[j]@,
                process_name@),
        decreases reg.protected_names@.len() - k,
    {
        let entry_norm: Vec<u8> = normalize_name(reg.protected_names[k].as_str());
        if bytes_eq(name_norm.as_slice(), entry_norm.as_slice()) {
            return SafetyCheckResult::ProtectedProcess(process_name.to_owned());
        }
        k = k + 1;
    }
    proof {
        assert(!name_is_protected(reg.protected_names@, process_name@));
    }
    SafetyCheckResult::Safe
}

/// True of the always-protected init anchor pid.
pub fn is_pid_one(pid: u32) -> (r: bool)
    ensures
        r == (pid == 1),
{
    pid == 1
}

/// True when the pid is the engine's own process.
pub fn is_self_process(reg: &SafetyRegistry, pid: u32) -> (r: bool)
    ensures
        r == (pid == reg.current_pid),
{
    pid == reg.current_pid
}

impl SafetyRegistry {
    /// Builds a registry from explicit parts.
    pub fn new(current_pid: u32, protected_pids: Vec<u32>, protected_names: Vec<String>) -> (r:
        Self)
        ensures
            r.current_pid == current_pid,
            r.protected_pids == protected_pids,
            r.protected_names == protected_names,
    {
        SafetyRegistry { current_pid, protected_pids, protected_names }
    }

    /// The registry with the Linux platform table.
    pub fn linux(current_pid: u32) -> (r: Self)
        ensures
            r.current_pid == current_pid,
            r.protected_pids@ == anchor_pids(),
            name_views(r.protected_names@) == linux_protected_names(),
    {
        let mut pids: Vec<u32> = Vec::new();
        pids.push(0);
        pids.push(1);
        let mut names: Vec<String> = Vec::new();
        names.push("init".to_owned());
        names.push("systemd".to_owned());
        names.push("kthreadd".to_owned());
        names.push("ksoftirqd".to_owned());
        names.push("kworker".to_owned());
        names.push("rcu_sched".to_owned());
        names.push("migration".to_owned());
        names.push("watchdog".to_owned());
        names.push("cpuhp".to_owned());
        names.push("netns".to_owned());
        names.push("dbus-daemon".to_owned());
        names.push("NetworkManager".to_owned());
        names.push("systemd-journald".to_owned());
        names.push("systemd-logind".to_owned());
        names.push("systemd-udevd".to_owned());
        names.push("process-surgeon".to_owned());
        names.push("ps-surgeon-proxy".to_owned());
        proof {
            assert(pids@ =~= anchor_pids());
            assert(name_views(names@) =~= linux_protected_names());
        }
        SafetyRegistry { current_pid, protected_pids: pids, protected_names: names }
    }

    /// The registry with the macOS platform table.
    pub fn macos(current_pid: u32) -> (r: Self)
        ensures
            r.current_pid == current_pid,
            r.protected_pids@ == anchor_pids(),
            name_views(r.protected_names@) == macos_protected_names(),
    {
        let mut pids: Vec<u32> = Vec::new();
        pids.push(0);
        pids.push(1);
        let mut names: Vec<String> = Vec::new();
        names.push("kernel_task".to_owned());
        names.push("launchd".to_owned());
        names.push("WindowServer".to_owned());
        names.push("loginwindow".to_owned());
        names.push("opendirectoryd".to_owned());
        names.push("diskarbitrationd".to_owned());
        names.push("configd".to_owned());
        names.push("securityd".to_owned());
        names.push("coreauthd".to_owned());
        names.push("cfprefsd".to_owned());
        names.push("powerd".to_owned());
        names.push("logd".to_owned());
        names.push("UserEventAgent".to_owned());
        names.push("mds".to_owned());
        names.push("mds_stores".to_owned());
        names.push("notifyd".to_owned());
        names.push("distnoted".to_owned());
        names.push("process-surgeon".to_owned());
        names.push("Process Surgeon".to_owned());
        names.push("ps-surgeon-proxy".to_owned());
        proof {
            assert(pids@ =~= anchor_pids());
            assert(name_views(names@) =~= macos_protected_names());
        }
        SafetyRegistry { current_pid, protected_pids: pids, protected_names: names }
    }

    /// The registry with the Windows platform table.
    pub fn windows(current_pid: u32) -> (r: Self)
        ensures
            r.current_pid == current_pid,
            r.protected_pids@ == anchor_pids(),
            name_views(r.protected_names@) == windows_protected_names(),
    {
        let mut pids: Vec<u32> = Vec::new();
        pids.push(0);
        pids.push(1);
        let mut names: Vec<String> = Vec::new();
        names.push("csrss.exe".to_owned());
        names.push("lsass.exe".to_owned());
        names.push("wininit.exe".to_owned());
        names.push("smss.exe".to_owned());
        names.push("services.exe".to_owned());
        names.push("winlogon.exe".to_owned());
        names.push("dwm.exe".to_owned());
        names.push("system".to_owned());
        names.push("registry".to_owned());
        names.push("memory compression".to_owned());
        names.push("process-surgeon.exe".to_owned());
        names.push("ps-surgeon-proxy.exe".to_owned());
        proof {
            assert(pids@ =~= anchor_pids());
            assert(name_views(names@) =~= windows_protected_names());
        }
        SafetyRegistry { current_pid, protected_pids: pids, protected_names: names }
    }
}

/// Law: for an all-ASCII name, classification is case-insensitive and
/// blind to a trailing executable suffix — the Safe verdict agrees for
/// the name, its lower-cased form, and the name with ".exe" appended,
/// whatever the registry holds.
pub proof fn lemma_classify_fold_invariant(reg: SafetyRegistry, pid: u32, name: Seq<char>)
    requires
        is_ascii_chars(name),
    ensures
        safe_verdict(reg, pid, ascii_lower(name)) == safe_verdict(reg, pid, name),
        safe_verdict(reg, pid, name + ".exe"@) == safe_verdict(reg, pid, name),
{
    lemma_norm_name_ascii(name);
    let entries = reg.protected_names@;
    assert forall|other: Seq<char>| norm_name(other) == norm_name(name) implies (
    name_is_protected(entries, other) <==> name_is_protected(entries, name)) by {
        if name_is_protected(entries, other) {
            let i = choose|i: int|
                0 <= i < entries.len() && entry_matches(#[trigger] entries[i]@, other);
            assert(entry_matches(entries[i]@, name));
        }
        if name_is_protected(entries, name) {
            let i = choose|i: int|
                0 <= i < entries.len() && entry_matches(#[trigger] entries[i]@, name);
            assert(entry_matches(entries[i]@, other));
        }
    }
    assert(name_is_protected(entries, ascii_lower(name)) <==> name_is_protected(entries, name));
    assert(name_is_protected(entries, name + ".exe"@) <==> name_is_protected(entries, name));
}

/// Law: the engine's own process id never classifies as Safe, and neither
/// does any pid of the protected-id set — in particular the anchors 0 and 1
/// of the platform tables — whatever name is presented.
pub proof fn lemma_safety_anchors(reg: SafetyRegistry, name: Seq<char>)
    requires
        reg.protected_pids@.contains(0u32),
        reg.protected_pids@.contains(1u32),
    ensures
        !safe_verdict(reg, reg.current_pid, name),
        !safe_verdict(reg, 0u32, name),
        !safe_verdict(reg, 1u32, name),
{
}

} // verus!
