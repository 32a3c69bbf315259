//! The termination orchestrator: a safety-gated state machine around the
//! OS process table.  The table lookups and the signal delivery go through
//! sysinfo behind trusted wrappers; every decision between them is
//! verified, and no signal is ever sent for a target that does not
//! classify as Safe.

use vstd::prelude::*;
use crate::models::KillResult;
use crate::safety::SafetyCheckResult;
use crate::safety::SafetyRegistry;
use crate::safety::check_process_safety;
use crate::safety::name_is_protected;
use crate::safety::safe_verdict;
use crate::strutil::dec_str;
use crate::strutil::u32_to_string;

verus! {

#[verifier::external_type_specification]
#[verifier::external_body]
pub struct ExSystem(sysinfo::System);

/// Relies on sysinfo's `System::new`: a fresh, empty system snapshot.
#[verifier::external_body]
fn system_new() -> sysinfo::System {
    sysinfo::System::new()
}

/// Relies on sysinfo's `System::refresh_processes`: re-reads the process
/// table from the OS, removing dead processes from the snapshot.
#[verifier::external_body]
fn system_refresh(s: &mut sysinfo::System) {
    s.refresh_processes(sysinfo::ProcessesToUpdate::All, true);
}

/// Relies on sysinfo's `System::process` and `Process::name`: the display
/// name of the process, or nothing when the snapshot holds no such pid.
/// The value depends on the machine's state; the callers' guarantees hold
/// whatever comes back.
#[verifier::external_body]
fn process_name_of(s: &sysinfo::System, pid: u32) -> Option<String> {
    s.process(sysinfo::Pid::from_u32(pid)).map(|p| p.name().to_string_lossy().to_string())
}

/// Relies on sysinfo's `Process::kill_with`: sends SIGKILL (force) or
/// SIGTERM to the process of the snapshot.  `None` when the process is
/// gone from the snapshot or the signal is unsupported on the platform;
/// otherwise whether the signal was delivered.
#[verifier::external_body]
fn send_kill_signal(s: &sysinfo::System, pid: u32, force: bool) -> Option<bool> {
    let signal = if force {
        sysinfo::Signal::Kill
    } else {
        sysinfo::Signal::Term
    };
    s.process(sysinfo::Pid::from_u32(pid)).and_then(|p| p.kill_with(signal))
}

/// Relies on sysinfo's `Process::user_id`: the numeric id of the user
/// owning the process, if known.
#[verifier::external_body]
fn process_uid_of(s: &sysinfo::System, pid: u32) -> Option<u32> {
    s.process(sysinfo::Pid::from_u32(pid)).and_then(|p| p.user_id()).map(|u| **u)
}

/// The refusal message for a self-termination attempt.
pub open spec fn self_refusal_msg() -> Seq<char> {
    "Cannot terminate self"@
}

/// The refusal message for a protected pid.
pub open spec fn protected_pid_msg(pid: u32) -> Seq<char> {
    "Cannot terminate protected PID: "@ + dec_str(pid as nat)
}

/// The refusal message for a protected process name.
pub open spec fn protected_name_msg(name: Seq<char>) -> Seq<char> {
    "Cannot terminate protected system process: "@ + name
}

/// The message for a target that is no longer present.
pub open spec fn not_found_msg(pid: u32) -> Seq<char> {
    "Process "@ + dec_str(pid as nat) + " not found"@
}

/// The message for a delivered termination signal.
pub open spec fn success_msg(pid: u32, name: Seq<char>) -> Seq<char> {
    "Process "@ + dec_str(pid as nat) + " ("@ + name + ") terminated successfully"@
}

/// The message for a failed delivery, suggesting elevation.
pub open spec fn elevation_msg(pid: u32, name: Seq<char>) -> Seq<char> {
    "Failed to terminate process "@ + dec_str(pid as nat) + " ("@ + name
        + "). May require elevated privileges."@
}

/// The message for a target that exited within the graceful window.
pub open spec fn graceful_msg(pid: u32) -> Seq<char> {
    "Process "@ + dec_str(pid as nat) + " terminated gracefully"@
}

/// The name a lookup resolves to: the found name, or the "Unknown"
/// sentinel when the target is gone.
pub open spec fn lookup_name_view(lookup: Option<String>) -> Seq<char> {
    match lookup {
        Some(n) => n@,
        None => "Unknown"@,
    }
}

/// What the orchestrator does next with one termination request, decided
/// from the safety verdict and the liveness of the target.
pub enum TerminationDecision {
    /// The safety registry refused the target: no signal may be sent.
    Refuse(KillResult),
    /// The target classifies as Safe but is no longer present.
    ReportNotFound(KillResult),
    /// The target classifies as Safe and is present: send the signal to
    /// the process under the carried display name.
    SendSignal(String),
}

/// Decides one termination request from the safety verdict on the looked
/// up name.  A signal is sent exactly when the verdict is Safe and the
/// target is present: a non-Safe verdict short-circuits to a refusal
/// before any OS kill call.
pub fn decide_termination(reg: &SafetyRegistry, pid: u32, name_lookup: &Option<String>) -> (d:
    TerminationDecision)
    ensures
        (d is SendSignal) <==> (safe_verdict(*reg, pid, lookup_name_view(*name_lookup))
            && name_lookup is Some),
        d matches TerminationDecision::SendSignal(n) ==> n@ == lookup_name_view(*name_lookup),
        (d is Refuse) <==> !safe_verdict(*reg, pid, lookup_name_view(*name_lookup)),
        d matches TerminationDecision::Refuse(k) ==> !k.success && !k.required_elevation,
        pid == reg.current_pid ==> (d matches TerminationDecision::Refuse(k) && k.message@
            == self_refusal_msg()),
        pid != reg.current_pid && reg.protected_pids@.contains(pid) ==> (d matches
            TerminationDecision::Refuse(k) && k.message@ == protected_pid_msg(pid)),
        pid != reg.current_pid && !reg.protected_pids@.contains(pid) && name_is_protected(
            reg.protected_names@,
            lookup_name_view(*name_lookup),
        ) ==> (d matches TerminationDecision::Refuse(k) && k.message@ == protected_name_msg(
            lookup_name_view(*name_lookup),
        )),
        (d is ReportNotFound) <==> (safe_verdict(*reg, pid, lookup_name_view(*name_lookup))
            && name_lookup is None),
        d matches TerminationDecision::ReportNotFound(k) ==> !k.success && !k.required_elevation
            && k.message@ == not_found_msg(pid),
{
    let name: String = match name_lookup {
        Some(n) => n.clone(),
        None => String::from_str("Unknown"),
    };
    let verdict: SafetyCheckResult = check_process_safety(reg, pid, name.as_str());
    match verdict {
        SafetyCheckResult::Safe => {
            match name_lookup {
                Some(_) => TerminationDecision::SendSignal(name),
                None => {
                    let num: String = u32_to_string(pid);
                    let message: String = String::from_str("Process ").concat(num.as_str()).concat(
                        " not found",
                    );
                    TerminationDecision::ReportNotFound(
                        KillResult { success: false, message, required_elevation: false },
                    )
                },
            }
        },
        SafetyCheckResult::SelfTermination => {
            TerminationDecision::Refuse(
                KillResult {
                    success: false,
                    message: String::from_str("Cannot terminate self"),
                    required_elevation: false,
                },
            )
        },
        SafetyCheckResult::ProtectedPid(p) => {
            let num: String = u32_to_string(p);
            let message: String = String::from_str("Cannot terminate protected PID: ").concat(
                num.as_str(),
            );
            TerminationDecision::Refuse(
                KillResult { success: false, message, required_elevation: false },
            )
        },
        SafetyCheckResult::ProtectedProcess(n) => {
            let message: String = String::from_str(
                "Cannot terminate protected system process: ",
            ).concat(n.as_str());
            TerminationDecision::Refuse(
                KillResult { success: false, message, required_elevation: false },
            )
        },
    }
}

/// Shapes the outcome of a sent signal: success reports the termination,
/// failure reports it as a privilege failure with the elevation flag set.
pub fn conclude_attempt(pid: u32, name: &str, delivered: bool) -> (r: KillResult)
    ensures
        r.success == delivered,
        delivered ==> !r.required_elevation && r.message@ == success_msg(pid, name@),
        !delivered ==> r.required_elevation && r.message@ == elevation_msg(pid, name@),
{
    let num: String = u32_to_string(pid);
    if delivered {
        let message: String = String::from_str("Process ").concat(num.as_str()).concat(
            " (",
        ).concat(name).concat(") terminated successfully");
        KillResult { success: true, message, required_elevation: false }
    } else {
        let message: String = String::from_str("Failed to terminate process ").concat(
            num.as_str(),
        ).concat(" (").concat(name).concat("). May require elevated privileges.");
        KillResult { success: false, message, required_elevation: true }
    }
}

/// Whether a caller should escalate to the elevated path: the attempt
/// failed and the failure was a privilege failure.
pub fn needs_elevation(r: &KillResult) -> (b: bool)
    ensures
        b == (!r.success && r.required_elevation),
{
    !r.success && r.required_elevation
}

/// The outcome of a completed elevated termination.
pub fn elevated_success_result(pid: u32) -> (r: KillResult)
    ensures
        r.success,
        r.required_elevation,
        r.message@ == "Process "@ + dec_str(pid as nat) + " terminated with elevated privileges"@,
{
    let num: String = u32_to_string(pid);
    let message: String = String::from_str("Process ").concat(num.as_str()).concat(
        " terminated with elevated privileges",
    );
    KillResult { success: true, message, required_elevation: true }
}

/// The outcome of a failed elevated termination; the error text of the
/// elevation mechanism is carried through.  Failure here is terminal.
pub fn elevation_failed_result(error_text: &str) -> (r: KillResult)
    ensures
        !r.success,
        r.required_elevation,
        r.message@ == "Elevated termination failed: "@ + error_text@,
{
    let message: String = String::from_str("Elevated termination failed: ").concat(error_text);
    KillResult { success: false, message, required_elevation: true }
}

/// Whether a process uid matches the current user's uid.
pub fn uid_matches(uid: &Option<u32>, current_uid: u32) -> (r: bool)
    ensures
        r == (*uid == Some(current_uid)),
{
    match uid {
        Some(u) => *u == current_uid,
        None => false,
    }
}

/// One step of the graceful-then-forced sequence: either the sequence is
/// finished with an outcome, or the caller should wait one poll interval
/// and poll again.
pub enum GracefulStep {
    Finished(KillResult),
    AwaitPoll,
}

/// Decides the first step of the graceful sequence from the outcome of
/// the non-forceful attempt: a failure of any kind — refusal, not-found
/// or privilege failure — is propagated at once, unchanged; a delivered
/// signal starts the liveness poll.
pub fn graceful_step_of(attempt: KillResult) -> (g: GracefulStep)
    ensures
        (g is AwaitPoll) <==> attempt.success,
        g matches GracefulStep::Finished(k) ==> k == attempt,
{
    if attempt.success {
        GracefulStep::AwaitPoll
    } else {
        GracefulStep::Finished(attempt)
    }
}

/// What one poll tick does next, decided from the observed liveness and
/// the clock.
pub enum PollDecision {
    /// The target has exited: report success.
    ReportExited,
    /// The target survived the whole window: force-terminate.
    ForceKill,
    /// The target still lives and the window is open: poll again.
    KeepPolling,
}

/// Decides one poll tick of the graceful sequence: an exited target is
/// reported at once, a survivor is force-terminated exactly at timeout
/// expiry and polled again within the window.
pub fn decide_poll(alive: bool, timed_out: bool) -> (d: PollDecision)
    ensures
        (d is ReportExited) <==> !alive,
        (d is ForceKill) <==> (alive && timed_out),
        (d is KeepPolling) <==> (alive && !timed_out),
{
    if !alive {
        PollDecision::ReportExited
    } else if timed_out {
        PollDecision::ForceKill
    } else {
        PollDecision::KeepPolling
    }
}

/// The outcome for a target that exited within the graceful window.
fn graceful_success_result(pid: u32) -> (r: KillResult)
    ensures
        r.success,
        !r.required_elevation,
        r.message@ == graceful_msg(pid),
{
    let num: String = u32_to_string(pid);
    let message: String = String::from_str("Process ").concat(num.as_str()).concat(
        " terminated gracefully",
    );
    KillResult { success: true, message, required_elevation: false }
}

/// The termination orchestrator: a process-table snapshot plus the safety
/// registry that gates every request.
pub struct ProcessTerminator {
    /// The OS process-table snapshot, refreshed per request.
    pub system: sysinfo::System,
    /// The registry every request is classified against.
    pub registry: SafetyRegistry,
}

impl ProcessTerminator {
    /// A fresh orchestrator over a refreshed process snapshot.
    pub fn new(registry: SafetyRegistry) -> (t: Self)
        ensures
            t.registry == registry,
    {
        let mut system = system_new();
        system_refresh(&mut system);
        ProcessTerminator { system, registry }
    }

    /// Re-reads the process table.
    pub fn refresh(&mut self)
        ensures
            final(self).registry == old(self).registry,
    {
        system_refresh(&mut self.system);
    }

    /// Terminates a process: refresh, resolve the current name, classify,
    /// and only on a Safe verdict for a present target send the graceful
    /// (or, with `force`, the immediate) signal.  A delivery failure is
    /// reported with the elevation flag set; the orchestrator itself never
    /// retries or escalates.
    pub fn terminate(&mut self, pid: u32, force: bool) -> (r: KillResult)
        ensures
            final(self).registry == old(self).registry,
            r.required_elevation ==> !r.success,
            pid == old(self).registry.current_pid ==> !r.success && !r.required_elevation
                && r.message@ == self_refusal_msg(),
            pid != old(self).registry.current_pid && old(self).registry.protected_pids@.contains(
                pid,
            ) ==> !r.success && !r.required_elevation && r.message@ == protected_pid_msg(pid),
            r.success || r.required_elevation ==> pid != old(self).registry.current_pid && !old(
                self,
            ).registry.protected_pids@.contains(pid),
    {
        self.refresh();
        let name_lookup: Option<String> = process_name_of(&self.system, pid);
        let d: TerminationDecision = decide_termination(&self.registry, pid, &name_lookup);
        match d {
            TerminationDecision::Refuse(k) => k,
            TerminationDecision::ReportNotFound(k) => k,
            TerminationDecision::SendSignal(name) => {
                let delivered_opt: Option<bool> = send_kill_signal(&self.system, pid, force);
                let delivered: bool = match delivered_opt {
                    Some(b) => b,
                    None => false,
                };
                conclude_attempt(pid, name.as_str(), delivered)
            },
        }
    }

    /// Starts the graceful-then-forced sequence with a non-forceful
    /// attempt.  Every failure of the attempt — refusal, not-found or
    /// privilege failure — is propagated at once, unchanged; only a
    /// delivered signal moves to the polling phase.
    pub fn terminate_graceful_start(&mut self, pid: u32) -> (g: GracefulStep)
        ensures
            final(self).registry == old(self).registry,
            g matches GracefulStep::Finished(k) ==> !k.success,
            g matches GracefulStep::Finished(k) ==> (k.required_elevation ==> pid != old(
                self,
            ).registry.current_pid && !old(self).registry.protected_pids@.contains(pid)),
            pid == old(self).registry.current_pid ==> (g matches GracefulStep::Finished(k)
                && !k.success && !k.required_elevation && k.message@ == self_refusal_msg()),
            pid != old(self).registry.current_pid && old(self).registry.protected_pids@.contains(
                pid,
            ) ==> (g matches GracefulStep::Finished(k) && !k.success && !k.required_elevation
                && k.message@ == protected_pid_msg(pid)),
            (g is AwaitPoll) ==> pid != old(self).registry.current_pid && !old(
                self,
            ).registry.protected_pids@.contains(pid),
    {
        let r: KillResult = self.terminate(pid, false);
        graceful_step_of(r)
    }

    /// One poll tick of the graceful sequence.  An exited target finishes
    /// the sequence with success; a survivor is polled again within the
    /// window and force-terminated at timeout expiry, under the same
    /// safety gate as any termination.
    pub fn graceful_poll(&mut self, pid: u32, timed_out: bool) -> (g: GracefulStep)
        ensures
            final(self).registry == old(self).registry,
            timed_out ==> g is Finished,
            !timed_out ==> match g {
                GracefulStep::Finished(k) => k.success && !k.required_elevation && k.message@
                    == graceful_msg(pid),
                GracefulStep::AwaitPoll => true,
            },
            g matches GracefulStep::Finished(k) ==> (k.required_elevation ==> !k.success && pid
                != old(self).registry.current_pid && !old(self).registry.protected_pids@.contains(
                pid,
            )),
            timed_out && pid == old(self).registry.current_pid ==> (g matches
                GracefulStep::Finished(k) && !k.required_elevation && ((k.success && k.message@
                == graceful_msg(pid)) || (!k.success && k.message@ == self_refusal_msg()))),
            timed_out && pid != old(self).registry.current_pid && old(
                self,
            ).registry.protected_pids@.contains(pid) ==> (g matches GracefulStep::Finished(k)
                && !k.required_elevation && ((k.success && k.message@ == graceful_msg(pid)) || (
            !k.success && k.message@ == protected_pid_msg(pid)))),
    {
        self.refresh();
        let alive: bool = process_name_of(&self.system, pid).is_some();
        match decide_poll(alive, timed_out) {
            PollDecision::ReportExited => GracefulStep::Finished(graceful_success_result(pid)),
            PollDecision::ForceKill => GracefulStep::Finished(self.terminate(pid, true)),
            PollDecision::KeepPolling => GracefulStep::AwaitPoll,
        }
    }

    /// Whether the process of `pid` is owned by the user with the given
    /// uid.  The lookup reads the snapshot; an unknown owner counts as
    /// not owned.
    pub fn is_owned_by_current_user(&self, pid: u32, current_uid: u32) -> bool {
        let uid: Option<u32> = process_uid_of(&self.system, pid);
        uid_matches(&uid, current_uid)
    }
}

} // verus!
