//! Core data types of the engine: socket records, process metadata,
//! container metadata, the unified process node, and request/response shapes.

use vstd::prelude::*;
use crate::strutil::dec_str;
use crate::strutil::u32_to_string;

verus! {

/// Network protocol of a socket.
#[derive(Debug, Clone, Copy, PartialEq, Eq, Structural)]
pub enum Protocol {
    TCP,
    UDP,
}

/// Connection state of a socket.  UDP sockets carry `Listening`
/// as their listening-equivalent sentinel.
#[derive(Debug, Clone, Copy, PartialEq, Eq, Structural)]
pub enum SocketState {
    Listening,
    Established,
    SynSent,
    SynReceived,
    FinWait1,
    FinWait2,
    CloseWait,
    Closing,
    LastAck,
    TimeWait,
    Closed,
    Unknown,
}

/// One row of the OS connection table, as handed in by the socket source.
#[derive(Debug, Clone)]
pub struct PortInfo {
    pub protocol: Protocol,
    pub local_address: String,
    pub local_port: u16,
    pub remote_address: Option<String>,
    pub remote_port: Option<u16>,
    pub state: SocketState,
    pub pids: Vec<u32>,
}

/// Process metadata, as handed in by the process source.
#[derive(Debug, Clone)]
pub struct ProcessInfo {
    pub pid: u32,
    pub name: String,
    pub exe_path: Option<String>,
    pub command_line: Option<String>,
    pub user: String,
    pub memory_usage: u64,
    /// CPU usage in hundredths of a percent.
    pub cpu_usage: u32,
    /// Seconds since the Unix epoch.
    pub start_time: Option<i64>,
    pub parent_pid: Option<u32>,
}

/// Which container runtime owns a container.
#[derive(Debug, Clone, Copy, PartialEq, Eq, Structural)]
pub enum ContainerRuntime {
    Docker,
    Podman,
    Containerd,
    Unknown,
}

/// Container metadata with its host-port bindings.
#[derive(Debug, Clone)]
pub struct ContainerInfo {
    pub id: String,
    pub name: String,
    pub image: String,
    pub status: String,
    pub state: String,
    pub runtime: ContainerRuntime,
    pub ports: Vec<ContainerPort>,
}

/// One host-port binding of a container.
#[derive(Debug, Clone)]
pub struct ContainerPort {
    pub host_port: u16,
    pub container_port: u16,
    pub protocol: Protocol,
    pub host_ip: Option<String>,
}

/// The mathematical value of one port binding.
#[verifier::ext_equal]
pub struct ContainerPortV {
    pub host_port: u16,
    pub container_port: u16,
    pub protocol: Protocol,
    pub host_ip: Option<Seq<char>>,
}

impl View for ContainerPort {
    type V = ContainerPortV;

    open spec fn view(&self) -> ContainerPortV {
        ContainerPortV {
            host_port: self.host_port,
            container_port: self.container_port,
            protocol: self.protocol,
            host_ip: match self.host_ip {
                Some(s) => Some(s@),
                None => None,
            },
        }
    }
}

/// The mathematical value of a container record.
#[verifier::ext_equal]
pub struct ContainerInfoV {
    pub id: Seq<char>,
    pub name: Seq<char>,
    pub image: Seq<char>,
    pub status: Seq<char>,
    pub state: Seq<char>,
    pub runtime: ContainerRuntime,
    pub ports: Seq<ContainerPortV>,
}

impl View for ContainerInfo {
    type V = ContainerInfoV;

    open spec fn view(&self) -> ContainerInfoV {
        ContainerInfoV {
            id: self.id@,
            name: self.name@,
            image: self.image@,
            status: self.status@,
            state: self.state@,
            runtime: self.runtime,
            ports: self.ports@.map_values(|p: ContainerPort| p@),
        }
    }
}

/// The unified, deduplicated view of one process plus its ports,
/// container (if any) and safety flag.
#[derive(Debug, Clone)]
pub struct ProcessNode {
    /// Identity string derived from (pid, first port); used only for
    /// client-side list diffing.
    pub id: String,
    pub pid: u32,
    pub name: String,
    pub exe_path: Option<String>,
    pub command_line: Option<String>,
    pub user: String,
    pub memory_usage: u64,
    /// CPU usage in hundredths of a percent.
    pub cpu_usage: u32,
    /// Seconds since the Unix epoch.
    pub start_time: Option<i64>,
    pub ports: Vec<PortEntry>,
    pub is_docker_proxy: bool,
    pub container: Option<ContainerInfo>,
    pub is_protected: bool,
}

/// One deduplicated port record attached to a process node.
#[derive(Debug, Clone)]
pub struct PortEntry {
    pub protocol: Protocol,
    pub local_address: String,
    pub local_port: u16,
    pub remote_address: Option<String>,
    pub remote_port: Option<u16>,
    pub state: SocketState,
}

/// A termination request.
#[derive(Debug, Clone)]
pub struct KillRequest {
    pub pid: u32,
    pub force: bool,
}

/// Outcome of a termination attempt.  `required_elevation` signals that
/// the failure was a privilege failure and an elevation retry is in order.
#[derive(Debug, Clone)]
pub struct KillResult {
    pub success: bool,
    pub message: String,
    pub required_elevation: bool,
}

/// A container lifecycle request.
#[derive(Debug, Clone)]
pub struct ContainerActionRequest {
    pub container_id: String,
    pub action: ContainerAction,
}

/// The container lifecycle actions the engine supports.
#[derive(Debug, Clone, Copy, PartialEq, Eq, Structural)]
pub enum ContainerAction {
    Stop,
    Kill,
    Remove,
    Restart,
}

/// The full answer to a query-all request.
#[derive(Debug, Clone)]
pub struct AppState {
    pub processes: Vec<ProcessNode>,
    pub total_connections: usize,
    pub listening_ports: usize,
    pub docker_available: bool,
    /// Seconds since the Unix epoch.
    pub last_updated: i64,
}

/// A structured request-level error (scan errors and the like).
#[derive(Debug, Clone)]
pub struct AppError {
    pub code: String,
    pub message: String,
    pub details: Option<String>,
}

impl AppError {
    /// An error with a code and a message and no details.
    pub fn new(code: &str, message: &str) -> (r: Self)
        ensures
            r.code@ == code@,
            r.message@ == message@,
            r.details is None,
    {
        Self { code: code.to_owned(), message: message.to_owned(), details: None }
    }

    /// An error with a code, a message and details.
    pub fn with_details(code: &str, message: &str, details: &str) -> (r: Self)
        ensures
            r.code@ == code@,
            r.message@ == message@,
            r.details matches Some(d) && d@ == details@,
    {
        Self {
            code: code.to_owned(),
            message: message.to_owned(),
            details: Some(details.to_owned()),
        }
    }

    /// The refusal error for an attempt on a protected process.
    pub fn safety_violation(process_name: &str) -> (r: Self)
        ensures
            r.code@ == "SAFETY_VIOLATION"@,
            r.message@ == "Operation Forbidden: Critical System Process"@,
            r.details matches Some(d) && d@ == "Cannot terminate protected process: "@
                + process_name@,
    {
        let details: String = String::from_str("Cannot terminate protected process: ").concat(
            process_name,
        );
        Self::with_details(
            "SAFETY_VIOLATION",
            "Operation Forbidden: Critical System Process",
            details.as_str(),
        )
    }

    /// The error for a privilege failure on a pid.
    pub fn access_denied(pid: u32) -> (r: Self)
        ensures
            r.code@ == "ACCESS_DENIED"@,
            r.message@ == "Insufficient privileges"@,
            r.details matches Some(d) && d@ == "Elevated privileges required to terminate PID "@
                + dec_str(pid as nat),
    {
        let num: String = u32_to_string(pid);
        let details: String = String::from_str(
            "Elevated privileges required to terminate PID ",
        ).concat(num.as_str());
        Self::with_details("ACCESS_DENIED", "Insufficient privileges", details.as_str())
    }

    /// The error for a process that is no longer present.
    pub fn process_not_found(pid: u32) -> (r: Self)
        ensures
            r.code@ == "NOT_FOUND"@,
            r.message@ == "Process "@ + dec_str(pid as nat) + " not found"@,
            r.details is None,
    {
        let num: String = u32_to_string(pid);
        let message: String = String::from_str("Process ").concat(num.as_str()).concat(
            " not found",
        );
        Self::new("NOT_FOUND", message.as_str())
    }
}

} // verus!
