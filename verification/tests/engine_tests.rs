use process_surgeon::containers::ContainerPortIndex;
use process_surgeon::engine::collect_pids;
use process_surgeon::engine::correlate;
use process_surgeon::engine::correlate_now;
use process_surgeon::engine::dedup_ports_exec;
use process_surgeon::engine::find_port_nodes;
use process_surgeon::engine::find_port_users;
use process_surgeon::engine::is_container_proxy_name;
use process_surgeon::engine::scan_listening_ports;
use process_surgeon::engine::scan_ports;
use process_surgeon::models::ContainerInfo;
use process_surgeon::models::ContainerPort;
use process_surgeon::models::ContainerRuntime;
use process_surgeon::models::PortInfo;
use process_surgeon::models::Protocol;
use process_surgeon::models::ProcessInfo;
use process_surgeon::models::SocketState;
use process_surgeon::safety::SafetyRegistry;

fn record(
    protocol: Protocol,
    addr: &str,
    port: u16,
    state: SocketState,
    pids: Vec<u32>,
) -> PortInfo {
    PortInfo {
        protocol,
        local_address: addr.to_string(),
        local_port: port,
        remote_address: None,
        remote_port: None,
        state,
        pids,
    }
}

fn info(pid: u32, name: &str) -> ProcessInfo {
    ProcessInfo {
        pid,
        name: name.to_string(),
        exe_path: Some(format!("/usr/bin/{}", name)),
        command_line: Some(name.to_string()),
        user: "alice".to_string(),
        memory_usage: 4096,
        cpu_usage: 150,
        start_time: Some(1700000000),
        parent_pid: Some(1),
    }
}

#[test]
fn wildcard_and_loopback_dedup_to_one_entry() {
    let sockets = vec![
        record(Protocol::TCP, "0.0.0.0", 8080, SocketState::Listening, vec![100]),
        record(Protocol::TCP, "127.0.0.1", 8080, SocketState::Listening, vec![100]),
    ];
    let procs: Vec<ProcessInfo> = Vec::new();
    let index = ContainerPortIndex::new(false);
    let reg = SafetyRegistry::linux(7777);
    let st = correlate(&sockets, &procs, &index, &reg, 5);
    assert_eq!(st.processes.len(), 1);
    let node = &st.processes[0];
    assert_eq!(node.pid, 100);
    assert_eq!(node.ports.len(), 1);
    assert_eq!(node.ports[0].local_port, 8080);
    assert_eq!(st.total_connections, 2);
    assert_eq!(st.listening_ports, 1);
    assert_eq!(st.last_updated, 5);
    assert!(!st.docker_available);
}

#[test]
fn distinct_owners_get_their_own_nodes() {
    let sockets = vec![
        record(Protocol::TCP, "0.0.0.0", 8080, SocketState::Listening, vec![100]),
        record(Protocol::TCP, "0.0.0.0", 8080, SocketState::Listening, vec![200]),
    ];
    let procs: Vec<ProcessInfo> = Vec::new();
    let index = ContainerPortIndex::new(false);
    let reg = SafetyRegistry::linux(7777);
    let st = correlate(&sockets, &procs, &index, &reg, 0);
    assert_eq!(st.processes.len(), 2);
    assert_eq!(st.processes[0].pid, 100);
    assert_eq!(st.processes[1].pid, 200);
    assert_eq!(st.processes[0].ports.len(), 1);
    assert_eq!(st.processes[1].ports.len(), 1);
}

#[test]
fn unknown_process_still_yields_a_node() {
    let sockets = vec![record(
        Protocol::UDP,
        "0.0.0.0",
        5353,
        SocketState::Listening,
        vec![999],
    )];
    let procs: Vec<ProcessInfo> = Vec::new();
    let index = ContainerPortIndex::new(false);
    let reg = SafetyRegistry::linux(7777);
    let st = correlate(&sockets, &procs, &index, &reg, 0);
    assert_eq!(st.processes.len(), 1);
    let node = &st.processes[0];
    assert_eq!(node.pid, 999);
    assert_eq!(node.name, "Unknown");
    assert_eq!(node.user, "Unknown");
    assert_eq!(node.memory_usage, 0);
    assert_eq!(node.cpu_usage, 0);
    assert!(node.exe_path.is_none());
    assert!(node.start_time.is_none());
    assert!(!node.is_docker_proxy);
}

#[test]
fn resolved_metadata_is_copied_onto_the_node() {
    let sockets = vec![record(
        Protocol::TCP,
        "0.0.0.0",
        80,
        SocketState::Listening,
        vec![321],
    )];
    let procs = vec![info(321, "nginx")];
    let index = ContainerPortIndex::new(false);
    let reg = SafetyRegistry::linux(7777);
    let st = correlate(&sockets, &procs, &index, &reg, 0);
    let node = &st.processes[0];
    assert_eq!(node.name, "nginx");
    assert_eq!(node.user, "alice");
    assert_eq!(node.memory_usage, 4096);
    assert_eq!(node.cpu_usage, 150);
    assert_eq!(node.exe_path.as_deref(), Some("/usr/bin/nginx"));
    assert_eq!(node.start_time, Some(1700000000));
    assert!(!node.is_protected);
    assert_eq!(node.id, "321-80");
}

#[test]
fn protected_name_marks_the_node() {
    let sockets = vec![record(
        Protocol::TCP,
        "0.0.0.0",
        80,
        SocketState::Listening,
        vec![321],
    )];
    let procs = vec![info(321, "systemd")];
    let index = ContainerPortIndex::new(false);
    let reg = SafetyRegistry::linux(7777);
    let st = correlate(&sockets, &procs, &index, &reg, 0);
    assert!(st.processes[0].is_protected);
}

#[test]
fn specific_addresses_are_not_merged() {
    let sockets = vec![
        record(Protocol::TCP, "0.0.0.0", 8080, SocketState::Listening, vec![100]),
        record(Protocol::TCP, "192.168.1.5", 8080, SocketState::Listening, vec![100]),
        record(Protocol::UDP, "0.0.0.0", 8080, SocketState::Listening, vec![100]),
    ];
    let procs: Vec<ProcessInfo> = Vec::new();
    let index = ContainerPortIndex::new(false);
    let reg = SafetyRegistry::linux(7777);
    let st = correlate(&sockets, &procs, &index, &reg, 0);
    assert_eq!(st.processes.len(), 1);
    assert_eq!(st.processes[0].ports.len(), 3);
}

#[test]
fn dedup_keeps_the_first_record_of_a_key() {
    let sockets = vec![
        record(Protocol::TCP, "::", 443, SocketState::Listening, vec![50]),
        record(Protocol::TCP, "::1", 443, SocketState::Listening, vec![50]),
    ];
    let ports = dedup_ports_exec(&sockets, 50);
    assert_eq!(ports.len(), 1);
    assert_eq!(ports[0].local_address, "::");
}

#[test]
fn collect_pids_is_sorted_and_unique() {
    let sockets = vec![
        record(Protocol::TCP, "0.0.0.0", 1, SocketState::Listening, vec![300, 100]),
        record(Protocol::TCP, "0.0.0.0", 2, SocketState::Listening, vec![100, 200]),
    ];
    let pids = collect_pids(&sockets);
    assert_eq!(pids, vec![100, 200, 300]);
}

#[test]
fn scan_ports_filters_and_sorts() {
    let records = vec![
        record(Protocol::TCP, "0.0.0.0", 9000, SocketState::Listening, vec![3]),
        record(Protocol::TCP, "0.0.0.0", 80, SocketState::Established, vec![1]),
        record(Protocol::TCP, "0.0.0.0", 8080, SocketState::Listening, Vec::new()),
        record(Protocol::UDP, "0.0.0.0", 53, SocketState::Listening, vec![2]),
    ];
    let arranged = scan_ports(records);
    assert_eq!(arranged.len(), 3);
    assert_eq!(arranged[0].local_port, 53);
    assert_eq!(arranged[1].local_port, 80);
    assert_eq!(arranged[2].local_port, 9000);
}

#[test]
fn scan_listening_ports_keeps_only_listeners() {
    let records = vec![
        record(Protocol::TCP, "0.0.0.0", 9000, SocketState::Listening, vec![3]),
        record(Protocol::TCP, "0.0.0.0", 80, SocketState::Established, vec![1]),
    ];
    let listening = scan_listening_ports(records);
    assert_eq!(listening.len(), 1);
    assert_eq!(listening[0].local_port, 9000);
}

#[test]
fn find_port_users_keeps_only_the_port() {
    let records = vec![
        record(Protocol::TCP, "0.0.0.0", 9000, SocketState::Listening, vec![3]),
        record(Protocol::TCP, "0.0.0.0", 80, SocketState::Listening, vec![1]),
        record(Protocol::UDP, "0.0.0.0", 80, SocketState::Listening, vec![2]),
    ];
    let users = find_port_users(records, 80);
    assert_eq!(users.len(), 2);
    assert!(users.iter().all(|r| r.local_port == 80));
}

#[test]
fn find_port_builds_one_node_per_owner() {
    let matching = vec![record(
        Protocol::TCP,
        "0.0.0.0",
        8080,
        SocketState::Listening,
        vec![100, 200],
    )];
    let procs = vec![info(100, "nginx")];
    let index = ContainerPortIndex::new(false);
    let reg = SafetyRegistry::linux(7777);
    let nodes = find_port_nodes(&matching, &procs, &index, &reg);
    assert_eq!(nodes.len(), 2);
    assert_eq!(nodes[0].pid, 100);
    assert_eq!(nodes[0].name, "nginx");
    assert_eq!(nodes[0].id, "100-8080");
    assert_eq!(nodes[1].pid, 200);
    assert_eq!(nodes[1].name, "Unknown");
    assert_eq!(nodes[1].ports.len(), 1);
}

#[test]
fn container_proxy_vocabulary() {
    assert!(is_container_proxy_name("dockerd"));
    assert!(is_container_proxy_name("DOCKERD"));
    assert!(is_container_proxy_name("com.docker.backend"));
    assert!(is_container_proxy_name("vpnkit"));
    assert!(is_container_proxy_name("containerd-shim-runc-v2"));
    assert!(!is_container_proxy_name("nginx"));
    assert!(!is_container_proxy_name("vpnkit2"));
}

#[test]
fn container_proxy_gets_its_container_attached() {
    let sockets = vec![record(
        Protocol::TCP,
        "0.0.0.0",
        8080,
        SocketState::Listening,
        vec![700],
    )];
    let procs = vec![info(700, "com.docker.backend")];
    let mut index = ContainerPortIndex::new(true);
    index.refresh(&vec![ContainerInfo {
        id: "cafe".to_string(),
        name: "web".to_string(),
        image: "nginx:latest".to_string(),
        status: "Up".to_string(),
        state: "running".to_string(),
        runtime: ContainerRuntime::Docker,
        ports: vec![ContainerPort {
            host_port: 8080,
            container_port: 80,
            protocol: Protocol::TCP,
            host_ip: None,
        }],
    }]);
    let reg = SafetyRegistry::linux(7777);
    let st = correlate(&sockets, &procs, &index, &reg, 0);
    let node = &st.processes[0];
    assert!(node.is_docker_proxy);
    let container = node.container.as_ref().expect("the proxy's port should resolve");
    assert_eq!(container.id, "cafe");
    assert_eq!(container.name, "web");

    // The same scan against an unreachable container source attaches
    // nothing, and a non-proxy name never resolves a container.
    let unavailable = ContainerPortIndex::new(false);
    let st = correlate(&sockets, &procs, &unavailable, &reg, 0);
    assert!(st.processes[0].container.is_none());
    let procs = vec![info(700, "nginx")];
    let st = correlate(&sockets, &procs, &index, &reg, 0);
    assert!(!st.processes[0].is_docker_proxy);
    assert!(st.processes[0].container.is_none());
}

#[test]
fn correlate_now_stamps_the_snapshot() {
    let sockets = vec![record(
        Protocol::TCP,
        "0.0.0.0",
        8080,
        SocketState::Listening,
        vec![100],
    )];
    let procs = vec![info(100, "nginx")];
    let index = ContainerPortIndex::new(false);
    let reg = SafetyRegistry::linux(7777);
    let st = correlate_now(&sockets, &procs, &index, &reg);
    assert_eq!(st.processes.len(), 1);
    assert_eq!(st.processes[0].pid, 100);
    assert_eq!(st.total_connections, 1);
    // This machine's clock is past the epoch; the reading never aborts.
    assert!(st.last_updated > 0);
}

#[test]
fn empty_scan_gives_empty_result() {
    let sockets: Vec<PortInfo> = Vec::new();
    let procs: Vec<ProcessInfo> = Vec::new();
    let index = ContainerPortIndex::new(false);
    let reg = SafetyRegistry::linux(7777);
    let st = correlate(&sockets, &procs, &index, &reg, 0);
    assert!(st.processes.is_empty());
    assert_eq!(st.total_connections, 0);
    assert_eq!(st.listening_ports, 0);
}
