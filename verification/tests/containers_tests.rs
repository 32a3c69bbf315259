use process_surgeon::containers::ContainerPortIndex;
use process_surgeon::containers::container_action_completed;
use process_surgeon::containers::container_action_failed;
use process_surgeon::models::ContainerAction;
use process_surgeon::models::ContainerInfo;
use process_surgeon::models::ContainerPort;
use process_surgeon::models::ContainerRuntime;
use process_surgeon::models::Protocol;

fn container(id: &str, ports: Vec<u16>) -> ContainerInfo {
    ContainerInfo {
        id: id.to_string(),
        name: format!("{}-name", id),
        image: "img:latest".to_string(),
        status: "Up 2 minutes".to_string(),
        state: "running".to_string(),
        runtime: ContainerRuntime::Docker,
        ports: ports
            .into_iter()
            .map(|p| ContainerPort {
                host_port: p,
                container_port: 80,
                protocol: Protocol::TCP,
                host_ip: Some("0.0.0.0".to_string()),
            })
            .collect(),
    }
}

#[test]
fn lookup_finds_the_publisher() {
    let mut index = ContainerPortIndex::new(true);
    index.refresh(&vec![container("aaa", vec![8080, 9090])]);
    let hit = index.get_container_for_port(8080).expect("8080 should resolve");
    assert_eq!(hit.id, "aaa");
    let hit = index.get_container_for_port(9090).expect("9090 should resolve");
    assert_eq!(hit.id, "aaa");
    assert!(index.get_container_for_port(1000).is_none());
}

#[test]
fn later_publisher_wins() {
    let mut index = ContainerPortIndex::new(true);
    index.refresh(&vec![container("first", vec![8080]), container("second", vec![8080])]);
    let hit = index.get_container_for_port(8080).expect("8080 should resolve");
    assert_eq!(hit.id, "second");
}

#[test]
fn refresh_discards_prior_contents() {
    let mut index = ContainerPortIndex::new(true);
    index.refresh(&vec![container("aaa", vec![1000])]);
    assert!(index.get_container_for_port(1000).is_some());
    index.refresh(&vec![container("bbb", vec![2000])]);
    assert!(index.get_container_for_port(1000).is_none());
    assert!(index.get_container_for_port(2000).is_some());
}

#[test]
fn refresh_twice_yields_identical_contents() {
    let listing = vec![container("aaa", vec![80, 443]), container("bbb", vec![443])];
    let mut once = ContainerPortIndex::new(true);
    once.refresh(&listing);
    let mut twice = ContainerPortIndex::new(true);
    twice.refresh(&listing);
    twice.refresh(&listing);
    for port in [80u16, 443, 8080, 0] {
        let a = once.get_container_for_port(port);
        let b = twice.get_container_for_port(port);
        match (a, b) {
            (None, None) => {}
            (Some(x), Some(y)) => {
                assert_eq!(x.id, y.id);
                assert_eq!(x.name, y.name);
                assert_eq!(x.ports.len(), y.ports.len());
            }
            _ => panic!("refresh was not idempotent at port {}", port),
        }
    }
}

#[test]
fn availability_flag_is_kept() {
    let mut reachable = ContainerPortIndex::new(true);
    assert!(reachable.is_available());
    reachable.refresh(&Vec::new());
    assert!(reachable.is_available());
    let unreachable = ContainerPortIndex::new(false);
    assert!(!unreachable.is_available());
}

#[test]
fn action_outcome_messages() {
    let done = container_action_completed("abc", &ContainerAction::Stop);
    assert!(done.success);
    assert!(!done.required_elevation);
    assert_eq!(done.message, "Container abc action Stop completed");

    let done = container_action_completed("abc", &ContainerAction::Restart);
    assert_eq!(done.message, "Container abc action Restart completed");

    let failed = container_action_failed("socket closed");
    assert!(!failed.success);
    assert!(!failed.required_elevation);
    assert_eq!(failed.message, "Container action failed: socket closed");
}
