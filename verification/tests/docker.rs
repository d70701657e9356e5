use via::docker::{docker_run_command, is_local, primary_addr, service_from_node};
use via::model::Node;
use via::process::{shell_escape_arg, shell_escape_env};

fn node(last_seen_at: Option<i64>, addresses: Vec<String>) -> Node {
    Node {
        id: "node-1".to_string(),
        slug: "rig".to_string(),
        display_name: "rig".to_string(),
        addresses,
        daemon_addr: "rig:47819".to_string(),
        iroh_addr: None,
        public: false,
        created_at: 1,
        last_seen_at,
    }
}

#[test]
fn docker_run_command_maps_ports_and_env() {
    let cmd = docker_run_command(
        "nginx:latest",
        "via-web",
        Some("8080"),
        &vec![("API_KEY".to_string(), "value with spaces".to_string())],
        &vec![],
    );
    assert_eq!(
        cmd,
        "docker run -d --name via-web -p 8080:8080 -e API_KEY='value with spaces' nginx:latest"
    );

    let cmd = docker_run_command("nginx:latest", "via-web", Some("18080:80"), &vec![], &vec![]);
    assert_eq!(cmd, "docker run -d --name via-web -p 18080:80 nginx:latest");
}

#[test]
fn shell_escape_env_quotes_single_quotes() {
    assert_eq!(shell_escape_env("TOKEN", "a'b"), "TOKEN='a'\\''b'");
    assert_eq!(shell_escape_arg("a b"), "'a b'");
}

#[test]
fn docker_run_command_appends_command_args() {
    let cmd = docker_run_command(
        "alpine:latest",
        "via-job",
        None,
        &vec![],
        &vec!["sh".to_string(), "-lc".to_string(), "echo 'hi'".to_string()],
    );
    assert_eq!(
        cmd,
        "docker run -d --name via-job alpine:latest 'sh' '-lc' 'echo '\\''hi'\\'''"
    );
}

#[test]
fn node_helpers_distinguish_local_and_remote() {
    let local = node(Some(1), vec!["localhost".to_string()]);
    let remote = node(None, vec!["rig".to_string()]);
    assert!(is_local(&local));
    assert!(!is_local(&remote));
    assert_eq!(primary_addr(&remote).unwrap(), "rig");
    assert!(primary_addr(&node(None, vec![])).is_err());
}

#[test]
fn service_from_node_uses_container_name_and_node_metadata() {
    let node = node(None, vec!["rig".to_string()]);
    let service = service_from_node(
        &node,
        "nginx:latest",
        "via-web",
        Some("18080:80".to_string()),
        &vec![],
        7,
    );
    assert_eq!(service.name, "web");
    assert_eq!(service.node_id, "node-1");
    assert_eq!(service.node_slug, "rig");
    assert_eq!(service.node_addr, "rig:47819");
    assert_eq!(service.port.as_deref(), Some("18080:80"));
    assert!(service.command.is_empty());
}
