use containertyrant::containers::{
    ComposeGenerator, ContainerInfo, ContainerStatus, PortMapping, UtcTime,
};

fn info(name: &str, image: &str, running: bool, ports: Vec<PortMapping>) -> ContainerInfo {
    ContainerInfo {
        id: format!("id-{}", name),
        short_id: format!("id-{}", name),
        name: name.to_string(),
        image: image.to_string(),
        status: if running { ContainerStatus::Running } else { ContainerStatus::Exited },
        state: if running { "running".to_string() } else { "exited".to_string() },
        created: UtcTime { secs: 0, nanos: 0 },
        ports,
        cpu_percent_tenths: 0,
        memory_usage: 0,
        memory_limit: 0,
        memory_percent_tenths: 0,
        network_rx: 0,
        network_tx: 0,
        is_running: running,
    }
}

fn port(host: u16, container: u16, protocol: &str) -> PortMapping {
    PortMapping {
        container_port: container,
        host_port: host,
        protocol: protocol.to_string(),
        host_ip: "0.0.0.0".to_string(),
    }
}

#[test]
fn sanitize_name_replaces_and_lowercases() {
    assert_eq!(ComposeGenerator::sanitize_name("My App!"), "my-app-");
    assert_eq!(ComposeGenerator::sanitize_name("web_1-DB"), "web_1-db");
    assert_eq!(ComposeGenerator::sanitize_name("a.b/c:d"), "a-b-c-d");
    assert_eq!(ComposeGenerator::sanitize_name(""), "");
    assert_eq!(ComposeGenerator::sanitize_name("Ünïcode"), "ünïcode");
}

#[test]
fn port_entry_is_host_container_protocol() {
    assert_eq!(ComposeGenerator::port_entry(&port(8080, 80, "tcp")), "8080:80:tcp");
    assert_eq!(ComposeGenerator::port_entry(&port(0, 5432, "")), "0:5432:");
    assert_eq!(ComposeGenerator::port_entry(&port(65535, 1, "udp")), "65535:1:udp");
}

#[test]
fn service_restart_only_when_running() {
    let s = ComposeGenerator::service(&info("web", "nginx:latest", true, vec![port(8080, 80, "tcp")]));
    assert_eq!(s.image, "nginx:latest");
    assert_eq!(s.container_name.as_deref(), Some("web"));
    assert_eq!(s.ports, vec!["8080:80:tcp".to_string()]);
    assert_eq!(s.restart.as_deref(), Some("unless-stopped"));
    let t = ComposeGenerator::service(&info("db", "postgres", false, vec![]));
    assert_eq!(t.restart, None);
    assert!(t.ports.is_empty());
}

#[test]
fn compose_file_one_service_per_name() {
    let cs = vec![
        info("Web", "nginx", true, vec![]),
        info("db", "postgres", false, vec![port(5432, 5432, "tcp")]),
    ];
    let f = ComposeGenerator::compose_file(&cs);
    assert_eq!(f.version, "3.8");
    assert_eq!(f.services.len(), 2);
    let web = f.services.iter().find(|(k, _)| k == "web").unwrap();
    assert_eq!(web.1.image, "nginx");
    let db = f.services.iter().find(|(k, _)| k == "db").unwrap();
    assert_eq!(db.1.ports, vec!["5432:5432:tcp".to_string()]);
}

#[test]
fn compose_file_later_container_wins() {
    let cs = vec![
        info("app.1", "first", true, vec![]),
        info("other", "x", false, vec![]),
        info("APP-1", "second", false, vec![]),
    ];
    let f = ComposeGenerator::compose_file(&cs);
    assert_eq!(f.services.len(), 2);
    let app = f.services.iter().filter(|(k, _)| k == "app-1").collect::<Vec<_>>();
    assert_eq!(app.len(), 1);
    assert_eq!(app[0].1.image, "second");
    assert_eq!(app[0].1.container_name.as_deref(), Some("APP-1"));
    assert_eq!(app[0].1.restart, None);
}

#[test]
fn compose_file_of_nothing() {
    let f = ComposeGenerator::compose_file(&[]);
    assert_eq!(f.version, "3.8");
    assert!(f.services.is_empty());
}

#[test]
fn sanitize_name_is_idempotent_on_ascii_names() {
    for name in ["My App", "web_1", "a.b/c:d", "UPPER-case", "", "--x__Y!!"] {
        let once = ComposeGenerator::sanitize_name(name);
        assert_eq!(ComposeGenerator::sanitize_name(&once), once);
    }
    assert_eq!(ComposeGenerator::sanitize_name("a.b/c:D"), "a-b-c-d");
}
