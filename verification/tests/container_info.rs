use containertyrant::containers::container_info::{TIMESTAMP_MAX, TIMESTAMP_MIN};
use containertyrant::containers::{
    ContainerInfo, ContainerStats, ContainerStatus, ContainerSummary, NetworkUsage, PortMapping, PortSummary,
    UtcTime,
};

const NOW: UtcTime = UtcTime { secs: 1_750_000_000, nanos: 250_000_000 };

fn summary() -> ContainerSummary {
    ContainerSummary {
        id: Some("0123456789abcdef0123".to_string()),
        names: Some(vec!["/web".to_string(), "/alias".to_string()]),
        image: Some("nginx:1.25".to_string()),
        state: Some("running".to_string()),
        created: Some(1_700_000_000),
        ports: Some(vec![
            PortSummary {
                private_port: 80,
                public_port: Some(8080),
                typ: Some("TCP".to_string()),
                ip: Some("0.0.0.0".to_string()),
            },
            PortSummary { private_port: 53, public_port: None, typ: None, ip: None },
        ]),
        stats: None,
    }
}

#[test]
fn from_summary_fills_every_field() {
    let info = ContainerInfo::from_summary(summary(), NOW);
    assert_eq!(info.id, "0123456789abcdef0123");
    assert_eq!(info.short_id, "0123456789ab");
    assert_eq!(info.name, "web");
    assert_eq!(info.image, "nginx:1.25");
    assert_eq!(info.state, "running");
    assert_eq!(info.status, ContainerStatus::Running);
    assert!(info.is_running);
    assert_eq!(info.created, UtcTime { secs: 1_700_000_000, nanos: 0 });
    assert_eq!(
        info.ports,
        vec![
            PortMapping {
                container_port: 80,
                host_port: 8080,
                protocol: "tcp".to_string(),
                host_ip: "0.0.0.0".to_string(),
            },
            PortMapping {
                container_port: 53,
                host_port: 0,
                protocol: String::new(),
                host_ip: String::new(),
            },
        ]
    );
    assert_eq!(info.cpu_percent_tenths, 0);
    assert_eq!(info.memory_usage, 0);
    assert_eq!(info.network_rx, 0);
}

#[test]
fn from_summary_with_nothing_reported() {
    let raw = ContainerSummary { id: None, names: None, image: None, state: None, created: None, ports: None, stats: None };
    let info = ContainerInfo::from_summary(raw, NOW);
    assert_eq!(info.id, "");
    assert_eq!(info.short_id, "");
    assert_eq!(info.name, "");
    assert_eq!(info.status, ContainerStatus::Unknown);
    assert!(!info.is_running);
    assert_eq!(info.created, UtcTime { secs: 0, nanos: 0 });
    assert!(info.ports.is_empty());
}

#[test]
fn name_falls_back_to_short_id() {
    let mut raw = summary();
    raw.names = Some(vec![]);
    let info = ContainerInfo::from_summary(raw, NOW);
    assert_eq!(info.name, "0123456789ab");
    let mut raw = summary();
    raw.names = Some(vec!["///x/y".to_string()]);
    assert_eq!(ContainerInfo::from_summary(raw, NOW).name, "x/y");
}

#[test]
fn short_id_of_short_ids_is_the_id() {
    let mut raw = summary();
    raw.id = Some("abcdef012345".to_string());
    assert_eq!(ContainerInfo::from_summary(raw, NOW).short_id, "abcdef012345");
    // Two ASCII bytes and three three-byte euro signs make eleven bytes, so
    // the twelfth byte ends the `x`.
    let mut raw = summary();
    raw.id = Some("ab€€€xyzw".to_string());
    assert_eq!(ContainerInfo::from_summary(raw, NOW).short_id, "ab€€€x");
}

#[test]
fn exited_state_is_not_running() {
    let mut raw = summary();
    raw.state = Some("Exited".to_string());
    let info = ContainerInfo::from_summary(raw, NOW);
    assert_eq!(info.status, ContainerStatus::Exited);
    assert_eq!(info.state, "Exited");
    assert!(!info.is_running);
}

#[test]
fn created_times_that_chrono_can_hold_are_kept() {
    for t in [TIMESTAMP_MIN, -1, 0, TIMESTAMP_MAX] {
        let mut raw = summary();
        raw.created = Some(t);
        assert_eq!(ContainerInfo::from_summary(raw, NOW).created, UtcTime { secs: t, nanos: 0 });
        assert!(chrono::DateTime::from_timestamp(t, 0).is_some());
    }
}

#[test]
fn created_times_out_of_range_become_now() {
    for t in [TIMESTAMP_MIN - 1, TIMESTAMP_MAX + 1, i64::MIN, i64::MAX] {
        assert!(chrono::DateTime::from_timestamp(t, 0).is_none());
        let mut raw = summary();
        raw.created = Some(t);
        assert_eq!(ContainerInfo::from_summary(raw, NOW).created, NOW);
        let mut raw = summary();
        raw.created = Some(t);
        let later = UtcTime { secs: 12345, nanos: 999_999_999 };
        assert_eq!(ContainerInfo::from_summary(raw, later).created, later);
    }
}

#[test]
fn from_summaries_keeps_order() {
    let mut a = summary();
    a.names = Some(vec!["/a".to_string()]);
    let mut b = summary();
    b.names = Some(vec!["/b".to_string()]);
    b.state = Some("paused".to_string());
    let infos = ContainerInfo::from_summaries(vec![a, b], NOW);
    assert_eq!(infos.len(), 2);
    assert_eq!(infos[0].name, "a");
    assert_eq!(infos[1].name, "b");
    assert_eq!(infos[1].status, ContainerStatus::Paused);
    assert!(ContainerInfo::from_summaries(vec![], NOW).is_empty());
}

#[test]
fn from_summary_takes_metrics_from_stats() {
    let mut raw = summary();
    raw.stats = Some(ContainerStats {
        cpu_total_usage: 3_000,
        precpu_total_usage: 1_000,
        system_cpu_usage: 20_000,
        presystem_cpu_usage: 10_000,
        online_cpus: 4,
        percpu_count: 0,
        memory_usage: 256 * 1024 * 1024,
        memory_limit: 1024 * 1024 * 1024,
        networks: vec![NetworkUsage { rx_bytes: 100, tx_bytes: 7 }, NetworkUsage { rx_bytes: 23, tx_bytes: 3 }],
    });
    let info = ContainerInfo::from_summary(raw, NOW);
    // 2000 / 10000 of the host's CPU time on 4 CPUs: 80.0 percent.
    assert_eq!(info.cpu_percent_tenths, 800);
    assert_eq!(info.memory_usage, 256 * 1024 * 1024);
    assert_eq!(info.memory_limit, 1024 * 1024 * 1024);
    assert_eq!(info.memory_percent_tenths, 250);
    assert_eq!(info.network_rx, 123);
    assert_eq!(info.network_tx, 10);
}

#[test]
fn from_summary_without_stats_has_zero_metrics() {
    let info = ContainerInfo::from_summary(summary(), NOW);
    assert_eq!(info.cpu_percent_tenths, 0);
    assert_eq!(info.memory_usage, 0);
    assert_eq!(info.memory_limit, 0);
    assert_eq!(info.memory_percent_tenths, 0);
    assert_eq!(info.network_rx, 0);
    assert_eq!(info.network_tx, 0);
}
