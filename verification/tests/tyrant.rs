use containertyrant::config::{AppConfig, ConfigManager};
use containertyrant::containers::{ContainerInfo, ContainerStatus, UtcTime};
use containertyrant::tyrant::{ContainerTyrant, Effect, ListContent, LogsContent, Message, Screen};

fn info(id: &str, name: &str, image: &str) -> ContainerInfo {
    ContainerInfo {
        id: id.to_string(),
        short_id: id.to_string(),
        name: name.to_string(),
        image: image.to_string(),
        status: ContainerStatus::Running,
        state: "running".to_string(),
        created: UtcTime { secs: 0, nanos: 0 },
        ports: vec![],
        cpu_percent_tenths: 0,
        memory_usage: 0,
        memory_limit: 0,
        memory_percent_tenths: 0,
        network_rx: 0,
        network_tx: 0,
        is_running: true,
    }
}

fn loaded() -> ContainerTyrant {
    let (mut t, e) = ContainerTyrant::new(ConfigManager::new_in(None), None);
    assert_eq!(e, Effect::ListContainers);
    let cs = vec![info("1", "Web-Frontend", "nginx:latest"), info("2", "db", "Postgres:16"), info("3", "cache", "redis")];
    assert_eq!(t.update(Message::ContainersLoaded(Ok(cs))), Effect::Nothing);
    t
}

#[test]
fn new_state_is_loading() {
    let (t, e) = ContainerTyrant::new(ConfigManager::new_in(None), None);
    assert_eq!(e, Effect::ListContainers);
    assert!(t.loading());
    assert!(t.containers().is_empty());
    assert!(t.error().is_none());
    assert_eq!(t.search_query(), "");
    assert_eq!(t.screen(), &Screen::ContainerList);
    assert_eq!(t.config(), &AppConfig::default());
    assert_eq!(t.refresh_interval_ms(), 2000);
    assert_eq!(t.title(), "ContainerTyrant");
    assert_eq!(t.list_content(), ListContent::Loading);
}

#[test]
fn new_state_keeps_stored_config() {
    let stored = AppConfig { theme: "light".to_string(), refresh_interval_ms: 500, show_system_containers: true };
    let (t, _) = ContainerTyrant::new(ConfigManager::new_in(None), Some(stored.clone()));
    assert_eq!(t.config(), &stored);
    assert_eq!(t.refresh_interval_ms(), 500);
}

#[test]
fn refresh_then_loaded() {
    let mut t = loaded();
    assert_eq!(t.update(Message::Refresh), Effect::ListContainers);
    assert!(t.loading());
    assert_eq!(t.update(Message::Tick), Effect::ListContainers);
    assert_eq!(t.update(Message::ContainersLoaded(Ok(vec![info("9", "solo", "busybox")]))), Effect::Nothing);
    assert!(!t.loading());
    assert_eq!(t.containers().len(), 1);
    assert_eq!(t.list_content(), ListContent::Matches(vec![0]));
}

#[test]
fn load_failure_is_shown_and_kept_containers() {
    let mut t = loaded();
    t.update(Message::Refresh);
    assert_eq!(t.update(Message::ContainersLoaded(Err("daemon down".to_string()))), Effect::Nothing);
    assert!(!t.loading());
    assert_eq!(t.error().map(|s| s.as_str()), Some("daemon down"));
    assert_eq!(t.containers().len(), 3);
    assert_eq!(t.list_content(), ListContent::Failed("daemon down".to_string()));
    assert_eq!(t.update(Message::BackToList), Effect::Nothing);
    assert!(t.error().is_none());
    assert_eq!(t.screen(), &Screen::ContainerList);
}

#[test]
fn container_actions_ask_docker() {
    let mut t = loaded();
    assert_eq!(t.update(Message::StartContainer("1".to_string())), Effect::StartContainer("1".to_string()));
    assert_eq!(t.update(Message::StopContainer("2".to_string())), Effect::StopContainer("2".to_string()));
    assert_eq!(t.update(Message::RestartContainer("3".to_string())), Effect::RestartContainer("3".to_string()));
    assert!(t.error().is_none());
    assert_eq!(t.update(Message::ContainerAction(Ok(()))), Effect::Nothing);
    assert!(t.error().is_none());
    assert_eq!(t.update(Message::ContainerAction(Err("no such container".to_string()))), Effect::Nothing);
    assert_eq!(t.error().map(|s| s.as_str()), Some("no such container"));
}

#[test]
fn search_is_case_insensitive_on_name_and_image() {
    let mut t = loaded();
    assert_eq!(t.list_content(), ListContent::Matches(vec![0, 1, 2]));
    t.update(Message::SearchChanged("FRONT".to_string()));
    assert_eq!(t.search_query(), "FRONT");
    assert_eq!(t.list_content(), ListContent::Matches(vec![0]));
    t.update(Message::SearchChanged("postgres".to_string()));
    assert_eq!(t.list_content(), ListContent::Matches(vec![1]));
    t.update(Message::SearchChanged("e".to_string()));
    assert_eq!(t.list_content(), ListContent::Matches(vec![0, 1, 2]));
    t.update(Message::SearchChanged("mysql".to_string()));
    assert_eq!(t.list_content(), ListContent::NoMatches);
    t.update(Message::SearchChanged(String::new()));
    assert_eq!(t.list_content(), ListContent::Matches(vec![0, 1, 2]));
}

#[test]
fn empty_list_shows_no_matches() {
    let (mut t, _) = ContainerTyrant::new(ConfigManager::new_in(None), None);
    t.update(Message::ContainersLoaded(Ok(vec![])));
    assert_eq!(t.list_content(), ListContent::NoMatches);
}

#[test]
fn view_logs_then_logs_arrive() {
    let mut t = loaded();
    assert_eq!(t.logs_content(), None);
    assert_eq!(
        t.update(Message::ViewLogs("2".to_string())),
        Effect::FetchLogs { container_id: "2".to_string(), tail_lines: 500 }
    );
    assert_eq!(
        t.screen(),
        &Screen::Logs {
            container_id: "2".to_string(),
            container_name: "db".to_string(),
            logs: String::new(),
            loading: true,
        }
    );
    assert_eq!(t.logs_content(), Some(LogsContent::Loading));
    t.update(Message::LogsLoaded(Ok(("2".to_string(), "line 1\nline 2\n".to_string()))));
    assert_eq!(
        t.screen(),
        &Screen::Logs {
            container_id: "2".to_string(),
            container_name: String::new(),
            logs: "line 1\nline 2\n".to_string(),
            loading: false,
        }
    );
    assert_eq!(t.logs_content(), Some(LogsContent::Text("line 1\nline 2\n".to_string())));
}

#[test]
fn view_logs_of_unknown_container_uses_id_as_name() {
    let mut t = loaded();
    t.update(Message::ViewLogs("zzz".to_string()));
    match t.screen() {
        Screen::Logs { container_name, .. } => assert_eq!(container_name, "zzz"),
        _ => panic!("expected the logs screen"),
    }
    t.update(Message::LogsLoaded(Ok(("zzz".to_string(), String::new()))));
    assert_eq!(t.logs_content(), Some(LogsContent::Empty));
}

#[test]
fn stale_logs_are_ignored() {
    let mut t = loaded();
    t.update(Message::ViewLogs("1".to_string()));
    t.update(Message::LogsLoaded(Ok(("2".to_string(), "other".to_string()))));
    assert_eq!(t.logs_content(), Some(LogsContent::Loading));
    t.update(Message::BackToList);
    t.update(Message::LogsLoaded(Ok(("1".to_string(), "late".to_string()))));
    assert_eq!(t.screen(), &Screen::ContainerList);
}

#[test]
fn logs_failure_sets_error() {
    let mut t = loaded();
    t.update(Message::ViewLogs("1".to_string()));
    t.update(Message::LogsLoaded(Err("boom".to_string())));
    assert_eq!(t.error().map(|s| s.as_str()), Some("boom"));
    assert_eq!(t.logs_content(), Some(LogsContent::Loading));
}
