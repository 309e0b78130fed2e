use containertyrant::containers::ContainerStatus;

#[test]
fn as_str_names_every_status() {
    assert_eq!(ContainerStatus::Running.as_str(), "Running");
    assert_eq!(ContainerStatus::Paused.as_str(), "Paused");
    assert_eq!(ContainerStatus::Exited.as_str(), "Exited");
    assert_eq!(ContainerStatus::Created.as_str(), "Created");
    assert_eq!(ContainerStatus::Restarting.as_str(), "Restarting");
    assert_eq!(ContainerStatus::Dead.as_str(), "Dead");
    assert_eq!(ContainerStatus::Unknown.as_str(), "Unknown");
}

#[test]
fn from_docker_state_ignores_case() {
    assert_eq!(ContainerStatus::from_docker_state("running"), ContainerStatus::Running);
    assert_eq!(ContainerStatus::from_docker_state("RUNNING"), ContainerStatus::Running);
    assert_eq!(ContainerStatus::from_docker_state("Paused"), ContainerStatus::Paused);
    assert_eq!(ContainerStatus::from_docker_state("exited"), ContainerStatus::Exited);
    assert_eq!(ContainerStatus::from_docker_state("CrEaTeD"), ContainerStatus::Created);
    assert_eq!(ContainerStatus::from_docker_state("restarting"), ContainerStatus::Restarting);
    assert_eq!(ContainerStatus::from_docker_state("dead"), ContainerStatus::Dead);
}

#[test]
fn from_docker_state_unknown_strings() {
    assert_eq!(ContainerStatus::from_docker_state(""), ContainerStatus::Unknown);
    assert_eq!(ContainerStatus::from_docker_state("removing"), ContainerStatus::Unknown);
    assert_eq!(ContainerStatus::from_docker_state(" running"), ContainerStatus::Unknown);
    assert_eq!(ContainerStatus::from_docker_state("runningx"), ContainerStatus::Unknown);
}

#[test]
fn from_lowercase_state_is_case_sensitive() {
    assert_eq!(ContainerStatus::from_lowercase_state("dead"), ContainerStatus::Dead);
    assert_eq!(ContainerStatus::from_lowercase_state("Dead"), ContainerStatus::Unknown);
}

#[test]
fn status_name_round_trip() {
    let all = [
        ContainerStatus::Running,
        ContainerStatus::Paused,
        ContainerStatus::Exited,
        ContainerStatus::Created,
        ContainerStatus::Restarting,
        ContainerStatus::Dead,
        ContainerStatus::Unknown,
    ];
    for s in all {
        assert_eq!(ContainerStatus::from_docker_state(s.as_str()), s);
        assert_eq!(ContainerStatus::from_lowercase_state(&s.as_str().to_ascii_lowercase()), s);
    }
}
