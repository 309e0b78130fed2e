use containertyrant::containers::{ContainerInfo, ContainerStatus, UtcTime};
use containertyrant::utils::Exporter;

fn info(short_id: &str, name: &str, image: &str, status: ContainerStatus, cpu: u64, mem: u64) -> ContainerInfo {
    ContainerInfo {
        id: short_id.to_string(),
        short_id: short_id.to_string(),
        name: name.to_string(),
        image: image.to_string(),
        status,
        state: String::new(),
        created: UtcTime { secs: 0, nanos: 0 },
        ports: vec![],
        cpu_percent_tenths: cpu,
        memory_usage: mem,
        memory_limit: 0,
        memory_percent_tenths: 0,
        network_rx: 0,
        network_tx: 0,
        is_running: status == ContainerStatus::Running,
    }
}

#[test]
fn to_csv_header_only() {
    assert_eq!(Exporter::to_csv(&[]).unwrap(), "ID,Name,Image,Status,CPU %,Memory\n");
}

#[test]
fn to_csv_rows() {
    let cs = vec![
        info("abc123", "web", "nginx", ContainerStatus::Running, 0, 0),
        info("def456", "db", "postgres:16", ContainerStatus::Exited, 125, 3 * 1024 * 1024 / 2),
    ];
    assert_eq!(
        Exporter::to_csv(&cs).unwrap(),
        "ID,Name,Image,Status,CPU %,Memory\n\
         abc123,web,nginx,Running,0.0%,0 KB\n\
         def456,db,postgres:16,Exited,12.5%,1.5 MB\n"
    );
}

#[test]
fn to_csv_quotes_where_needed() {
    let cs = vec![info("x", "a,b", "say \"hi\"", ContainerStatus::Dead, 1000, 2048)];
    assert_eq!(
        Exporter::to_csv(&cs).unwrap(),
        "ID,Name,Image,Status,CPU %,Memory\nx,\"a,b\",\"say \"\"hi\"\"\",Dead,100.0%,2 KB\n"
    );
}

#[test]
fn to_csv_keeps_unicode() {
    let cs = vec![info("é", "naïve", "ünï", ContainerStatus::Unknown, 7, 1024 * 1024 * 1024)];
    assert_eq!(
        Exporter::to_csv(&cs).unwrap(),
        "ID,Name,Image,Status,CPU %,Memory\né,naïve,ünï,Unknown,0.7%,1.0 GB\n"
    );
}

#[test]
fn to_csv_empty_and_line_break_fields() {
    let cs = vec![info("", "two\nlines", "cr\rimage", ContainerStatus::Paused, 5, 1536)];
    assert_eq!(
        Exporter::to_csv(&cs).unwrap(),
        "ID,Name,Image,Status,CPU %,Memory\n,\"two\nlines\",\"cr\rimage\",Paused,0.5%,1 KB\n"
    );
}
