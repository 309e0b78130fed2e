//! Container records, their lifecycle status, and how a record is built
//! from the summary that the Docker daemon reports for a container.

use crate::containers::stats::{metrics_of, ContainerStats, Metrics};
use crate::text::{all_ascii, ascii_lowercase, lowercase_of, str_equal, to_lowercase, trim_start_char, trim_start_matches_char};
use vstd::prelude::*;
use vstd::utf8::{encode_utf8, is_char_boundary};

verus! {

/// Lifecycle status of a container.
#[derive(Clone, Copy, Debug, PartialEq, Eq, Structural)]
pub enum ContainerStatus {
    Running,
    Paused,
    Exited,
    Created,
    Restarting,
    Dead,
    Unknown,
}

/// Every status's display name is ASCII, and with its ASCII capitals made
/// small it reads back as that status.
pub proof fn lemma_status_name_round_trip(s: ContainerStatus)
    ensures
        all_ascii(s.name()),
        ContainerStatus::of_lowercase(ascii_lowercase(s.name())) == s,
{
    reveal_strlit("Running");
    reveal_strlit("running");
    reveal_strlit("Paused");
    reveal_strlit("paused");
    reveal_strlit("Exited");
    reveal_strlit("exited");
    reveal_strlit("Created");
    reveal_strlit("created");
    reveal_strlit("Restarting");
    reveal_strlit("restarting");
    reveal_strlit("Dead");
    reveal_strlit("dead");
    reveal_strlit("Unknown");
    let l = ascii_lowercase(s.name());
    if s == ContainerStatus::Running {
        assert(l =~= "running"@);
    } else if s == ContainerStatus::Paused {
        assert(l =~= "paused"@);
    } else if s == ContainerStatus::Exited {
        assert(l =~= "exited"@);
        assert("exited"@[0] != "paused"@[0] && "exited"@ != "running"@);
    } else if s == ContainerStatus::Created {
        assert(l =~= "created"@);
        assert("created"@[0] != "running"@[0] && "created"@ != "paused"@ && "created"@ != "exited"@);
    } else if s == ContainerStatus::Restarting {
        assert(l =~= "restarting"@);
    } else if s == ContainerStatus::Dead {
        assert(l =~= "dead"@);
    } else {
        assert(l.len() == 7);
        assert(l[0] == 'u');
        assert(l != "running"@ && l != "paused"@ && l != "exited"@ && l != "created"@);
        assert(l != "restarting"@ && l != "dead"@);
    }
}

impl ContainerStatus {
    /// The display name of a status.
    pub open spec fn name(self) -> Seq<char> {
        match self {
            ContainerStatus::Running => "Running"@,
            ContainerStatus::Paused => "Paused"@,
            ContainerStatus::Exited => "Exited"@,
            ContainerStatus::Created => "Created"@,
            ContainerStatus::Restarting => "Restarting"@,
            ContainerStatus::Dead => "Dead"@,
            ContainerStatus::Unknown => "Unknown"@,
        }
    }

    /// The status that an already lowercased Docker state string denotes.
    pub open spec fn of_lowercase(s: Seq<char>) -> ContainerStatus {
        if s == "running"@ {
            ContainerStatus::Running
        } else if s == "paused"@ {
            ContainerStatus::Paused
        } else if s == "exited"@ {
            ContainerStatus::Exited
        } else if s == "created"@ {
            ContainerStatus::Created
        } else if s == "restarting"@ {
            ContainerStatus::Restarting
        } else if s == "dead"@ {
            ContainerStatus::Dead
        } else {
            ContainerStatus::Unknown
        }
    }

    /// The display name of this status.
    pub fn as_str(&self) -> (r: &'static str)
        ensures
            r@ == self.name(),
    {
        match self {
            ContainerStatus::Running => "Running",
            ContainerStatus::Paused => "Paused",
            ContainerStatus::Exited => "Exited",
            ContainerStatus::Created => "Created",
            ContainerStatus::Restarting => "Restarting",
            ContainerStatus::Dead => "Dead",
            ContainerStatus::Unknown => "Unknown",
        }
    }

    /// The status that a lowercase Docker state string denotes; any string
    /// other than the six known states gives `Unknown`.
    pub fn from_lowercase_state(state: &str) -> (r: ContainerStatus)
        ensures
            r == ContainerStatus::of_lowercase(state@),
    {
        if str_equal(state, "running") {
            ContainerStatus::Running
        } else if str_equal(state, "paused") {
            ContainerStatus::Paused
        } else if str_equal(state, "exited") {
            ContainerStatus::Exited
        } else if str_equal(state, "created") {
            ContainerStatus::Created
        } else if str_equal(state, "restarting") {
            ContainerStatus::Restarting
        } else if str_equal(state, "dead") {
            ContainerStatus::Dead
        } else {
            ContainerStatus::Unknown
        }
    }

    /// The status for a state string as Docker reports it, compared without
    /// regard to case.
    pub fn from_docker_state(state: &str) -> (r: ContainerStatus)
        ensures
            r == ContainerStatus::of_lowercase(lowercase_of(state@)),
            all_ascii(state@) ==> r == ContainerStatus::of_lowercase(ascii_lowercase(state@)),
            forall|s: ContainerStatus| #[trigger] s.name() == state@ ==> r == s,
    {
        let lower = to_lowercase(state);
        let r = ContainerStatus::from_lowercase_state(lower.as_str());
        assert forall|s: ContainerStatus| #[trigger] s.name() == state@ implies r == s by {
            lemma_status_name_round_trip(s);
        }
        r
    }
}


/// A port of a container and where the host publishes it.
#[derive(Clone, Debug, PartialEq, Eq)]
pub struct PortMapping {
    pub container_port: u16,
    pub host_port: u16,
    pub protocol: String,
    pub host_ip: String,
}

/// A UTC point in time: whole seconds since the Unix epoch and the
/// nanoseconds past that second.
#[derive(Clone, Copy, Debug, PartialEq, Eq, Structural)]
pub struct UtcTime {
    pub secs: i64,
    pub nanos: u32,
}

/// What the library keeps of a container. `created` is the creation time;
/// the percentages are kept in tenths of a percent.
#[derive(Clone, Debug, PartialEq, Eq)]
pub struct ContainerInfo {
    pub id: String,
    pub short_id: String,
    pub name: String,
    pub image: String,
    pub status: ContainerStatus,
    pub state: String,
    pub created: UtcTime,
    pub ports: Vec<PortMapping>,
    pub cpu_percent_tenths: u64,
    pub memory_usage: u64,
    pub memory_limit: u64,
    pub memory_percent_tenths: u64,
    pub network_rx: u64,
    pub network_tx: u64,
    pub is_running: bool,
}

/// A port as the Docker daemon lists it; `typ` is the debug rendering of the
/// daemon's port type (`TCP`, `UDP`, `SCTP` or `EMPTY`).
#[derive(Clone, Debug, PartialEq, Eq)]
pub struct PortSummary {
    pub private_port: u16,
    pub public_port: Option<u16>,
    pub typ: Option<String>,
    pub ip: Option<String>,
}

/// A container as the Docker daemon lists it, with the statistics read for
/// it, if any.
#[derive(Clone, Debug, PartialEq, Eq)]
pub struct ContainerSummary {
    pub id: Option<String>,
    pub names: Option<Vec<String>>,
    pub image: Option<String>,
    pub state: Option<String>,
    pub created: Option<i64>,
    pub ports: Option<Vec<PortSummary>>,
    pub stats: Option<ContainerStats>,
}

/// The earliest second since the Unix epoch that a chrono `DateTime<Utc>`
/// can hold (the first second of year -262143).
pub const TIMESTAMP_MIN: i64 = -8334601228800;

/// The latest second since the Unix epoch that a chrono `DateTime<Utc>` can
/// hold (the last second of year 262142).
pub const TIMESTAMP_MAX: i64 = 8210266876799;

/// Whether `secs` seconds since the epoch is a representable UTC time.
pub open spec fn timestamp_in_range(secs: int) -> bool {
    TIMESTAMP_MIN <= secs <= TIMESTAMP_MAX
}

/// The text an optional string stands for: its characters, or nothing.
pub open spec fn text_or_empty(o: Option<String>) -> Seq<char> {
    match o {
        Some(s) => s@,
        None => Seq::empty(),
    }
}

/// The length of a string in bytes, as `str::len` reports it.
pub open spec fn byte_len(s: Seq<char>) -> usize {
    encode_utf8(s).len() as usize
}

/// Whether the short form of the id `id` can be cut out of it: the id has at
/// most twelve bytes, or its twelfth byte ends a character.
pub open spec fn id_cuttable(id: Seq<char>) -> bool {
    byte_len(id) <= 12 || is_char_boundary(encode_utf8(id), 12)
}

/// The short id made from `id`: its first twelve bytes when it is longer.
pub open spec fn short_id_of(id: Seq<char>, short: Seq<char>) -> bool {
    if byte_len(id) > 12 {
        encode_utf8(short) == encode_utf8(id).subrange(0, 12)
    } else {
        short == id
    }
}

/// `p` is the port mapping for the listed port `r`.
pub open spec fn port_from_summary(p: PortMapping, r: PortSummary) -> bool {
    &&& p.container_port == r.private_port
    &&& p.host_port == (match r.public_port {
        Some(x) => x,
        None => 0u16,
    })
    &&& p.protocol@ == (match r.typ {
        Some(t) => lowercase_of(t@),
        None => Seq::empty(),
    })
    &&& p.host_ip@ == text_or_empty(r.ip)
}

/// `info` is the record for the listed container `raw`, with creation
/// time `created`.
pub open spec fn info_from_summary(info: ContainerInfo, raw: ContainerSummary, created: UtcTime) -> bool {
    let id = text_or_empty(raw.id);
    let ports: Seq<PortSummary> = match raw.ports {
        Some(v) => v@,
        None => Seq::empty(),
    };
    &&& info.id@ == id
    &&& short_id_of(id, info.short_id@)
    &&& info.name@ == (match raw.names {
        Some(v) => if v@.len() > 0 {
            trim_start_char(v@[0]@, '/')
        } else {
            info.short_id@
        },
        None => info.short_id@,
    })
    &&& info.image@ == text_or_empty(raw.image)
    &&& info.state@ == text_or_empty(raw.state)
    &&& info.status == ContainerStatus::of_lowercase(lowercase_of(text_or_empty(raw.state)))
    &&& info.created == created
    &&& info.ports@.len() == ports.len()
    &&& forall|i: int| 0 <= i < ports.len() ==> port_from_summary(#[trigger] info.ports@[i], ports[i])
    &&& info.cpu_percent_tenths == metrics_of(raw.stats).cpu_percent_tenths
    &&& info.memory_usage == metrics_of(raw.stats).memory_usage
    &&& info.memory_limit == metrics_of(raw.stats).memory_limit
    &&& info.memory_percent_tenths == metrics_of(raw.stats).memory_percent_tenths
    &&& info.network_rx == metrics_of(raw.stats).network_rx
    &&& info.network_tx == metrics_of(raw.stats).network_tx
    &&& info.is_running == (info.status == ContainerStatus::Running)
}

/// Whether a listed container's id can be shortened without splitting a
/// character.
pub open spec fn summary_cuttable(raw: ContainerSummary) -> bool {
    id_cuttable(text_or_empty(raw.id))
}

/// A record built from a listed container keeps the reported id, image and
/// state and the given creation time; its short id is the id's first twelve
/// bytes (the whole id when shorter); its name is the first reported name
/// without its leading slashes, or the short id when no name is reported;
/// and each of its ports carries the reported port's numbers (no public
/// port read as 0), lowercased protocol and address, in order.
pub proof fn lemma_record_keeps_reported_fields(info: ContainerInfo, raw: ContainerSummary, created: UtcTime)
    requires
        info_from_summary(info, raw, created),
    ensures
        info.id@ == text_or_empty(raw.id),
        info.image@ == text_or_empty(raw.image),
        info.state@ == text_or_empty(raw.state),
        info.created == created,
        byte_len(text_or_empty(raw.id)) <= 12 ==> info.short_id@ == text_or_empty(raw.id),
        byte_len(text_or_empty(raw.id)) > 12 ==> encode_utf8(info.short_id@) == encode_utf8(
            text_or_empty(raw.id),
        ).subrange(0, 12),
        info.name@ == (match raw.names {
            Some(v) => if v@.len() > 0 {
                trim_start_char(v@[0]@, '/')
            } else {
                info.short_id@
            },
            None => info.short_id@,
        }),
        forall|i: int|
            0 <= i < info.ports@.len() ==> match raw.ports {
                Some(v) => {
                    &&& (#[trigger] info.ports@[i]).container_port == v@[i].private_port
                    &&& info.ports@[i].host_port == (match v@[i].public_port {
                        Some(x) => x,
                        None => 0u16,
                    })
                    &&& info.ports@[i].protocol@ == (match v@[i].typ {
                        Some(t) => lowercase_of(t@),
                        None => Seq::empty(),
                    })
                    &&& info.ports@[i].host_ip@ == text_or_empty(v@[i].ip)
                },
                None => false,
            },
        info.ports@.len() == (match raw.ports {
            Some(v) => v@.len(),
            None => 0,
        }),
{
}

/// A record built from a listed container is marked running exactly when
/// its status is `Running`, which is so exactly when the reported state,
/// lowercased, is `running`.
pub proof fn lemma_running_iff_status_running(info: ContainerInfo, raw: ContainerSummary, created: UtcTime)
    requires
        info_from_summary(info, raw, created),
    ensures
        info.is_running <==> info.status == ContainerStatus::Running,
        info.is_running <==> lowercase_of(text_or_empty(raw.state)) == "running"@,
{
}

/// `chrono::DateTime::from_timestamp(secs, 0)`: whether it gives a time,
/// which by its source is so exactly when the day of `secs` lies in the
/// years -262143 to 262142.
#[verifier::external_body]
fn timestamp_representable(secs: i64) -> (r: bool)
    ensures
        r == timestamp_in_range(secs as int),
{
    chrono::DateTime::from_timestamp(secs, 0).is_some()
}

/// The creation time kept for a listed container: the reported second (zero
/// when none is reported) where a UTC time can hold it, else `now`, with its
/// fraction of a second.
pub open spec fn created_time(raw: ContainerSummary, now: UtcTime) -> UtcTime {
    let reported: i64 = match raw.created {
        Some(c) => c,
        None => 0,
    };
    if timestamp_in_range(reported as int) {
        UtcTime { secs: reported, nanos: 0 }
    } else {
        now
    }
}

impl PortMapping {
    /// The mapping for a port that the daemon lists.
    pub fn from_summary(r: &PortSummary) -> (p: PortMapping)
        ensures
            port_from_summary(p, *r),
    {
        let host_port: u16 = match r.public_port {
            Some(x) => x,
            None => 0,
        };
        let protocol = match &r.typ {
            Some(t) => to_lowercase(t.as_str()),
            None => String::new(),
        };
        let host_ip = match &r.ip {
            Some(s) => s.clone(),
            None => String::new(),
        };
        PortMapping { container_port: r.private_port, host_port, protocol, host_ip }
    }
}

impl ContainerInfo {
    /// The record for a listed container, with `created` as its creation
    /// time: the id shortened to twelve bytes, the first name without its
    /// leading slashes (or the short id), the status read from the state,
    /// the ports mapped one by one, and the metrics computed from the
    /// statistics reported with it.
    pub fn from_summary_at(raw: ContainerSummary, created: UtcTime) -> (info: ContainerInfo)
        requires
            summary_cuttable(raw),
        ensures
            info_from_summary(info, raw, created),
            info.is_running == (info.status == ContainerStatus::Running),
    {
        let id = match raw.id {
            Some(s) => s,
            None => String::new(),
        };
        let short_id = if id.as_str().len() > 12 {
            let (head, _tail) = id.as_str().split_at(12);
            head.to_owned()
        } else {
            id.clone()
        };
        let name = match &raw.names {
            Some(v) => if v.len() > 0 {
                trim_start_matches_char(v[0].as_str(), '/')
            } else {
                short_id.clone()
            },
            None => short_id.clone(),
        };
        let image = match raw.image {
            Some(s) => s,
            None => String::new(),
        };
        let state = match raw.state {
            Some(s) => s,
            None => String::new(),
        };
        let status = ContainerStatus::from_docker_state(state.as_str());
        let mut ports: Vec<PortMapping> = Vec::new();
        match &raw.ports {
            Some(v) => {
                let n = v.len();
                let mut i: usize = 0;
                while i < n
                    invariant
                        n == v@.len(),
                        i <= n,
                        ports@.len() == i,
                        forall|k: int| 0 <= k < i ==> port_from_summary(#[trigger] ports@[k], v@[k]),
                    decreases n - i,
                {
                    ports.push(PortMapping::from_summary(&v[i]));
                    i = i + 1;
                }
            },
            None => {},
        }
        let is_running = status == ContainerStatus::Running;
        let metrics = Metrics::of(&raw.stats);
        let info = ContainerInfo {
            id,
            short_id,
            name,
            image,
            status,
            state,
            created,
            ports,
            cpu_percent_tenths: metrics.cpu_percent_tenths,
            memory_usage: metrics.memory_usage,
            memory_limit: metrics.memory_limit,
            memory_percent_tenths: metrics.memory_percent_tenths,
            network_rx: metrics.network_rx,
            network_tx: metrics.network_tx,
            is_running,
        };
        info
    }

    /// The record for a listed container. Its creation time is the reported
    /// one (zero when none is reported) where a UTC time can hold it, and
    /// `now`, the current time, otherwise.
    pub fn from_summary(raw: ContainerSummary, now: UtcTime) -> (info: ContainerInfo)
        requires
            summary_cuttable(raw),
        ensures
            info_from_summary(info, raw, created_time(raw, now)),
    {
        let reported: i64 = match raw.created {
            Some(c) => c,
            None => 0,
        };
        let created = if timestamp_representable(reported) {
            UtcTime { secs: reported, nanos: 0 }
        } else {
            now
        };
        ContainerInfo::from_summary_at(raw, created)
    }

    /// The records for the listed containers, in order.
    pub fn from_summaries(raws: Vec<ContainerSummary>, now: UtcTime) -> (infos: Vec<ContainerInfo>)
        requires
            forall|i: int| 0 <= i < raws@.len() ==> summary_cuttable(#[trigger] raws@[i]),
        ensures
            infos@.len() == raws@.len(),
            forall|i: int|
                0 <= i < raws@.len() ==> info_from_summary(
                    #[trigger] infos@[i],
                    raws@[i],
                    created_time(raws@[i], now),
                ),
    {
        let ghost all = raws@;
        let mut rest = raws;
        let mut infos: Vec<ContainerInfo> = Vec::new();
        while rest.len() > 0
            invariant
                infos@.len() + rest@.len() == all.len(),
                rest@ == all.skip(infos@.len() as int),
                forall|i: int| 0 <= i < all.len() ==> summary_cuttable(#[trigger] all[i]),
                forall|i: int|
                    0 <= i < infos@.len() ==> info_from_summary(
                        #[trigger] infos@[i],
                        all[i],
                        created_time(all[i], now),
                    ),
            decreases rest@.len(),
        {
            let ghost k = infos@.len() as int;
            let raw = rest.remove(0);
            assert(raw == all[k]);
            assert(rest@ =~= all.skip(k + 1));
            infos.push(ContainerInfo::from_summary(raw, now));
        }
        infos
    }
}

} // verus!
