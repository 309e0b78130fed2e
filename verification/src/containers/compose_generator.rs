//! The docker-compose document that reproduces a set of containers: one
//! service per container, keyed by the container's sanitized name.

use crate::containers::container_info::{ContainerInfo, PortMapping};
use crate::text::{
    all_ascii, alphanumeric, ascii_alphanumeric, ascii_lowercase, chars_of, decimal, is_alphanumeric, lowercase_of, push_char, push_decimal, push_str,
    str_equal, to_lowercase,
};
use vstd::prelude::*;

verus! {

/// One service of a compose document.
#[derive(Clone, Debug, PartialEq, Eq)]
pub struct ComposeService {
    pub image: String,
    pub container_name: Option<String>,
    pub ports: Vec<String>,
    pub restart: Option<String>,
}

/// A compose document. `services` maps service names to services; no name
/// occurs twice in it (see `ComposeFile::wf`), and its order carries no
/// meaning.
#[derive(Clone, Debug, PartialEq, Eq)]
pub struct ComposeFile {
    pub version: String,
    pub services: Vec<(String, ComposeService)>,
}

/// Builds compose documents from container records.
pub struct ComposeGenerator;

/// The content of a compose service.
pub struct ServiceView {
    pub image: Seq<char>,
    pub container_name: Option<Seq<char>>,
    pub ports: Seq<Seq<char>>,
    pub restart: Option<Seq<char>>,
}

/// The content of an optional string.
pub open spec fn opt_view(o: Option<String>) -> Option<Seq<char>> {
    match o {
        Some(s) => Some(s@),
        None => None,
    }
}

impl View for ComposeService {
    type V = ServiceView;

    open spec fn view(&self) -> ServiceView {
        ServiceView {
            image: self.image@,
            container_name: opt_view(self.container_name),
            ports: self.ports@.map_values(|p: String| p@),
            restart: opt_view(self.restart),
        }
    }
}

/// The map that a list of (name, service) entries stands for; a later entry
/// for a name replaces an earlier one.
pub open spec fn entries_map(es: Seq<(String, ComposeService)>) -> Map<Seq<char>, ServiceView>
    decreases es.len(),
{
    if es.len() == 0 {
        Map::empty()
    } else {
        entries_map(es.drop_last()).insert(es.last().0@, es.last().1@)
    }
}

/// No name occurs twice among the entries.
pub open spec fn keys_distinct(es: Seq<(String, ComposeService)>) -> bool {
    forall|i: int, j: int| 0 <= i < j < es.len() ==> es[i].0@ != es[j].0@
}

impl ComposeFile {
    /// Service names are unique.
    pub open spec fn wf(self) -> bool {
        keys_distinct(self.services@)
    }

    /// The services of the document, by name.
    pub open spec fn services_map(self) -> Map<Seq<char>, ServiceView> {
        entries_map(self.services@)
    }
}

/// A container name with every character that is not alphanumeric, `-` or
/// `_` replaced by `-`.
pub open spec fn sanitized_chars(name: Seq<char>) -> Seq<char> {
    name.map_values(|c: char| if alphanumeric(c) || c == '-' || c == '_' { c } else { '-' })
}

/// The service name for a container name: sanitized, then lowercased.
pub open spec fn service_name(name: Seq<char>) -> Seq<char> {
    lowercase_of(sanitized_chars(name))
}

/// The service name of an all-ASCII container name, spelled out: every
/// character that is not an ASCII letter, an ASCII digit, `-` or `_` becomes
/// `-`, then the capitals are made small.
pub open spec fn ascii_service_name(name: Seq<char>) -> Seq<char> {
    ascii_lowercase(
        name.map_values(
            |c: char| if ascii_alphanumeric(c) || c == '-' || c == '_' { c } else { '-' },
        ),
    )
}

/// Sanitizing is idempotent on ASCII names: the service name of an ASCII
/// container name is ASCII, and it is its own service name.
pub proof fn lemma_sanitize_idempotent(name: Seq<char>)
    requires
        all_ascii(name),
    ensures
        all_ascii(ascii_service_name(name)),
        ascii_service_name(ascii_service_name(name)) == ascii_service_name(name),
{
    let once = ascii_service_name(name);
    assert forall|i: int| 0 <= i < once.len() implies (#[trigger] once[i] as u32) < 128 by {
        assert((name[i] as u32) < 128);
    }
    assert(ascii_service_name(once) =~= once);
}

/// A published port as compose writes it: `host:container:protocol`.
pub open spec fn port_text(p: PortMapping) -> Seq<char> {
    decimal(p.host_port as nat) + seq![':'] + decimal(p.container_port as nat) + seq![':']
        + p.protocol@
}

/// The service that reproduces container `c`.
pub open spec fn service_for(c: ContainerInfo) -> ServiceView {
    ServiceView {
        image: c.image@,
        container_name: Some(c.name@),
        ports: c.ports@.map_values(|p: PortMapping| port_text(p)),
        restart: if c.is_running {
            Some("unless-stopped"@)
        } else {
            None
        },
    }
}

/// The service for a container reproduces it: its image, its name as the
/// container name, one `host:container:protocol` entry for each of its port
/// mappings in the same order, and the `unless-stopped` restart policy
/// exactly when the container is running.
pub proof fn lemma_service_reproduces_container(c: ContainerInfo)
    ensures
        service_for(c).image == c.image@,
        service_for(c).container_name == Some(c.name@),
        service_for(c).ports.len() == c.ports@.len(),
        forall|i: int|
            0 <= i < c.ports@.len() ==> #[trigger] service_for(c).ports[i] == decimal(
                c.ports@[i].host_port as nat,
            ) + seq![':'] + decimal(c.ports@[i].container_port as nat) + seq![':']
                + c.ports@[i].protocol@,
        c.is_running ==> service_for(c).restart == Some("unless-stopped"@),
        !c.is_running ==> service_for(c).restart is None,
{
}

/// The services for a list of containers, one per service name; when two
/// containers share a service name, the later one's service is kept.
pub open spec fn compose_services(cs: Seq<ContainerInfo>) -> Map<Seq<char>, ServiceView>
    decreases cs.len(),
{
    if cs.len() == 0 {
        Map::empty()
    } else {
        compose_services(cs.drop_last()).insert(
            service_name(cs.last().name@),
            service_for(cs.last()),
        )
    }
}

/// A container's service appears under its service name, exactly as built
/// from that container, unless a later container has the same service name.
pub proof fn lemma_compose_later_wins(cs: Seq<ContainerInfo>, i: int)
    requires
        0 <= i < cs.len(),
        forall|j: int| i < j < cs.len() ==> service_name(cs[j].name@) != service_name(cs[i].name@),
    ensures
        compose_services(cs).dom().contains(service_name(cs[i].name@)),
        compose_services(cs)[service_name(cs[i].name@)] == service_for(cs[i]),
    decreases cs.len(),
{
    if i < cs.len() - 1 {
        lemma_compose_later_wins(cs.drop_last(), i);
    }
}

/// The services of the document are named by exactly the service names of
/// the containers, so there are at most as many services as containers.
pub proof fn lemma_compose_names(cs: Seq<ContainerInfo>, k: Seq<char>)
    ensures
        compose_services(cs).dom().contains(k) <==> exists|i: int|
            0 <= i < cs.len() && service_name(cs[i].name@) == k,
        compose_services(cs).dom().finite(),
        compose_services(cs).dom().len() <= cs.len(),
    decreases cs.len(),
{
    if cs.len() > 0 {
        let rest = cs.drop_last();
        lemma_compose_names(rest, k);
        if compose_services(rest).dom().contains(k) {
            let i = choose|i: int| 0 <= i < rest.len() && service_name(rest[i].name@) == k;
            assert(service_name(cs[i].name@) == k);
        }
        if exists|i: int| 0 <= i < cs.len() && service_name(cs[i].name@) == k {
            let i = choose|i: int| 0 <= i < cs.len() && service_name(cs[i].name@) == k;
            if i < cs.len() - 1 {
                assert(service_name(rest[i].name@) == k);
            }
        }
    }
}

proof fn lemma_entries_dom(es: Seq<(String, ComposeService)>, k: Seq<char>)
    ensures
        entries_map(es).dom().contains(k) <==> exists|i: int| 0 <= i < es.len() && es[i].0@ == k,
    decreases es.len(),
{
    if es.len() > 0 {
        lemma_entries_dom(es.drop_last(), k);
        if entries_map(es.drop_last()).dom().contains(k) {
            let i = choose|i: int| 0 <= i < es.drop_last().len() && es.drop_last()[i].0@ == k;
            assert(es[i].0@ == k);
        }
        if exists|i: int| 0 <= i < es.len() && es[i].0@ == k {
            let i = choose|i: int| 0 <= i < es.len() && es[i].0@ == k;
            if i < es.len() - 1 {
                assert(es.drop_last()[i].0@ == k);
            }
        }
    }
}

proof fn lemma_entries_update(
    es: Seq<(String, ComposeService)>,
    j: int,
    e: (String, ComposeService),
)
    requires
        keys_distinct(es),
        0 <= j < es.len(),
        es[j].0@ == e.0@,
    ensures
        entries_map(es.update(j, e)) == entries_map(es).insert(e.0@, e.1@),
    decreases es.len(),
{
    let us = es.update(j, e);
    if j == es.len() - 1 {
        assert(us.drop_last() =~= es.drop_last());
        assert(entries_map(us) =~= entries_map(es).insert(e.0@, e.1@));
    } else {
        assert(us.drop_last() =~= es.drop_last().update(j, e));
        lemma_entries_update(es.drop_last(), j, e);
        assert(es.last().0@ != e.0@);
        assert(entries_map(us) =~= entries_map(es).insert(e.0@, e.1@));
    }
}

impl ComposeGenerator {
    /// The service name for a container name: every character that is not
    /// alphanumeric, `-` or `_` becomes `-`, then the whole is lowercased.
    pub fn sanitize_name(name: &str) -> (r: String)
        ensures
            r@ == service_name(name@),
            all_ascii(name@) ==> r@ == ascii_service_name(name@),
    {
        let chars = chars_of(name);
        let n = chars.len();
        let mut out = String::new();
        let mut i: usize = 0;
        while i < n
            invariant
                chars@ == name@,
                n == name@.len(),
                i <= n,
                out@ == sanitized_chars(name@.take(i as int)),
                forall|k: int|
                    0 <= k < i && (name@[k] as u32) < 128 ==> #[trigger] alphanumeric(name@[k])
                        == ascii_alphanumeric(name@[k]),
            decreases n - i,
        {
            let c = chars[i];
            let an = is_alphanumeric(c);
            let keep = an || c == '-' || c == '_';
            if keep {
                push_char(&mut out, c);
            } else {
                push_char(&mut out, '-');
            }
            assert(sanitized_chars(name@.take(i + 1)) =~= sanitized_chars(name@.take(i as int)).push(
                if keep { c } else { '-' },
            ));
            i = i + 1;
        }
        assert(name@.take(n as int) =~= name@);
        proof {
            if all_ascii(name@) {
                let sane = name@.map_values(
                    |c: char| if ascii_alphanumeric(c) || c == '-' || c == '_' { c } else { '-' },
                );
                assert forall|k: int| 0 <= k < name@.len() implies out@[k] == sane[k] by {
                    assert((name@[k] as u32) < 128);
                    assert(alphanumeric(name@[k]) == ascii_alphanumeric(name@[k]));
                }
                assert(out@ =~= sane);
                assert forall|k: int| 0 <= k < out@.len() implies (#[trigger] out@[k] as u32) < 128 by {
                    assert((name@[k] as u32) < 128);
                }
            }
        }
        to_lowercase(out.as_str())
    }

    /// A published port as `host:container:protocol`.
    pub fn port_entry(p: &PortMapping) -> (r: String)
        ensures
            r@ == port_text(*p),
    {
        let mut s = String::new();
        push_decimal(&mut s, p.host_port as u64);
        push_char(&mut s, ':');
        push_decimal(&mut s, p.container_port as u64);
        push_char(&mut s, ':');
        push_str(&mut s, p.protocol.as_str());
        assert(s@ =~= port_text(*p));
        s
    }

    /// The service that reproduces a container: its image and name, its
    /// published ports, and an `unless-stopped` restart policy when it runs.
    pub fn service(c: &ContainerInfo) -> (r: ComposeService)
        ensures
            r@ == service_for(*c),
    {
        let mut ports: Vec<String> = Vec::new();
        let n = c.ports.len();
        let mut i: usize = 0;
        while i < n
            invariant
                n == c.ports@.len(),
                i <= n,
                ports@.len() == i,
                forall|k: int| 0 <= k < i ==> #[trigger] ports@[k]@ == port_text(c.ports@[k]),
            decreases n - i,
        {
            ports.push(ComposeGenerator::port_entry(&c.ports[i]));
            i = i + 1;
        }
        let restart = if c.is_running {
            Some(String::from_str("unless-stopped"))
        } else {
            None
        };
        let r = ComposeService {
            image: c.image.clone(),
            container_name: Some(c.name.clone()),
            ports,
            restart,
        };
        assert(r@.ports =~= service_for(*c).ports);
        r
    }

    /// The compose document for a list of containers: version "3.8" and one
    /// service per service name, the later container winning where names
    /// collide.
    pub fn compose_file(containers: &[ContainerInfo]) -> (r: ComposeFile)
        ensures
            r.wf(),
            r.version@ == "3.8"@,
            r.services_map() == compose_services(containers@),
    {
        let mut services: Vec<(String, ComposeService)> = Vec::new();
        let n = containers.len();
        let mut i: usize = 0;
        while i < n
            invariant
                n == containers@.len(),
                i <= n,
                keys_distinct(services@),
                entries_map(services@) == compose_services(containers@.take(i as int)),
            decreases n - i,
        {
            let c = &containers[i];
            let key = ComposeGenerator::sanitize_name(c.name.as_str());
            let svc = ComposeGenerator::service(c);
            let ghost before = services@;
            let m = services.len();
            let mut j: usize = 0;
            while j < m && !str_equal(services[j].0.as_str(), key.as_str())
                invariant
                    m == services@.len(),
                    j <= m,
                    forall|t: int| 0 <= t < j ==> services@[t].0@ != key@,
                decreases m - j,
            {
                j = j + 1;
            }
            let ghost entry = (key, svc);
            if j < m {
                proof {
                    lemma_entries_update(before, j as int, entry);
                }
                services.set(j, (key, svc));
            } else {
                proof {
                    lemma_entries_dom(before, key@);
                }
                services.push((key, svc));
                assert(services@.drop_last() =~= before);
            }
            assert(containers@.take(i + 1).drop_last() =~= containers@.take(i as int));
            i = i + 1;
        }
        assert(containers@.take(n as int) =~= containers@);
        ComposeFile { version: String::from_str("3.8"), services }
    }
}

} // verus!
