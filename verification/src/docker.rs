//! Containers as the commands see them: the parameters a service's container
//! is created with, the request sent to create it, and the reading of what
//! the Docker daemon reports back about containers.
use vstd::prelude::*;
use crate::config::{ServiceConfig, Transport};
use crate::strmap::{keys_sorted, StrMap};
use crate::text::{
    before_first, clone_strings, decimal, join2, join3, owned, pair_views, parse_u16,
    parse_u16_spec, split_first, trim_start_char, trim_start_matches, u64_decimal, views,
};

verus! {

/// Everything needed to create a service's container.
pub struct CreateContainerParams {
    pub name: String,
    pub image: String,
    pub labels: StrMap<String>,
    pub env: Vec<String>,
    pub exposed_ports: Vec<u16>,
    pub stdin_open: bool,
    pub auto_remove: bool,
    pub command: Vec<String>,
}

/// A container as listed or inspected.
pub struct ContainerInfo {
    pub id: String,
    pub name: String,
    pub state: String,
    pub labels: StrMap<String>,
    pub ports: Vec<PortMapping>,
}

/// A container port published on a host port.
#[derive(Clone, Copy, Debug, PartialEq, Eq, Structural)]
pub struct PortMapping {
    pub container_port: u16,
    pub host_port: u16,
}

/// The name of a service's container: `mcpfile-` and the service name.
pub open spec fn container_name_of(service: Seq<char>) -> Seq<char> {
    "mcpfile-"@ + service
}

/// The name of the container of `service`.
pub fn container_name(service: &str) -> (name: String)
    ensures
        name@ == container_name_of(service@),
{
    join2("mcpfile-", service)
}

/// The label value that records a transport.
pub open spec fn transport_label(t: Transport) -> Seq<char> {
    match t {
        Transport::Sse => "sse"@,
        Transport::Stdio => "stdio"@,
    }
}

/// The environment entry `KEY=value`.
pub open spec fn env_line(e: (Seq<char>, Seq<char>)) -> Seq<char> {
    e.0 + "="@ + e.1
}

/// The environment entries of `es`, in order.
pub open spec fn env_lines(es: Seq<(Seq<char>, Seq<char>)>) -> Seq<Seq<char>> {
    es.map_values(|e: (Seq<char>, Seq<char>)| env_line(e))
}

/// The ports published: the container port of an SSE service that has one.
pub open spec fn exposed_ports_for(t: Transport, port: Option<u16>) -> Seq<u16> {
    match (t, port) {
        (Transport::Sse, Some(p)) => seq![p],
        _ => seq![],
    }
}

/// The labels of every managed container.
pub open spec fn labels_for(service_name: Seq<char>, t: Transport) -> Map<Seq<char>, Seq<char>> {
    map![
        "mcpfile.managed"@ => "true"@,
        "mcpfile.service"@ => service_name,
        "mcpfile.transport"@ => transport_label(t),
    ]
}

/// `p` holds the parameters of the container `container_name` for the service
/// `service_name` configured as `service`, with environment `env` and
/// resolved `secrets`.
pub open spec fn params_built(
    p: CreateContainerParams,
    container_name: Seq<char>,
    service_name: Seq<char>,
    service: ServiceConfig,
    env: StrMap<String>,
    secrets: StrMap<String>,
) -> bool {
    &&& p.name@ == container_name
    &&& p.image@ == service.image@
    &&& p.labels.text_map() == labels_for(service_name, service.transport)
    &&& views(p.env@) == env_lines(env.text_entries()) + env_lines(secrets.text_entries())
    &&& p.exposed_ports@ == exposed_ports_for(service.transport, service.container_port)
    &&& p.stdin_open == (service.transport == Transport::Stdio)
    &&& p.auto_remove
    &&& views(p.command@) == views(service.command@)
}

/// `KEY=value` for every entry of `m`, in key order.
fn env_entries(m: &StrMap<String>, out: &mut Vec<String>)
    ensures
        views(final(out)@) == views(old(out)@) + env_lines(m.text_entries()),
{
    let n = m.len();
    let ghost start = views(out@);
    let mut i: usize = 0;
    while i < n
        invariant
            n == m.entries().len(),
            i <= n,
            views(out@) == start + env_lines(m.text_entries().take(i as int)),
        decreases n - i,
    {
        let line = join3(m.key_at(i).as_str(), "=", m.value_at(i).as_str());
        proof {
            reveal_strlit("=");
        }
        let ghost before = out@;
        out.push(line);
        proof {
            assert(views(out@) =~= views(before).push(line@));
            assert(m.text_entries().take(i + 1) =~= m.text_entries().take(i as int).push(
                m.text_entries()[i as int],
            ));
            assert(env_lines(m.text_entries().take(i + 1)) =~= env_lines(
                m.text_entries().take(i as int),
            ).push(env_line(m.text_entries()[i as int])));
        }
        i = i + 1;
    }
    assert(m.text_entries().take(n as int) =~= m.text_entries());
}

/// The parameters of the container `container_name` for the service
/// `service_name`: its image, the `mcpfile.*` labels, the environment (the
/// service's variables in key order, then the secrets in key order), the
/// container port published for an SSE service, stdin kept open for a stdio
/// service, removal on exit, and the service's command.
#[must_use]
pub fn build_container_params(
    container_name: &str,
    service_name: &str,
    service: &ServiceConfig,
    env_vars: &StrMap<String>,
    secrets: &StrMap<String>,
) -> (p: CreateContainerParams)
    ensures
        params_built(p, container_name@, service_name@, *service, *env_vars, *secrets),
        keys_sorted(env_vars.entries()),
        keys_sorted(secrets.entries()),
{
    let mut labels: StrMap<String> = StrMap::new();
    labels.insert(owned("mcpfile.managed"), owned("true"));
    labels.insert(owned("mcpfile.service"), owned(service_name));
    let transport = match service.transport {
        Transport::Sse => "sse",
        Transport::Stdio => "stdio",
    };
    labels.insert(owned("mcpfile.transport"), owned(transport));
    proof {
        reveal_strlit("mcpfile.managed");
        reveal_strlit("mcpfile.service");
        reveal_strlit("mcpfile.transport");
        reveal_strlit("true");
        reveal_strlit("sse");
        reveal_strlit("stdio");
        assert(labels.text_map() =~= labels_for(service_name@, service.transport));
    }
    let mut env: Vec<String> = Vec::new();
    env_entries(env_vars, &mut env);
    env_entries(secrets, &mut env);
    proof {
        assert(views(Seq::<String>::empty()) =~= Seq::<Seq<char>>::empty());
    }
    let exposed_ports: Vec<u16> = match (&service.transport, service.container_port) {
        (Transport::Sse, Some(port)) => vec![port],
        _ => Vec::new(),
    };
    let stdin_open = match service.transport {
        Transport::Stdio => true,
        Transport::Sse => false,
    };
    let command = clone_strings(&service.command);
    let _ = env_vars.len();
    let _ = secrets.len();
    let p = CreateContainerParams {
        name: owned(container_name),
        image: service.image.clone(),
        labels,
        env,
        exposed_ports,
        stdin_open,
        auto_remove: true,
        command,
    };
    assert(views(p.command@) =~= views(service.command@));
    assert(p.exposed_ports@ =~= exposed_ports_for(service.transport, service.container_port));
    p
}

/// Every variable and every secret is passed to the container as a
/// `KEY=value` environment entry: the variables first, then the secrets.
pub proof fn law_env_carries_variables_and_secrets(
    p: CreateContainerParams,
    container_name: Seq<char>,
    service_name: Seq<char>,
    service: ServiceConfig,
    env: StrMap<String>,
    secrets: StrMap<String>,
    i: int,
)
    requires
        params_built(p, container_name, service_name, service, env, secrets),
    ensures
        0 <= i < env.text_entries().len() ==> views(p.env@)[i] == env_line(env.text_entries()[i]),
        0 <= i < secrets.text_entries().len() ==> views(p.env@)[env.text_entries().len() + i]
            == env_line(secrets.text_entries()[i]),
        views(p.env@).len() == env.text_entries().len() + secrets.text_entries().len(),
{
}

// ---------------------------------------------------------------------------
// The create request
// ---------------------------------------------------------------------------

/// The daemon's key for a published TCP port: the port number and `/tcp`.
pub open spec fn port_key(p: u16) -> Seq<char> {
    decimal(p as nat) + "/tcp"@
}

/// What is sent to the daemon to create a container.
pub struct CreateRequest {
    pub name: String,
    pub image: String,
    pub labels: Vec<(String, String)>,
    pub env: Vec<String>,
    pub open_stdin: bool,
    pub attach_stdin: bool,
    pub attach_stdout: bool,
    pub attach_stderr: bool,
    /// The ports exposed and published on an ephemeral host port; `None`
    /// when there is none.
    pub port_keys: Option<Vec<String>>,
    pub auto_remove: bool,
    /// The command to run; `None` keeps the image's own.
    pub cmd: Option<Vec<String>>,
}

/// The request that creates the container described by `params`: its labels
/// and environment, stdin opened and attached as the parameters say, stdout
/// and stderr attached, every exposed port published on an ephemeral host
/// port, and the command when there is one.
pub fn create_request(params: &CreateContainerParams) -> (r: CreateRequest)
    ensures
        r.name@ == params.name@,
        r.image@ == params.image@,
        pair_views(r.labels@) == params.labels.text_entries(),
        views(r.env@) == views(params.env@),
        r.open_stdin == params.stdin_open,
        r.attach_stdin == params.stdin_open,
        r.attach_stdout,
        r.attach_stderr,
        r.auto_remove == params.auto_remove,
        params.exposed_ports.len() == 0 ==> r.port_keys is None,
        params.exposed_ports.len() > 0 ==> r.port_keys is Some && views(r.port_keys->Some_0@)
            == params.exposed_ports@.map_values(|p: u16| port_key(p)),
        params.command.len() == 0 ==> r.cmd is None,
        params.command.len() > 0 ==> r.cmd is Some && views(r.cmd->Some_0@) == views(
            params.command@,
        ),
{
    let mut labels: Vec<(String, String)> = Vec::new();
    let n = params.labels.len();
    let mut i: usize = 0;
    while i < n
        invariant
            n == params.labels.entries().len(),
            i <= n,
            pair_views(labels@) == params.labels.text_entries().take(
                i as int,
            ),
        decreases n - i,
    {
        let k = params.labels.key_at(i).clone();
        let v = params.labels.value_at(i).clone();
        assert(params.labels.text_entries()[i as int] == (k@, v@));
        let ghost before = labels@;
        labels.push((k, v));
        assert(labels@ == before.push((k, v)));
        assert(pair_views(labels@) =~= pair_views(before).push((k@, v@)));
        assert(pair_views(labels@) =~= params.labels.text_entries().take(
            i + 1,
        ));
        i = i + 1;
    }
    assert(params.labels.text_entries().take(n as int) =~= params.labels.text_entries());
    let mut keys: Vec<String> = Vec::new();
    let mut j: usize = 0;
    while j < params.exposed_ports.len()
        invariant
            j <= params.exposed_ports.len(),
            views(keys@) == params.exposed_ports@.take(j as int).map_values(|p: u16| port_key(p)),
        decreases params.exposed_ports.len() - j,
    {
        let digits = u64_decimal(params.exposed_ports[j] as u64);
        let key = join2(digits.as_str(), "/tcp");
        proof {
            reveal_strlit("/tcp");
        }
        let ghost before = keys@;
        assert(key@ == port_key(params.exposed_ports@[j as int]));
        keys.push(key);
        assert(views(keys@) =~= views(before).push(key@));
        assert(views(keys@) =~= params.exposed_ports@.take(j + 1).map_values(|p: u16| port_key(p)));
        j = j + 1;
    }
    assert(params.exposed_ports@.take(j as int) =~= params.exposed_ports@);
    let port_keys = if keys.len() == 0 {
        None
    } else {
        Some(keys)
    };
    let cmd = if params.command.len() == 0 {
        None
    } else {
        Some(clone_strings(&params.command))
    };
    let r = CreateRequest {
        name: params.name.clone(),
        image: params.image.clone(),
        labels,
        env: clone_strings(&params.env),
        open_stdin: params.stdin_open,
        attach_stdin: params.stdin_open,
        attach_stdout: true,
        attach_stderr: true,
        port_keys,
        auto_remove: params.auto_remove,
        cmd,
    };
    proof {
        assert(views(r.env@) =~= views(params.env@));
        if params.command.len() > 0 {
            assert(views(r.cmd->Some_0@) =~= views(params.command@));
        }
    }
    r
}

// ---------------------------------------------------------------------------
// Reading what the daemon reports
// ---------------------------------------------------------------------------

/// The filter that selects containers whose label `label` is `value`.
pub fn label_filter(label: &str, value: &str) -> (f: String)
    ensures
        f@ == label@ + "="@ + value@,
{
    proof {
        reveal_strlit("=");
    }
    join3(label, "=", value)
}

/// The state of an inspected container.
#[derive(Clone, Copy, Debug, PartialEq, Eq, Structural)]
pub enum ContainerStatus {
    Empty,
    Created,
    Running,
    Paused,
    Restarting,
    Removing,
    Exited,
    Dead,
}

/// The state text of an inspected container: the state's name in lower case,
/// or `unknown` when the daemon gives none.
pub open spec fn state_name(s: Option<ContainerStatus>) -> Seq<char> {
    match s {
        None => "unknown"@,
        Some(ContainerStatus::Empty) => "empty"@,
        Some(ContainerStatus::Created) => "created"@,
        Some(ContainerStatus::Running) => "running"@,
        Some(ContainerStatus::Paused) => "paused"@,
        Some(ContainerStatus::Restarting) => "restarting"@,
        Some(ContainerStatus::Removing) => "removing"@,
        Some(ContainerStatus::Exited) => "exited"@,
        Some(ContainerStatus::Dead) => "dead"@,
    }
}

/// The state text for `s`.
pub fn state_text(s: Option<ContainerStatus>) -> (t: String)
    ensures
        t@ == state_name(s),
{
    match s {
        None => owned("unknown"),
        Some(ContainerStatus::Empty) => owned("empty"),
        Some(ContainerStatus::Created) => owned("created"),
        Some(ContainerStatus::Running) => owned("running"),
        Some(ContainerStatus::Paused) => owned("paused"),
        Some(ContainerStatus::Restarting) => owned("restarting"),
        Some(ContainerStatus::Removing) => owned("removing"),
        Some(ContainerStatus::Exited) => owned("exited"),
        Some(ContainerStatus::Dead) => owned("dead"),
    }
}

/// The container port of a port key such as `8080/tcp`: the number before
/// the first `/`, or 0 when that is not a port number.
pub open spec fn key_port(key: Seq<char>) -> u16 {
    match parse_u16_spec(before_first(key, '/')) {
        Some(p) => p,
        None => 0,
    }
}

/// The mappings of one key's host bindings: one for each binding whose host
/// port is a port number, in order.
pub open spec fn binding_ports(container_port: u16, bindings: Seq<Option<String>>) -> Seq<
    PortMapping,
>
    decreases bindings.len(),
{
    if bindings.len() == 0 {
        seq![]
    } else {
        let rest = binding_ports(container_port, bindings.drop_last());
        match bindings.last() {
            Some(h) => match parse_u16_spec(h@) {
                Some(hp) => rest.push(PortMapping { container_port, host_port: hp }),
                None => rest,
            },
            None => rest,
        }
    }
}

/// The mappings of an inspected container's port map, in the order of its
/// entries.
pub open spec fn inspect_ports_spec(entries: Seq<(String, Option<Vec<Option<String>>>)>) -> Seq<
    PortMapping,
>
    decreases entries.len(),
{
    if entries.len() == 0 {
        seq![]
    } else {
        let e = entries.last();
        inspect_ports_spec(entries.drop_last()) + match e.1 {
            Some(bs) => binding_ports(key_port(e.0@), bs@),
            None => seq![],
        }
    }
}

/// The published ports of an inspected container, from its port map given as
/// (port key, host bindings) entries.
pub fn inspect_ports(entries: &Vec<(String, Option<Vec<Option<String>>>)>) -> (out: Vec<PortMapping>)
    ensures
        out@ == inspect_ports_spec(entries@),
{
    let mut out: Vec<PortMapping> = Vec::new();
    let mut i: usize = 0;
    while i < entries.len()
        invariant
            i <= entries.len(),
            out@ == inspect_ports_spec(entries@.take(i as int)),
        decreases entries.len() - i,
    {
        let key = &entries[i].0;
        let cp: u16 = match parse_u16(split_first(key.as_str(), '/').as_str()) {
            Some(p) => p,
            None => 0,
        };
        assert(entries@.take(i + 1).drop_last() =~= entries@.take(i as int));
        match &entries[i].1 {
            Some(bs) => {
                let ghost base = out@;
                let mut j: usize = 0;
                while j < bs.len()
                    invariant
                        j <= bs.len(),
                        out@ == base + binding_ports(cp, bs@.take(j as int)),
                    decreases bs.len() - j,
                {
                    assert(bs@.take(j + 1).drop_last() =~= bs@.take(j as int));
                    match &bs[j] {
                        Some(h) => match parse_u16(h.as_str()) {
                            Some(hp) => {
                                out.push(PortMapping { container_port: cp, host_port: hp });
                            },
                            None => {},
                        },
                        None => {},
                    }
                    j = j + 1;
                }
                assert(bs@.take(j as int) =~= bs@);
            },
            None => {
                assert(out@ =~= out@ + Seq::<PortMapping>::empty());
            },
        }
        i = i + 1;
    }
    assert(entries@.take(i as int) =~= entries@);
    out
}

/// `s`, or the empty string.
fn or_empty(s: Option<String>) -> (out: String)
    ensures
        out@ == match s {
            Some(t) => t@,
            None => Seq::<char>::empty(),
        },
{
    match s {
        Some(t) => t,
        None => String::new(),
    }
}

/// `m`, or an empty map.
fn or_empty_map(m: Option<StrMap<String>>) -> (out: StrMap<String>)
    ensures
        out.text_map() == match m {
            Some(t) => t.text_map(),
            None => Map::<Seq<char>, Seq<char>>::empty(),
        },
        m is Some ==> out == m->Some_0,
{
    match m {
        Some(t) => t,
        None => {
            let e = StrMap::new();
            assert(e.text_map() =~= Map::<Seq<char>, Seq<char>>::empty());
            e
        },
    }
}

/// What inspecting a container reports: its id, name without the leading
/// `/`s, state text, labels and published ports (missing parts empty).
pub fn info_from_inspect(
    id: Option<String>,
    name: Option<String>,
    status: Option<ContainerStatus>,
    labels: Option<StrMap<String>>,
    port_map: Option<Vec<(String, Option<Vec<Option<String>>>)>>,
) -> (c: ContainerInfo)
    ensures
        c.id@ == (match id {
            Some(t) => t@,
            None => Seq::<char>::empty(),
        }),
        c.name@ == trim_start_char(
            match name {
                Some(t) => t@,
                None => Seq::<char>::empty(),
            },
            '/',
        ),
        c.state@ == state_name(status),
        c.labels.text_map() == (match labels {
            Some(t) => t.text_map(),
            None => Map::<Seq<char>, Seq<char>>::empty(),
        }),
        c.ports@ == (match port_map {
            Some(es) => inspect_ports_spec(es@),
            None => Seq::<PortMapping>::empty(),
        }),
{
    let raw = or_empty(name);
    let ports = match port_map {
        Some(es) => inspect_ports(&es),
        None => Vec::new(),
    };
    ContainerInfo {
        id: or_empty(id),
        name: trim_start_matches(raw.as_str(), '/'),
        state: state_text(status),
        labels: or_empty_map(labels),
        ports,
    }
}

/// The published ports of a listed container: (private, public) pairs, kept
/// where a public port is given, in order.
pub open spec fn summary_ports_spec(ports: Seq<(u16, Option<u16>)>) -> Seq<PortMapping>
    decreases ports.len(),
{
    if ports.len() == 0 {
        seq![]
    } else {
        let rest = summary_ports_spec(ports.drop_last());
        match ports.last().1 {
            Some(h) => rest.push(PortMapping { container_port: ports.last().0, host_port: h }),
            None => rest,
        }
    }
}

/// The name of a listed container: its first name without the leading
/// `/`s, or empty.
pub open spec fn summary_name(names: Option<Seq<String>>) -> Seq<char> {
    match names {
        Some(ns) => if ns.len() > 0 {
            trim_start_char(ns[0]@, '/')
        } else {
            Seq::<char>::empty()
        },
        None => Seq::<char>::empty(),
    }
}

/// What listing reports of a container: its id, first name without the
/// leading `/`s, state, labels and published ports (missing parts empty).
pub fn info_from_summary(
    id: Option<String>,
    names: Option<Vec<String>>,
    state: Option<String>,
    labels: Option<StrMap<String>>,
    ports: Option<Vec<(u16, Option<u16>)>>,
) -> (c: ContainerInfo)
    ensures
        c.id@ == (match id {
            Some(t) => t@,
            None => Seq::<char>::empty(),
        }),
        c.name@ == summary_name(
            match names {
                Some(ns) => Some(ns@),
                None => None,
            },
        ),
        c.state@ == (match state {
            Some(t) => t@,
            None => Seq::<char>::empty(),
        }),
        c.labels.text_map() == (match labels {
            Some(t) => t.text_map(),
            None => Map::<Seq<char>, Seq<char>>::empty(),
        }),
        c.ports@ == (match ports {
            Some(ps) => summary_ports_spec(ps@),
            None => Seq::<PortMapping>::empty(),
        }),
{
    let name = match &names {
        Some(ns) => if ns.len() > 0 {
            trim_start_matches(ns[0].as_str(), '/')
        } else {
            String::new()
        },
        None => String::new(),
    };
    let mut out: Vec<PortMapping> = Vec::new();
    match &ports {
        Some(ps) => {
            let mut i: usize = 0;
            while i < ps.len()
                invariant
                    i <= ps.len(),
                    out@ == summary_ports_spec(ps@.take(i as int)),
                decreases ps.len() - i,
            {
                assert(ps@.take(i + 1).drop_last() =~= ps@.take(i as int));
                let (private_port, public_port) = ps[i];
                match public_port {
                    Some(h) => out.push(PortMapping { container_port: private_port, host_port: h }),
                    None => {},
                }
                i = i + 1;
            }
            assert(ps@.take(i as int) =~= ps@);
        },
        None => {},
    }
    ContainerInfo {
        id: or_empty(id),
        name,
        state: or_empty(state),
        labels: or_empty_map(labels),
        ports: out,
    }
}

} // verus!
