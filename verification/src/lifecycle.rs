//! The container lifecycle commands (`up` for SSE and stdio services, `down`,
//! `status`) as state machines: each step names the next Docker call, or the
//! outcome, from what the last call returned. The caller performs the calls.
use vstd::prelude::*;
use crate::config::{Config, ServiceConfig, Transport};
use crate::docker::{
    build_container_params, container_name, container_name_of, params_built,
    ContainerInfo, CreateContainerParams, PortMapping,
};
use crate::strmap::{keys_sorted, StrMap};
use crate::text::{decimal, i64_decimal, join2, join3, owned, pad_right, padded, same_text, signed_decimal, u64_decimal, views};

verus! {

// ---------------------------------------------------------------------------
// Calls, replies and steps
// ---------------------------------------------------------------------------

/// A call to the Docker daemon.
pub enum DockerRequest {
    /// List all containers whose label `label` is `value`.
    ListByLabel { label: String, value: String },
    Stop { id: String },
    Remove { id: String, force: bool },
    Create { params: CreateContainerParams },
    Start { id: String },
    Inspect { id: String },
    /// Attach the terminal to the container's stdin and stdout until either
    /// side ends.
    Attach { id: String },
    /// Wait until the container stops; its exit code is the reply.
    Wait { id: String },
}

/// What a call returned; errors are the daemon's message.
pub enum DockerReply {
    Listed(Result<Vec<ContainerInfo>, String>),
    Unit(Result<(), String>),
    Created(Result<String, String>),
    Inspected(Result<ContainerInfo, String>),
    Exited(Result<i64, String>),
}

/// The next thing to do: a call, or the end with the lines to print or the
/// error.
pub enum Step {
    Call(DockerRequest),
    Finish(Result<Vec<String>, String>),
}

/// A container as the decisions read it.
pub struct InfoView {
    pub id: Seq<char>,
    pub name: Seq<char>,
    pub state: Seq<char>,
    pub labels: Map<Seq<char>, Seq<char>>,
    pub ports: Seq<PortMapping>,
}

impl View for ContainerInfo {
    type V = InfoView;

    open spec fn view(&self) -> InfoView {
        InfoView {
            id: self.id@,
            name: self.name@,
            state: self.state@,
            labels: self.labels.text_map(),
            ports: self.ports@,
        }
    }
}

pub open spec fn info_views(cs: Seq<ContainerInfo>) -> Seq<InfoView> {
    cs.map_values(|c: ContainerInfo| c@)
}

/// A call as the decisions see it; the parameters of a creation are stated
/// apart.
pub enum RequestView {
    ListByLabel(Seq<char>, Seq<char>),
    Stop(Seq<char>),
    Remove(Seq<char>, bool),
    Create,
    Start(Seq<char>),
    Inspect(Seq<char>),
    Attach(Seq<char>),
    Wait(Seq<char>),
}

impl View for DockerRequest {
    type V = RequestView;

    open spec fn view(&self) -> RequestView {
        match self {
            DockerRequest::ListByLabel { label, value } => RequestView::ListByLabel(label@, value@),
            DockerRequest::Stop { id } => RequestView::Stop(id@),
            DockerRequest::Remove { id, force } => RequestView::Remove(id@, *force),
            DockerRequest::Create { params } => RequestView::Create,
            DockerRequest::Start { id } => RequestView::Start(id@),
            DockerRequest::Inspect { id } => RequestView::Inspect(id@),
            DockerRequest::Attach { id } => RequestView::Attach(id@),
            DockerRequest::Wait { id } => RequestView::Wait(id@),
        }
    }
}

pub enum ReplyView {
    Listed(Result<Seq<InfoView>, Seq<char>>),
    Unit(Result<(), Seq<char>>),
    Created(Result<Seq<char>, Seq<char>>),
    Inspected(Result<InfoView, Seq<char>>),
    Exited(Result<int, Seq<char>>),
}

impl View for DockerReply {
    type V = ReplyView;

    open spec fn view(&self) -> ReplyView {
        match self {
            DockerReply::Listed(Ok(cs)) => ReplyView::Listed(Ok(info_views(cs@))),
            DockerReply::Listed(Err(e)) => ReplyView::Listed(Err(e@)),
            DockerReply::Unit(Ok(())) => ReplyView::Unit(Ok(())),
            DockerReply::Unit(Err(e)) => ReplyView::Unit(Err(e@)),
            DockerReply::Created(Ok(id)) => ReplyView::Created(Ok(id@)),
            DockerReply::Created(Err(e)) => ReplyView::Created(Err(e@)),
            DockerReply::Inspected(Ok(c)) => ReplyView::Inspected(Ok(c@)),
            DockerReply::Inspected(Err(e)) => ReplyView::Inspected(Err(e@)),
            DockerReply::Exited(Ok(code)) => ReplyView::Exited(Ok(*code as int)),
            DockerReply::Exited(Err(e)) => ReplyView::Exited(Err(e@)),
        }
    }
}

pub enum StepView {
    Call(RequestView),
    Finish(Result<Seq<Seq<char>>, Seq<char>>),
}

impl View for Step {
    type V = StepView;

    open spec fn view(&self) -> StepView {
        match self {
            Step::Call(r) => StepView::Call(r@),
            Step::Finish(Ok(lines)) => StepView::Finish(Ok(views(lines@))),
            Step::Finish(Err(e)) => StepView::Finish(Err(e@)),
        }
    }
}

// ---------------------------------------------------------------------------
// Shared decisions
// ---------------------------------------------------------------------------

/// Some container is in the `running` state.
pub open spec fn any_running(cs: Seq<InfoView>) -> bool {
    exists|i: int| 0 <= i < cs.len() && #[trigger] cs[i].state == "running"@
}

fn has_running(cs: &Vec<ContainerInfo>) -> (r: bool)
    ensures
        r == any_running(info_views(cs@)),
{
    let mut i: usize = 0;
    while i < cs.len()
        invariant
            i <= cs.len(),
            forall|j: int| 0 <= j < i ==> #[trigger] cs@[j].state@ != "running"@,
        decreases cs.len() - i,
    {
        if same_text(cs[i].state.as_str(), "running") {
            assert(info_views(cs@)[i as int].state == "running"@);
            return true;
        }
        i = i + 1;
    }
    assert forall|j: int| 0 <= j < cs@.len() implies #[trigger] info_views(cs@)[j].state != "running"@ by {
        assert(info_views(cs@)[j].state == cs@[j].state@);
    }
    false
}

/// The ids of `cs`, in order.
pub open spec fn ids_of(cs: Seq<InfoView>) -> Seq<Seq<char>> {
    cs.map_values(|c: InfoView| c.id)
}

fn collect_ids(cs: &Vec<ContainerInfo>) -> (ids: Vec<String>)
    ensures
        ids.len() == cs.len(),
        views(ids@) == ids_of(info_views(cs@)),
{
    let mut ids: Vec<String> = Vec::new();
    let mut i: usize = 0;
    while i < cs.len()
        invariant
            i <= cs.len(),
            views(ids@) == ids_of(info_views(cs@)).take(i as int),
            ids.len() == i,
        decreases cs.len() - i,
    {
        let ghost before = ids@;
        ids.push(cs[i].id.clone());
        assert(views(ids@) =~= views(before).push(cs@[i as int].id@));
        assert(views(ids@) =~= ids_of(info_views(cs@)).take(i + 1));
        i = i + 1;
    }
    assert(ids_of(info_views(cs@)).take(i as int) =~= ids_of(info_views(cs@)));
    ids
}

/// The address of a host port: `http://localhost:` and the port.
pub open spec fn local_url(port: u16) -> Seq<char> {
    "http://localhost:"@ + decimal(port as nat)
}

fn local_url_text(port: u16) -> (u: String)
    ensures
        u@ == local_url(port),
{
    let digits = u64_decimal(port as u64);
    proof {
        reveal_strlit("http://localhost:");
    }
    join2("http://localhost:", digits.as_str())
}

fn one_line(s: String) -> (v: Vec<String>)
    ensures
        views(v@) == seq![s@],
{
    let v = vec![s];
    assert(views(v@) =~= seq![s@]);
    v
}

// ---------------------------------------------------------------------------
// Which `up`
// ---------------------------------------------------------------------------

/// The ways `up` runs a service.
#[derive(Clone, Copy, Debug, PartialEq, Eq, Structural)]
pub enum UpMode {
    /// This process is a bridge started by `--bridge`: run the container
    /// behind the socket it was given.
    BridgeProcess,
    /// Start a detached bridge process and report its socket.
    SpawnBridge,
    /// Start an SSE service detached and report its address.
    Detached,
    /// Run a stdio service attached to the terminal.
    Foreground,
}

/// How `up` runs a service: as the bridge process when both the socket and
/// the container name are given; with `--bridge`, by starting a bridge, which
/// only a stdio service can have; otherwise as its transport says.
pub open spec fn up_mode_spec(transport: Transport, bridge: bool, bridge_process: bool) -> Result<
    UpMode,
    Seq<char>,
> {
    if bridge_process {
        Ok(UpMode::BridgeProcess)
    } else if bridge {
        match transport {
            Transport::Stdio => Ok(UpMode::SpawnBridge),
            Transport::Sse => Err("--bridge is only supported for stdio services"@),
        }
    } else {
        match transport {
            Transport::Sse => Ok(UpMode::Detached),
            Transport::Stdio => Ok(UpMode::Foreground),
        }
    }
}

/// Chooses how `up` runs a service of `transport`; `bridge` is the
/// `--bridge` flag and `bridge_process` says that both the bridge socket
/// and the bridge container name were given.
pub fn up_mode(transport: Transport, bridge: bool, bridge_process: bool) -> (r: Result<
    UpMode,
    String,
>)
    ensures
        match up_mode_spec(transport, bridge, bridge_process) {
            Ok(m) => r == Ok::<UpMode, String>(m),
            Err(e) => r is Err && r->Err_0@ == e,
        },
{
    if bridge_process {
        Ok(UpMode::BridgeProcess)
    } else if bridge {
        match transport {
            Transport::Stdio => Ok(UpMode::SpawnBridge),
            Transport::Sse => {
                proof {
                    reveal_strlit("--bridge is only supported for stdio services");
                }
                Err(owned("--bridge is only supported for stdio services"))
            },
        }
    } else {
        match transport {
            Transport::Sse => Ok(UpMode::Detached),
            Transport::Stdio => Ok(UpMode::Foreground),
        }
    }
}

// ---------------------------------------------------------------------------
// `up` for an SSE service
// ---------------------------------------------------------------------------

/// Where an SSE `up` stands.
#[derive(Clone, Copy, Debug, PartialEq, Eq, Structural)]
pub enum SsePhase {
    Begin,
    Listing,
    /// Stopping the listed container with this index.
    StoppingOld(usize),
    /// Removing the listed container with this index.
    RemovingOld(usize),
    /// Removing any container left under the service's container name.
    RemovingNamed,
    Creating,
    Starting,
    Inspecting,
    Finished,
}

pub struct SseView {
    pub phase: SsePhase,
    pub service_name: Seq<char>,
    pub container: Seq<char>,
    pub force: bool,
    pub old_ids: Seq<Seq<char>>,
    pub id: Seq<char>,
}

/// The line printed once the service runs: its address from the first
/// published port, or a note that the port is unknown.
pub open spec fn running_message(service: Seq<char>, ports: Seq<PortMapping>) -> Seq<char> {
    if ports.len() > 0 {
        service + " is running on "@ + local_url(ports[0].host_port)
    } else {
        service + " is running (could not determine port)"@
    }
}

/// After the listed containers before `i` are stopped and removed: the next
/// one is stopped, or, with none left, the named container is removed.
pub open spec fn sse_after_old(s: SseView, i: int) -> (SseView, StepView) {
    if i < s.old_ids.len() {
        (
            SseView { phase: SsePhase::StoppingOld(i as usize), ..s },
            StepView::Call(RequestView::Stop(s.old_ids[i])),
        )
    } else {
        (
            SseView { phase: SsePhase::RemovingNamed, ..s },
            StepView::Call(RequestView::Remove(s.container, true)),
        )
    }
}

pub open spec fn sse_finish(s: SseView, outcome: Result<Seq<Seq<char>>, Seq<char>>) -> (
    SseView,
    StepView,
) {
    (SseView { phase: SsePhase::Finished, ..s }, StepView::Finish(outcome))
}

/// The first step: list the containers of the service.
pub open spec fn sse_start(s: SseView) -> (SseView, StepView) {
    (
        SseView { phase: SsePhase::Listing, ..s },
        StepView::Call(RequestView::ListByLabel("mcpfile.service"@, s.service_name)),
    )
}

/// The reply that the step in phase `p` waits for.
pub open spec fn sse_accepts(p: SsePhase, r: ReplyView) -> bool {
    match p {
        SsePhase::Listing => r is Listed,
        SsePhase::StoppingOld(_) | SsePhase::RemovingOld(_) | SsePhase::RemovingNamed
        | SsePhase::Starting => r is Unit,
        SsePhase::Creating => r is Created,
        SsePhase::Inspecting => r is Inspected,
        SsePhase::Begin | SsePhase::Finished => false,
    }
}

/// One step of an SSE `up`. A running service is left alone unless forced;
/// forced, every listed container is stopped and removed, whatever those
/// calls return. Then the container under the service's name is removed
/// (whatever that returns), a new one is created, started and inspected, and
/// its address is reported. A failed listing, creation, start or inspection
/// ends the command with that error.
pub open spec fn sse_next(s: SseView, r: ReplyView) -> (SseView, StepView) {
    match s.phase {
        SsePhase::Listing => match r {
            ReplyView::Listed(Err(e)) => sse_finish(s, Err(e)),
            ReplyView::Listed(Ok(cs)) => if any_running(cs) && !s.force {
                sse_finish(s, Ok(seq![s.service_name + " is already running"@]))
            } else if any_running(cs) {
                sse_after_old(SseView { old_ids: ids_of(cs), ..s }, 0)
            } else {
                (
                    SseView { phase: SsePhase::RemovingNamed, ..s },
                    StepView::Call(RequestView::Remove(s.container, true)),
                )
            },
            _ => (s, StepView::Finish(Err(seq![]))),
        },
        SsePhase::StoppingOld(i) => (
            SseView { phase: SsePhase::RemovingOld(i), ..s },
            StepView::Call(RequestView::Remove(s.old_ids[i as int], true)),
        ),
        SsePhase::RemovingOld(i) => sse_after_old(s, i + 1),
        SsePhase::RemovingNamed => (
            SseView { phase: SsePhase::Creating, ..s },
            StepView::Call(RequestView::Create),
        ),
        SsePhase::Creating => match r {
            ReplyView::Created(Err(e)) => sse_finish(s, Err(e)),
            ReplyView::Created(Ok(id)) => (
                SseView { phase: SsePhase::Starting, id, ..s },
                StepView::Call(RequestView::Start(id)),
            ),
            _ => (s, StepView::Finish(Err(seq![]))),
        },
        SsePhase::Starting => match r {
            ReplyView::Unit(Err(e)) => sse_finish(s, Err(e)),
            _ => (
                SseView { phase: SsePhase::Inspecting, ..s },
                StepView::Call(RequestView::Inspect(s.id)),
            ),
        },
        SsePhase::Inspecting => match r {
            ReplyView::Inspected(Err(e)) => sse_finish(s, Err(e)),
            ReplyView::Inspected(Ok(c)) => sse_finish(
                s,
                Ok(seq![running_message(s.service_name, c.ports)]),
            ),
            _ => (s, StepView::Finish(Err(seq![]))),
        },
        SsePhase::Begin | SsePhase::Finished => (s, StepView::Finish(Err(seq![]))),
    }
}

/// `up` for an SSE service.
pub struct UpSse {
    service_name: String,
    container: String,
    force: bool,
    params: Option<CreateContainerParams>,
    old_ids: Vec<String>,
    id: String,
    phase: SsePhase,
}

impl View for UpSse {
    type V = SseView;

    closed spec fn view(&self) -> SseView {
        SseView {
            phase: self.phase,
            service_name: self.service_name@,
            container: self.container@,
            force: self.force,
            old_ids: views(self.old_ids@),
            id: self.id@,
        }
    }
}

impl UpSse {
    #[verifier::type_invariant]
    closed spec fn well_formed(self) -> bool {
        match self.phase {
            SsePhase::StoppingOld(i) | SsePhase::RemovingOld(i) => i < self.old_ids.len()
                && self.params is Some,
            SsePhase::Begin | SsePhase::Listing | SsePhase::RemovingNamed => self.params is Some,
            _ => true,
        }
    }

    /// The parameters the container will be created with, until it is.
    pub closed spec fn pending(&self) -> Option<CreateContainerParams> {
        self.params
    }

    /// Prepares `up` for `service_name` with the given environment and
    /// secrets; `force` recreates a running service.
    pub fn new(
        service_name: &str,
        service: &ServiceConfig,
        env_vars: &StrMap<String>,
        secrets: &StrMap<String>,
        force: bool,
    ) -> (m: UpSse)
        ensures
            m@ == (SseView {
                phase: SsePhase::Begin,
                service_name: service_name@,
                container: container_name_of(service_name@),
                force,
                old_ids: seq![],
                id: seq![],
            }),
            m.pending() is Some,
            params_built(
                m.pending()->Some_0,
                container_name_of(service_name@),
                service_name@,
                *service,
                *env_vars,
                *secrets,
            ),
    {
        let name = container_name(service_name);
        let params = build_container_params(name.as_str(), service_name, service, env_vars, secrets);
        let m = UpSse {
            service_name: owned(service_name),
            container: name,
            force,
            params: Some(params),
            old_ids: Vec::new(),
            id: String::new(),
            phase: SsePhase::Begin,
        };
        assert(m@.old_ids =~= Seq::<Seq<char>>::empty());
        m
    }

    /// Whether the command has ended.
    pub fn is_finished(&self) -> (b: bool)
        ensures
            b == (self@.phase == SsePhase::Finished),
    {
        self.phase == SsePhase::Finished
    }

    /// The first step.
    pub fn start(&mut self) -> (out: Step)
        requires
            old(self)@.phase == SsePhase::Begin,
        ensures
            (final(self)@, out@) == sse_start(old(self)@),
            final(self).pending() == old(self).pending(),
    {
        proof {
            use_type_invariant(&*self);
            reveal_strlit("mcpfile.service");
        }
        self.phase = SsePhase::Listing;
        Step::Call(
            DockerRequest::ListByLabel {
                label: owned("mcpfile.service"),
                value: self.service_name.clone(),
            },
        )
    }

    fn after_old(&mut self, i: usize) -> (out: Step)
        requires
            i <= old(self).old_ids.len(),
            old(self).params is Some,
        ensures
            (final(self)@, out@) == sse_after_old(old(self)@, i as int),
            final(self).pending() == old(self).pending(),
    {
        if i < self.old_ids.len() {
            self.phase = SsePhase::StoppingOld(i);
            Step::Call(DockerRequest::Stop { id: self.old_ids[i].clone() })
        } else {
            self.phase = SsePhase::RemovingNamed;
            Step::Call(DockerRequest::Remove { id: self.container.clone(), force: true })
        }
    }

    fn finish(&mut self, outcome: Result<Vec<String>, String>) -> (out: Step)
        ensures
            final(self)@ == (SseView { phase: SsePhase::Finished, ..old(self)@ }),
            final(self).pending() == old(self).pending(),
            out == Step::Finish(outcome),
    {
        self.phase = SsePhase::Finished;
        Step::Finish(outcome)
    }

    /// The next step, given what the last call returned.
    pub fn step(&mut self, reply: DockerReply) -> (out: Step)
        requires
            sse_accepts(old(self)@.phase, reply@),
        ensures
            (final(self)@, out@) == sse_next(old(self)@, reply@),
            out matches Step::Call(DockerRequest::Create { params }) ==> old(self).pending() == Some(
                params,
            ) && final(self).pending() is None,
            !(out matches Step::Call(DockerRequest::Create { .. })) ==> final(self).pending() == old(
                self,
            ).pending(),
    {
        proof {
            use_type_invariant(&*self);
        }
        match self.phase {
            SsePhase::Listing => {
                match reply {
                    DockerReply::Listed(Err(e)) => self.finish(Err(e)),
                    DockerReply::Listed(Ok(cs)) => {
                        let running = has_running(&cs);
                        if running && !self.force {
                            proof {
                                reveal_strlit(" is already running");
                            }
                            let line = join2(self.service_name.as_str(), " is already running");
                            self.finish(Ok(one_line(line)))
                        } else if running {
                            let ids = collect_ids(&cs);
                            self.old_ids = ids;
                            proof {
                                assert(self@ == (SseView { old_ids: ids_of(info_views(cs@)), ..old(self)@ }));
                            }
                            self.after_old(0)
                        } else {
                            self.phase = SsePhase::RemovingNamed;
                            Step::Call(DockerRequest::Remove { id: self.container.clone(), force: true })
                        }
                    },
                    _ => {
                        assert(false);
                        self.finish(Ok(Vec::new()))
                    },
                }
            },
            SsePhase::StoppingOld(i) => {
                self.phase = SsePhase::RemovingOld(i);
                Step::Call(DockerRequest::Remove { id: self.old_ids[i].clone(), force: true })
            },
            SsePhase::RemovingOld(i) => self.after_old(i + 1),
            SsePhase::RemovingNamed => {
                self.phase = SsePhase::Creating;
                let mut taken: Option<CreateContainerParams> = None;
                std::mem::swap(&mut taken, &mut self.params);
                match taken {
                    Some(params) => Step::Call(DockerRequest::Create { params }),
                    None => {
                        assert(false);
                        self.finish(Ok(Vec::new()))
                    },
                }
            },
            SsePhase::Creating => {
                match reply {
                    DockerReply::Created(Err(e)) => self.finish(Err(e)),
                    DockerReply::Created(Ok(id)) => {
                        self.id = id.clone();
                        self.phase = SsePhase::Starting;
                        Step::Call(DockerRequest::Start { id })
                    },
                    _ => {
                        assert(false);
                        self.finish(Ok(Vec::new()))
                    },
                }
            },
            SsePhase::Starting => {
                match reply {
                    DockerReply::Unit(Err(e)) => self.finish(Err(e)),
                    _ => {
                        self.phase = SsePhase::Inspecting;
                        Step::Call(DockerRequest::Inspect { id: self.id.clone() })
                    },
                }
            },
            SsePhase::Inspecting => {
                match reply {
                    DockerReply::Inspected(Err(e)) => self.finish(Err(e)),
                    DockerReply::Inspected(Ok(c)) => {
                        let line = if c.ports.len() > 0 {
                            let url = local_url_text(c.ports[0].host_port);
                            proof {
                                reveal_strlit(" is running on ");
                            }
                            join3(self.service_name.as_str(), " is running on ", url.as_str())
                        } else {
                            proof {
                                reveal_strlit(" is running (could not determine port)");
                            }
                            join2(self.service_name.as_str(), " is running (could not determine port)")
                        };
                        self.finish(Ok(one_line(line)))
                    },
                    _ => {
                        assert(false);
                        self.finish(Ok(Vec::new()))
                    },
                }
            },
            _ => {
                assert(false);
                self.finish(Ok(Vec::new()))
            },
        }
    }
}

// ---------------------------------------------------------------------------
// `up` for a stdio service, in the foreground
// ---------------------------------------------------------------------------

/// Where a foreground `up` stands.
#[derive(Clone, Copy, Debug, PartialEq, Eq, Structural)]
pub enum FgPhase {
    Begin,
    RemovingNamed,
    Creating,
    Starting,
    Attached,
    Waiting,
    Finished,
}

pub struct FgView {
    pub phase: FgPhase,
    pub container: Seq<char>,
    pub id: Seq<char>,
}

/// The error for a container that exited with a non-zero code.
pub open spec fn exit_error(code: int) -> Seq<char> {
    "container exited with code "@ + signed_decimal(code)
}

pub open spec fn fg_finish(s: FgView, outcome: Result<Seq<Seq<char>>, Seq<char>>) -> (
    FgView,
    StepView,
) {
    (FgView { phase: FgPhase::Finished, ..s }, StepView::Finish(outcome))
}

/// The first step: remove any container left under the service's name.
pub open spec fn fg_start(s: FgView) -> (FgView, StepView) {
    (
        FgView { phase: FgPhase::RemovingNamed, ..s },
        StepView::Call(RequestView::Remove(s.container, true)),
    )
}

/// The reply that the step in phase `p` waits for.
pub open spec fn fg_accepts(p: FgPhase, r: ReplyView) -> bool {
    match p {
        FgPhase::RemovingNamed | FgPhase::Starting | FgPhase::Attached => r is Unit,
        FgPhase::Creating => r is Created,
        FgPhase::Waiting => r is Exited,
        FgPhase::Begin | FgPhase::Finished => false,
    }
}

/// One step of a foreground `up`: after the old container is removed
/// (whatever that returns), a new one is created, started and attached to
/// the terminal; when the terminal session ends the exit code is awaited, and
/// a non-zero code is an error. Any other failure ends the command with it.
pub open spec fn fg_next(s: FgView, r: ReplyView) -> (FgView, StepView) {
    match s.phase {
        FgPhase::RemovingNamed => (
            FgView { phase: FgPhase::Creating, ..s },
            StepView::Call(RequestView::Create),
        ),
        FgPhase::Creating => match r {
            ReplyView::Created(Err(e)) => fg_finish(s, Err(e)),
            ReplyView::Created(Ok(id)) => (
                FgView { phase: FgPhase::Starting, id, ..s },
                StepView::Call(RequestView::Start(id)),
            ),
            _ => (s, StepView::Finish(Err(seq![]))),
        },
        FgPhase::Starting => match r {
            ReplyView::Unit(Err(e)) => fg_finish(s, Err(e)),
            _ => (
                FgView { phase: FgPhase::Attached, ..s },
                StepView::Call(RequestView::Attach(s.id)),
            ),
        },
        FgPhase::Attached => match r {
            ReplyView::Unit(Err(e)) => fg_finish(s, Err(e)),
            _ => (FgView { phase: FgPhase::Waiting, ..s }, StepView::Call(RequestView::Wait(s.id))),
        },
        FgPhase::Waiting => match r {
            ReplyView::Exited(Err(e)) => fg_finish(s, Err(e)),
            ReplyView::Exited(Ok(code)) => if code != 0 {
                fg_finish(s, Err(exit_error(code)))
            } else {
                fg_finish(s, Ok(seq![]))
            },
            _ => (s, StepView::Finish(Err(seq![]))),
        },
        FgPhase::Begin | FgPhase::Finished => (s, StepView::Finish(Err(seq![]))),
    }
}

/// `up` for a stdio service, attached to the terminal.
pub struct UpForeground {
    container: String,
    params: Option<CreateContainerParams>,
    id: String,
    phase: FgPhase,
}

impl View for UpForeground {
    type V = FgView;

    closed spec fn view(&self) -> FgView {
        FgView { phase: self.phase, container: self.container@, id: self.id@ }
    }
}

impl UpForeground {
    #[verifier::type_invariant]
    closed spec fn well_formed(self) -> bool {
        match self.phase {
            FgPhase::Begin | FgPhase::RemovingNamed => self.params is Some,
            _ => true,
        }
    }

    /// The parameters the container will be created with, until it is.
    pub closed spec fn pending(&self) -> Option<CreateContainerParams> {
        self.params
    }

    /// Prepares a foreground `up` for `service_name`.
    pub fn new(
        service_name: &str,
        service: &ServiceConfig,
        env_vars: &StrMap<String>,
        secrets: &StrMap<String>,
    ) -> (m: UpForeground)
        ensures
            m@ == (FgView {
                phase: FgPhase::Begin,
                container: container_name_of(service_name@),
                id: seq![],
            }),
            m.pending() is Some,
            params_built(
                m.pending()->Some_0,
                container_name_of(service_name@),
                service_name@,
                *service,
                *env_vars,
                *secrets,
            ),
    {
        let name = container_name(service_name);
        let params = build_container_params(name.as_str(), service_name, service, env_vars, secrets);
        UpForeground { container: name, params: Some(params), id: String::new(), phase: FgPhase::Begin }
    }

    /// Whether the command has ended.
    pub fn is_finished(&self) -> (b: bool)
        ensures
            b == (self@.phase == FgPhase::Finished),
    {
        self.phase == FgPhase::Finished
    }

    /// The first step.
    pub fn start(&mut self) -> (out: Step)
        requires
            old(self)@.phase == FgPhase::Begin,
        ensures
            (final(self)@, out@) == fg_start(old(self)@),
            final(self).pending() == old(self).pending(),
    {
        proof {
            use_type_invariant(&*self);
        }
        self.phase = FgPhase::RemovingNamed;
        Step::Call(DockerRequest::Remove { id: self.container.clone(), force: true })
    }

    fn finish(&mut self, outcome: Result<Vec<String>, String>) -> (out: Step)
        ensures
            final(self)@ == (FgView { phase: FgPhase::Finished, ..old(self)@ }),
            final(self).pending() == old(self).pending(),
            out == Step::Finish(outcome),
    {
        self.phase = FgPhase::Finished;
        Step::Finish(outcome)
    }

    /// The next step, given what the last call returned.
    pub fn step(&mut self, reply: DockerReply) -> (out: Step)
        requires
            fg_accepts(old(self)@.phase, reply@),
        ensures
            (final(self)@, out@) == fg_next(old(self)@, reply@),
            out matches Step::Call(DockerRequest::Create { params }) ==> old(self).pending() == Some(
                params,
            ) && final(self).pending() is None,
            !(out matches Step::Call(DockerRequest::Create { .. })) ==> final(self).pending() == old(
                self,
            ).pending(),
    {
        proof {
            use_type_invariant(&*self);
        }
        match self.phase {
            FgPhase::RemovingNamed => {
                self.phase = FgPhase::Creating;
                let mut taken: Option<CreateContainerParams> = None;
                std::mem::swap(&mut taken, &mut self.params);
                match taken {
                    Some(params) => Step::Call(DockerRequest::Create { params }),
                    None => {
                        assert(false);
                        self.finish(Ok(Vec::new()))
                    },
                }
            },
            FgPhase::Creating => {
                match reply {
                    DockerReply::Created(Err(e)) => self.finish(Err(e)),
                    DockerReply::Created(Ok(id)) => {
                        self.id = id.clone();
                        self.phase = FgPhase::Starting;
                        Step::Call(DockerRequest::Start { id })
                    },
                    _ => {
                        assert(false);
                        self.finish(Ok(Vec::new()))
                    },
                }
            },
            FgPhase::Starting => {
                match reply {
                    DockerReply::Unit(Err(e)) => self.finish(Err(e)),
                    _ => {
                        self.phase = FgPhase::Attached;
                        Step::Call(DockerRequest::Attach { id: self.id.clone() })
                    },
                }
            },
            FgPhase::Attached => {
                match reply {
                    DockerReply::Unit(Err(e)) => self.finish(Err(e)),
                    _ => {
                        self.phase = FgPhase::Waiting;
                        Step::Call(DockerRequest::Wait { id: self.id.clone() })
                    },
                }
            },
            FgPhase::Waiting => {
                match reply {
                    DockerReply::Exited(Err(e)) => self.finish(Err(e)),
                    DockerReply::Exited(Ok(code)) => {
                        if code != 0 {
                            let digits = i64_decimal(code);
                            proof {
                                reveal_strlit("container exited with code ");
                            }
                            let msg = join2("container exited with code ", digits.as_str());
                            self.finish(Err(msg))
                        } else {
                            let none: Vec<String> = Vec::new();
                            assert(views(none@) =~= Seq::<Seq<char>>::empty());
                            let out = self.finish(Ok(none));
                            assert(out@ == StepView::Finish(Ok(Seq::<Seq<char>>::empty())));
                            out
                        }
                    },
                    _ => {
                        assert(false);
                        self.finish(Ok(Vec::new()))
                    },
                }
            },
            _ => {
                assert(false);
                self.finish(Ok(Vec::new()))
            },
        }
    }
}

// ---------------------------------------------------------------------------
// `down`
// ---------------------------------------------------------------------------

/// Where a `down` stands.
#[derive(Clone, Copy, Debug, PartialEq, Eq, Structural)]
pub enum DownPhase {
    Begin,
    Listing,
    /// Stopping the listed container with this index.
    Stopping(usize),
    Finished,
}

pub struct DownView {
    pub phase: DownPhase,
    pub service_name: Seq<char>,
    pub ids: Seq<Seq<char>>,
}

/// The line printed after stopping `n` containers of `service`.
pub open spec fn stopped_message(service: Seq<char>, n: nat) -> Seq<char> {
    service + " stopped ("@ + decimal(n) + " instance"@ + (if n == 1 {
        ""@
    } else {
        "s"@
    }) + ")"@
}

pub open spec fn down_finish(s: DownView, outcome: Result<Seq<Seq<char>>, Seq<char>>) -> (
    DownView,
    StepView,
) {
    (DownView { phase: DownPhase::Finished, ..s }, StepView::Finish(outcome))
}

/// The first step: list the containers of the service.
pub open spec fn down_start(s: DownView) -> (DownView, StepView) {
    (
        DownView { phase: DownPhase::Listing, ..s },
        StepView::Call(RequestView::ListByLabel("mcpfile.service"@, s.service_name)),
    )
}

/// The reply that the step in phase `p` waits for.
pub open spec fn down_accepts(p: DownPhase, r: ReplyView) -> bool {
    match p {
        DownPhase::Listing => r is Listed,
        DownPhase::Stopping(_) => r is Unit,
        DownPhase::Begin | DownPhase::Finished => false,
    }
}

/// One step of `down`: every listed container is stopped in turn, whatever
/// each stop returns, and the count is reported; with none listed the
/// service is reported as not running.
pub open spec fn down_next(s: DownView, r: ReplyView) -> (DownView, StepView) {
    match s.phase {
        DownPhase::Listing => match r {
            ReplyView::Listed(Err(e)) => down_finish(s, Err(e)),
            ReplyView::Listed(Ok(cs)) => if cs.len() == 0 {
                down_finish(s, Ok(seq![s.service_name + " is not running"@]))
            } else {
                (
                    DownView { phase: DownPhase::Stopping(0), ids: ids_of(cs), ..s },
                    StepView::Call(RequestView::Stop(cs[0].id)),
                )
            },
            _ => (s, StepView::Finish(Err(seq![]))),
        },
        DownPhase::Stopping(i) => if i + 1 < s.ids.len() {
            (
                DownView { phase: DownPhase::Stopping((i + 1) as usize), ..s },
                StepView::Call(RequestView::Stop(s.ids[i + 1])),
            )
        } else {
            down_finish(s, Ok(seq![stopped_message(s.service_name, s.ids.len())]))
        },
        DownPhase::Begin | DownPhase::Finished => (s, StepView::Finish(Err(seq![]))),
    }
}

/// `down` for a service.
pub struct Down {
    service_name: String,
    ids: Vec<String>,
    phase: DownPhase,
}

impl View for Down {
    type V = DownView;

    closed spec fn view(&self) -> DownView {
        DownView { phase: self.phase, service_name: self.service_name@, ids: views(self.ids@) }
    }
}

impl Down {
    #[verifier::type_invariant]
    closed spec fn well_formed(self) -> bool {
        match self.phase {
            DownPhase::Stopping(i) => i < self.ids.len(),
            _ => true,
        }
    }

    /// Prepares `down` for `service_name`.
    pub fn new(service_name: &str) -> (m: Down)
        ensures
            m@ == (DownView { phase: DownPhase::Begin, service_name: service_name@, ids: seq![] }),
    {
        let m = Down { service_name: owned(service_name), ids: Vec::new(), phase: DownPhase::Begin };
        assert(m@.ids =~= Seq::<Seq<char>>::empty());
        m
    }

    /// Whether the command has ended.
    pub fn is_finished(&self) -> (b: bool)
        ensures
            b == (self@.phase == DownPhase::Finished),
    {
        self.phase == DownPhase::Finished
    }

    /// The first step.
    pub fn start(&mut self) -> (out: Step)
        requires
            old(self)@.phase == DownPhase::Begin,
        ensures
            (final(self)@, out@) == down_start(old(self)@),
    {
        proof {
            reveal_strlit("mcpfile.service");
        }
        self.phase = DownPhase::Listing;
        Step::Call(
            DockerRequest::ListByLabel {
                label: owned("mcpfile.service"),
                value: self.service_name.clone(),
            },
        )
    }

    fn finish(&mut self, outcome: Result<Vec<String>, String>) -> (out: Step)
        ensures
            final(self)@ == (DownView { phase: DownPhase::Finished, ..old(self)@ }),
            out == Step::Finish(outcome),
    {
        self.phase = DownPhase::Finished;
        Step::Finish(outcome)
    }

    /// The next step, given what the last call returned.
    pub fn step(&mut self, reply: DockerReply) -> (out: Step)
        requires
            down_accepts(old(self)@.phase, reply@),
        ensures
            (final(self)@, out@) == down_next(old(self)@, reply@),
    {
        proof {
            use_type_invariant(&*self);
        }
        match self.phase {
            DownPhase::Listing => {
                match reply {
                    DockerReply::Listed(Err(e)) => self.finish(Err(e)),
                    DockerReply::Listed(Ok(cs)) => {
                        if cs.len() == 0 {
                            proof {
                                reveal_strlit(" is not running");
                            }
                            let line = join2(self.service_name.as_str(), " is not running");
                            self.finish(Ok(one_line(line)))
                        } else {
                            let ids = collect_ids(&cs);
                            let first = ids[0].clone();
                            assert(views(ids@)[0] == ids_of(info_views(cs@))[0]);
                            assert(first@ == info_views(cs@)[0].id);
                            self.ids = ids;
                            self.phase = DownPhase::Stopping(0);
                            Step::Call(DockerRequest::Stop { id: first })
                        }
                    },
                    _ => {
                        assert(false);
                        self.finish(Ok(Vec::new()))
                    },
                }
            },
            DownPhase::Stopping(i) => {
                assert(views(self.ids@).len() == self.ids.len());
                if i + 1 < self.ids.len() {
                    assert(views(self.ids@)[i + 1] == self.ids@[i + 1]@);
                    self.phase = DownPhase::Stopping(i + 1);
                    Step::Call(DockerRequest::Stop { id: self.ids[i + 1].clone() })
                } else {
                    let n = self.ids.len();
                    let count = u64_decimal(n as u64);
                    let plural = if n == 1 {
                        ""
                    } else {
                        "s"
                    };
                    proof {
                        reveal_strlit(" stopped (");
                        reveal_strlit(" instance");
                        reveal_strlit("");
                        reveal_strlit("s");
                        reveal_strlit(")");
                    }
                    let a = join3(self.service_name.as_str(), " stopped (", count.as_str());
                    let b = join3(a.as_str(), " instance", plural);
                    let line = join2(b.as_str(), ")");
                    assert(line@ == stopped_message(old(self)@.service_name, old(self)@.ids.len()));
                    self.finish(Ok(one_line(line)))
                }
            },
            _ => {
                assert(false);
                self.finish(Ok(Vec::new()))
            },
        }
    }
}

// ---------------------------------------------------------------------------
// `status`
// ---------------------------------------------------------------------------

/// The service a managed container belongs to: its `mcpfile.service` label,
/// else its name.
pub open spec fn service_key(c: InfoView) -> Seq<char> {
    if c.labels.contains_key("mcpfile.service"@) {
        c.labels["mcpfile.service"@]
    } else {
        c.name
    }
}

/// Where a container can be reached: the address of its first published
/// port, or `-`.
pub open spec fn endpoint_text(ports: Seq<PortMapping>) -> Seq<char> {
    if ports.len() > 0 {
        local_url(ports[0].host_port)
    } else {
        "-"@
    }
}

/// The state and endpoint of the last container of `cs` that belongs to
/// `name` (a later container of the same service replaces an earlier one).
pub open spec fn last_state(cs: Seq<InfoView>, name: Seq<char>) -> Option<(Seq<char>, Seq<char>)>
    decreases cs.len(),
{
    if cs.len() == 0 {
        None
    } else if service_key(cs.last()) == name {
        Some((cs.last().state, endpoint_text(cs.last().ports)))
    } else {
        last_state(cs.drop_last(), name)
    }
}

/// The heading of the status table.
pub open spec fn status_header() -> Seq<char> {
    pad_right("SERVICE"@, 15) + " "@ + pad_right("STATUS"@, 10) + " ENDPOINT"@
}

/// The row of service `name`: its name, state and endpoint in columns;
/// `stopped` and `-` when no container belongs to it.
pub open spec fn status_row(name: Seq<char>, cs: Seq<InfoView>) -> Seq<char> {
    let (state, endpoint) = match last_state(cs, name) {
        Some(p) => p,
        None => ("stopped"@, "-"@),
    };
    pad_right(name, 15) + " "@ + pad_right(state, 10) + " "@ + endpoint
}

/// The status table: the heading, then one row per service in the order of
/// `names`.
pub open spec fn status_table(names: Seq<Seq<char>>, cs: Seq<InfoView>) -> Seq<Seq<char>> {
    seq![status_header()] + names.map_values(|n: Seq<char>| status_row(n, cs))
}

fn service_key_of(c: &ContainerInfo) -> (k: String)
    ensures
        k@ == service_key(c@),
{
    proof {
        reveal_strlit("mcpfile.service");
    }
    match c.labels.get("mcpfile.service") {
        Some(v) => v.clone(),
        None => c.name.clone(),
    }
}

fn endpoint_of(ports: &Vec<PortMapping>) -> (e: String)
    ensures
        e@ == endpoint_text(ports@),
{
    if ports.len() > 0 {
        local_url_text(ports[0].host_port)
    } else {
        proof {
            reveal_strlit("-");
        }
        owned("-")
    }
}

fn last_state_of(cs: &Vec<ContainerInfo>, name: &str) -> (r: Option<(String, String)>)
    ensures
        match last_state(info_views(cs@), name@) {
            Some(p) => r is Some && r->Some_0.0@ == p.0 && r->Some_0.1@ == p.1,
            None => r is None,
        },
{
    let ghost all = info_views(cs@);
    let mut i: usize = cs.len();
    assert(all.take(i as int) =~= all);
    while i > 0
        invariant
            i <= cs.len(),
            all == info_views(cs@),
            last_state(all, name@) == last_state(all.take(i as int), name@),
        decreases i,
    {
        let key = service_key_of(&cs[i - 1]);
        assert(all.take(i as int).last() == all[i - 1]);
        assert(all.take(i as int).drop_last() =~= all.take(i - 1));
        if same_text(key.as_str(), name) {
            let state = cs[i - 1].state.clone();
            let endpoint = endpoint_of(&cs[i - 1].ports);
            return Some((state, endpoint));
        }
        i = i - 1;
    }
    None
}

fn status_row_of(name: &str, cs: &Vec<ContainerInfo>) -> (row: String)
    ensures
        row@ == status_row(name@, info_views(cs@)),
{
    let (state, endpoint) = match last_state_of(cs, name) {
        Some(p) => p,
        None => {
            proof {
                reveal_strlit("stopped");
                reveal_strlit("-");
            }
            (owned("stopped"), owned("-"))
        },
    };
    proof {
        reveal_strlit(" ");
    }
    let a = padded(name, 15);
    let b = padded(state.as_str(), 10);
    let left = join3(a.as_str(), " ", b.as_str());
    join3(left.as_str(), " ", endpoint.as_str())
}

/// The status table for the services `names`, from the managed containers
/// `cs`.
pub fn status_lines(names: &Vec<String>, cs: &Vec<ContainerInfo>) -> (lines: Vec<String>)
    ensures
        views(lines@) == status_table(views(names@), info_views(cs@)),
{
    proof {
        reveal_strlit("SERVICE");
        reveal_strlit("STATUS");
        reveal_strlit(" ");
        reveal_strlit(" ENDPOINT");
    }
    let a = padded("SERVICE", 15);
    let b = padded("STATUS", 10);
    let left = join3(a.as_str(), " ", b.as_str());
    let header = join2(left.as_str(), " ENDPOINT");
    let mut lines: Vec<String> = Vec::new();
    lines.push(header);
    let mut i: usize = 0;
    while i < names.len()
        invariant
            i <= names.len(),
            views(lines@) == seq![status_header()] + views(names@).take(i as int).map_values(
                |n: Seq<char>| status_row(n, info_views(cs@)),
            ),
        decreases names.len() - i,
    {
        let row = status_row_of(names[i].as_str(), cs);
        let ghost before = lines@;
        lines.push(row);
        proof {
            assert(views(lines@) =~= views(before).push(row@));
            assert(views(names@).take(i + 1) =~= views(names@).take(i as int).push(names@[i as int]@));
            assert(views(lines@) =~= seq![status_header()] + views(names@).take(i + 1).map_values(
                |n: Seq<char>| status_row(n, info_views(cs@)),
            ));
        }
        i = i + 1;
    }
    assert(views(names@).take(i as int) =~= views(names@));
    lines
}

/// Where a `status` stands.
#[derive(Clone, Copy, Debug, PartialEq, Eq, Structural)]
pub enum StatusPhase {
    Begin,
    Listing,
    Finished,
}

pub struct StatusView {
    pub phase: StatusPhase,
    pub names: Seq<Seq<char>>,
}

/// The first step: list the managed containers.
pub open spec fn status_start(s: StatusView) -> (StatusView, StepView) {
    (
        StatusView { phase: StatusPhase::Listing, ..s },
        StepView::Call(RequestView::ListByLabel("mcpfile.managed"@, "true"@)),
    )
}

/// After the listing: the table, or the listing's error.
pub open spec fn status_next(s: StatusView, r: ReplyView) -> (StatusView, StepView) {
    match r {
        ReplyView::Listed(Ok(cs)) => (
            StatusView { phase: StatusPhase::Finished, ..s },
            StepView::Finish(Ok(status_table(s.names, cs))),
        ),
        ReplyView::Listed(Err(e)) => (
            StatusView { phase: StatusPhase::Finished, ..s },
            StepView::Finish(Err(e)),
        ),
        _ => (s, StepView::Finish(Err(seq![]))),
    }
}

/// `status` over the configured services.
pub struct Status {
    names: Vec<String>,
    phase: StatusPhase,
}

impl View for Status {
    type V = StatusView;

    closed spec fn view(&self) -> StatusView {
        StatusView { phase: self.phase, names: views(self.names@) }
    }
}

impl Status {
    /// Prepares `status` for the services of `config`, in key order.
    pub fn new(config: &Config) -> (m: Status)
        ensures
            m@ == (StatusView { phase: StatusPhase::Begin, names: config.services.keys() }),
            keys_sorted(config.services.entries()),
    {
        let names = config.service_names();
        Status { names, phase: StatusPhase::Begin }
    }

    /// The first step.
    pub fn start(&mut self) -> (out: Step)
        requires
            old(self)@.phase == StatusPhase::Begin,
        ensures
            (final(self)@, out@) == status_start(old(self)@),
    {
        proof {
            reveal_strlit("mcpfile.managed");
            reveal_strlit("true");
        }
        self.phase = StatusPhase::Listing;
        Step::Call(DockerRequest::ListByLabel { label: owned("mcpfile.managed"), value: owned("true") })
    }

    /// The outcome, given the listing.
    pub fn step(&mut self, reply: DockerReply) -> (out: Step)
        requires
            old(self)@.phase == StatusPhase::Listing,
            reply@ is Listed,
        ensures
            (final(self)@, out@) == status_next(old(self)@, reply@),
    {
        self.phase = StatusPhase::Finished;
        match reply {
            DockerReply::Listed(Ok(cs)) => Step::Finish(Ok(status_lines(&self.names, &cs))),
            DockerReply::Listed(Err(e)) => Step::Finish(Err(e)),
            _ => Step::Finish(Ok(Vec::new())),
        }
    }
}

// ---------------------------------------------------------------------------
// Laws over whole runs
// ---------------------------------------------------------------------------

/// The steps an SSE `up` in state `s` takes for the replies `rs`, in order.
pub open spec fn sse_run(s: SseView, rs: Seq<ReplyView>) -> Seq<StepView>
    decreases rs.len(),
{
    if rs.len() == 0 {
        seq![]
    } else {
        let (t, out) = sse_next(s, rs[0]);
        seq![out] + sse_run(t, rs.drop_first())
    }
}

/// The steps a `down` in state `s` takes for the replies `rs`, in order.
pub open spec fn down_run(s: DownView, rs: Seq<ReplyView>) -> Seq<StepView>
    decreases rs.len(),
{
    if rs.len() == 0 {
        seq![]
    } else {
        let (t, out) = down_next(s, rs[0]);
        seq![out] + down_run(t, rs.drop_first())
    }
}

/// Stop then remove (forcibly) each container of `ids` from index `i` on.
pub open spec fn stop_remove_calls(ids: Seq<Seq<char>>, i: int) -> Seq<StepView>
    decreases ids.len() - i,
{
    if i < 0 || i >= ids.len() {
        seq![]
    } else {
        seq![
            StepView::Call(RequestView::Stop(ids[i])),
            StepView::Call(RequestView::Remove(ids[i], true)),
        ] + stop_remove_calls(ids, i + 1)
    }
}

/// Every reply of `us` answers a call without a result (stop, remove, start).
pub open spec fn all_unit(us: Seq<ReplyView>) -> bool {
    forall|k: int| 0 <= k < us.len() ==> #[trigger] us[k] is Unit
}

proof fn lemma_sse_old_run(s: SseView, us: Seq<ReplyView>, i: int)
    requires
        s.phase == SsePhase::StoppingOld(i as usize),
        0 <= i < s.old_ids.len(),
        s.old_ids.len() <= usize::MAX,
        us.len() == 2 * (s.old_ids.len() - i) + 1,
        all_unit(us),
    ensures
        sse_run(s, us) == seq![StepView::Call(RequestView::Remove(s.old_ids[i], true))]
            + stop_remove_calls(s.old_ids, i + 1) + seq![
            StepView::Call(RequestView::Remove(s.container, true)),
            StepView::Call(RequestView::Create),
        ],
    decreases s.old_ids.len() - i,
{
    let (t1, o1) = sse_next(s, us[0]);
    assert(us[0] is Unit);
    let r1 = us.drop_first();
    assert(r1[0] == us[1]);
    let (t2, o2) = sse_next(t1, r1[0]);
    let r2 = r1.drop_first();
    assert(sse_run(s, us) == seq![o1] + sse_run(t1, r1));
    assert(sse_run(t1, r1) == seq![o2] + sse_run(t2, r2));
    if i + 1 < s.old_ids.len() {
        assert(all_unit(r2)) by {
            assert forall|k: int| 0 <= k < r2.len() implies #[trigger] r2[k] is Unit by {
                assert(r2[k] == us[k + 2]);
            }
        }
        lemma_sse_old_run(t2, r2, i + 1);
        assert(stop_remove_calls(s.old_ids, i + 1) == seq![
            StepView::Call(RequestView::Stop(s.old_ids[i + 1])),
            StepView::Call(RequestView::Remove(s.old_ids[i + 1], true)),
        ] + stop_remove_calls(s.old_ids, i + 2));
        assert(sse_run(s, us) =~= seq![StepView::Call(RequestView::Remove(s.old_ids[i], true))]
            + stop_remove_calls(s.old_ids, i + 1) + seq![
            StepView::Call(RequestView::Remove(s.container, true)),
            StepView::Call(RequestView::Create),
        ]);
    } else {
        assert(r2.len() == 1);
        let (t3, o3) = sse_next(t2, r2[0]);
        assert(sse_run(t2, r2) == seq![o3] + sse_run(t3, r2.drop_first()));
        assert(r2.drop_first().len() == 0);
        assert(stop_remove_calls(s.old_ids, i + 1) == Seq::<StepView>::empty());
        assert(sse_run(s, us) =~= seq![StepView::Call(RequestView::Remove(s.old_ids[i], true))]
            + stop_remove_calls(s.old_ids, i + 1) + seq![
            StepView::Call(RequestView::Remove(s.container, true)),
            StepView::Call(RequestView::Create),
        ]);
    }
}

/// `up --force` on a running SSE service: every listed container is stopped
/// and then removed, one after the other and whatever those calls return;
/// then the container under the service's name is removed and the new one is
/// created.
pub proof fn law_forced_up_replaces_listed(s: SseView, cs: Seq<InfoView>, us: Seq<ReplyView>)
    requires
        s.phase == SsePhase::Listing,
        s.force,
        any_running(cs),
        cs.len() <= usize::MAX,
        us.len() == 2 * cs.len() + 1,
        all_unit(us),
    ensures
        sse_run(s, seq![ReplyView::Listed(Ok(cs))] + us) == stop_remove_calls(ids_of(cs), 0) + seq![
            StepView::Call(RequestView::Remove(s.container, true)),
            StepView::Call(RequestView::Create),
        ],
{
    let rs = seq![ReplyView::Listed(Ok(cs))] + us;
    assert(rs[0] == ReplyView::Listed(Ok(cs)));
    assert(rs.drop_first() =~= us);
    let k = choose|k: int| 0 <= k < cs.len() && #[trigger] cs[k].state == "running"@;
    assert(cs.len() > 0);
    let (t, o) = sse_next(s, rs[0]);
    assert(t.old_ids == ids_of(cs));
    assert(t.phase == SsePhase::StoppingOld(0));
    lemma_sse_old_run(t, us, 0);
    assert(stop_remove_calls(ids_of(cs), 0) == seq![
        StepView::Call(RequestView::Stop(ids_of(cs)[0])),
        StepView::Call(RequestView::Remove(ids_of(cs)[0], true)),
    ] + stop_remove_calls(ids_of(cs), 1));
    assert(sse_run(s, rs) == seq![o] + sse_run(t, us));
    assert(sse_run(s, rs) =~= stop_remove_calls(ids_of(cs), 0) + seq![
        StepView::Call(RequestView::Remove(s.container, true)),
        StepView::Call(RequestView::Create),
    ]);
}

/// `up` without `--force` on a running SSE service reports that it is
/// already running and ends there: no other call is made.
pub proof fn law_up_leaves_running_service(s: SseView, cs: Seq<InfoView>)
    requires
        s.phase == SsePhase::Listing,
        !s.force,
        any_running(cs),
    ensures
        sse_next(s, ReplyView::Listed(Ok(cs))).0.phase == SsePhase::Finished,
        sse_next(s, ReplyView::Listed(Ok(cs))).1 == StepView::Finish(
            Ok(seq![s.service_name + " is already running"@]),
        ),
{
}

/// `up` on an SSE service that is not running makes no stop call: it removes
/// the container under the service's name and then creates the new one.
pub proof fn law_up_starts_stopped_service(s: SseView, cs: Seq<InfoView>, u: ReplyView)
    requires
        s.phase == SsePhase::Listing,
        !any_running(cs),
        u is Unit,
    ensures
        sse_run(s, seq![ReplyView::Listed(Ok(cs)), u]) == seq![
            StepView::Call(RequestView::Remove(s.container, true)),
            StepView::Call(RequestView::Create),
        ],
{
    let rs = seq![ReplyView::Listed(Ok(cs)), u];
    let (t, o) = sse_next(s, rs[0]);
    assert(rs.drop_first() =~= seq![u]);
    let (t2, o2) = sse_next(t, u);
    assert(sse_run(t, seq![u]) == seq![o2] + sse_run(t2, seq![u].drop_first()));
    assert(seq![u].drop_first().len() == 0);
    assert(sse_run(s, rs) =~= seq![o, o2]);
}

proof fn lemma_down_run(s: DownView, us: Seq<ReplyView>, i: int)
    requires
        s.phase == DownPhase::Stopping(i as usize),
        0 <= i < s.ids.len(),
        s.ids.len() <= usize::MAX,
        us.len() == s.ids.len() - i,
        all_unit(us),
    ensures
        down_run(s, us) == s.ids.subrange(i + 1, s.ids.len() as int).map_values(
            |id: Seq<char>| StepView::Call(RequestView::Stop(id)),
        ) + seq![StepView::Finish(Ok(seq![stopped_message(s.service_name, s.ids.len())]))],
    decreases s.ids.len() - i,
{
    let (t, o) = down_next(s, us[0]);
    let rest = us.drop_first();
    assert(down_run(s, us) == seq![o] + down_run(t, rest));
    if i + 1 < s.ids.len() {
        assert(all_unit(rest)) by {
            assert forall|k: int| 0 <= k < rest.len() implies #[trigger] rest[k] is Unit by {
                assert(rest[k] == us[k + 1]);
            }
        }
        lemma_down_run(t, rest, i + 1);
        assert(down_run(s, us) =~= s.ids.subrange(i + 1, s.ids.len() as int).map_values(
            |id: Seq<char>| StepView::Call(RequestView::Stop(id)),
        ) + seq![StepView::Finish(Ok(seq![stopped_message(s.service_name, s.ids.len())]))]);
    } else {
        assert(rest.len() == 0);
        assert(down_run(s, us) =~= s.ids.subrange(i + 1, s.ids.len() as int).map_values(
            |id: Seq<char>| StepView::Call(RequestView::Stop(id)),
        ) + seq![StepView::Finish(Ok(seq![stopped_message(s.service_name, s.ids.len())]))]);
    }
}

/// `down` stops every listed container of the service exactly once, in the
/// order listed and whatever each stop returns, then reports how many it
/// stopped.
pub proof fn law_down_stops_each_listed(s: DownView, cs: Seq<InfoView>, us: Seq<ReplyView>)
    requires
        s.phase == DownPhase::Listing,
        0 < cs.len() <= usize::MAX,
        us.len() == cs.len(),
        all_unit(us),
    ensures
        down_run(s, seq![ReplyView::Listed(Ok(cs))] + us) == ids_of(cs).map_values(
            |id: Seq<char>| StepView::Call(RequestView::Stop(id)),
        ) + seq![StepView::Finish(Ok(seq![stopped_message(s.service_name, cs.len())]))],
{
    let rs = seq![ReplyView::Listed(Ok(cs))] + us;
    assert(rs[0] == ReplyView::Listed(Ok(cs)));
    assert(rs.drop_first() =~= us);
    let (t, o) = down_next(s, rs[0]);
    assert(t.ids == ids_of(cs));
    lemma_down_run(t, us, 0);
    assert(down_run(s, rs) == seq![o] + down_run(t, us));
    assert(down_run(s, rs) =~= ids_of(cs).map_values(
        |id: Seq<char>| StepView::Call(RequestView::Stop(id)),
    ) + seq![StepView::Finish(Ok(seq![stopped_message(s.service_name, cs.len())]))]);
}

/// `down` of a service with no container says so and makes no other call.
pub proof fn law_down_without_containers(s: DownView)
    requires
        s.phase == DownPhase::Listing,
    ensures
        down_next(s, ReplyView::Listed(Ok(seq![]))) == down_finish(
            s,
            Ok(seq![s.service_name + " is not running"@]),
        ),
{
}

/// In the status table every configured service has exactly one row, in the
/// order given, and a service without a container shows as stopped without
/// an endpoint.
pub proof fn law_status_one_row_per_service(names: Seq<Seq<char>>, cs: Seq<InfoView>, i: int)
    requires
        0 <= i < names.len(),
    ensures
        status_table(names, cs).len() == names.len() + 1,
        status_table(names, cs)[i + 1] == status_row(names[i], cs),
        last_state(cs, names[i]) is None ==> status_table(names, cs)[i + 1] == pad_right(
            names[i],
            15,
        ) + " "@ + pad_right("stopped"@, 10) + " "@ + "-"@,
{
}

/// How `up` runs is decided by the bridge arguments first: when both the
/// bridge socket and the bridge container name are given, `up` runs as the
/// bridge process whatever the transport and the `--bridge` flag. Without
/// them, `--bridge` starts a bridge for a stdio service and is refused for
/// an SSE service, and a plain `up` runs an SSE service detached and a stdio
/// service in the foreground.
pub proof fn law_up_mode_choice(t: Transport, bridge: bool)
    ensures
        up_mode_spec(t, bridge, true) == Ok::<UpMode, Seq<char>>(UpMode::BridgeProcess),
        up_mode_spec(t, true, false) is Err <==> t == Transport::Sse,
        t == Transport::Stdio ==> up_mode_spec(t, true, false) == Ok::<UpMode, Seq<char>>(
            UpMode::SpawnBridge,
        ),
        up_mode_spec(t, false, false) == Ok::<UpMode, Seq<char>>(
            if t == Transport::Sse {
                UpMode::Detached
            } else {
                UpMode::Foreground
            },
        ),
{
}

/// In an SSE `up`, a failed listing, creation, start or inspection ends the
/// command at once with that error and no further call; a failed stop or
/// removal of an old container is ignored: the command goes on as if it
/// had succeeded.
pub proof fn law_sse_failures(s: SseView, e: Seq<char>)
    ensures
        s.phase == SsePhase::Listing ==> sse_next(s, ReplyView::Listed(Err(e))) == (
            (SseView { phase: SsePhase::Finished, ..s }),
            StepView::Finish(Err(e)),
        ),
        s.phase == SsePhase::Creating ==> sse_next(s, ReplyView::Created(Err(e))) == (
            (SseView { phase: SsePhase::Finished, ..s }),
            StepView::Finish(Err(e)),
        ),
        s.phase == SsePhase::Starting ==> sse_next(s, ReplyView::Unit(Err(e))) == (
            (SseView { phase: SsePhase::Finished, ..s }),
            StepView::Finish(Err(e)),
        ),
        s.phase == SsePhase::Inspecting ==> sse_next(s, ReplyView::Inspected(Err(e))) == (
            (SseView { phase: SsePhase::Finished, ..s }),
            StepView::Finish(Err(e)),
        ),
        (s.phase is StoppingOld || s.phase is RemovingOld || s.phase == SsePhase::RemovingNamed)
            ==> sse_next(s, ReplyView::Unit(Err(e))) == sse_next(s, ReplyView::Unit(Ok(()))),
{
}

/// In a foreground `up`, a failed creation, start, attach or wait ends the
/// command at once with that error; a failed removal of the old container
/// is ignored; once the container exits, the command succeeds exactly when
/// the exit code is 0.
pub proof fn law_foreground_failures(s: FgView, e: Seq<char>, code: int)
    ensures
        s.phase == FgPhase::Creating ==> fg_next(s, ReplyView::Created(Err(e))) == (
            (FgView { phase: FgPhase::Finished, ..s }),
            StepView::Finish(Err(e)),
        ),
        (s.phase == FgPhase::Starting || s.phase == FgPhase::Attached) ==> fg_next(
            s,
            ReplyView::Unit(Err(e)),
        ) == ((FgView { phase: FgPhase::Finished, ..s }), StepView::Finish(Err(e))),
        s.phase == FgPhase::Waiting ==> fg_next(s, ReplyView::Exited(Err(e))) == (
            (FgView { phase: FgPhase::Finished, ..s }),
            StepView::Finish(Err(e)),
        ),
        s.phase == FgPhase::RemovingNamed ==> fg_next(s, ReplyView::Unit(Err(e))) == fg_next(
            s,
            ReplyView::Unit(Ok(())),
        ),
        s.phase == FgPhase::Waiting ==> (fg_next(s, ReplyView::Exited(Ok(code))).1 is Finish && (
        fg_next(s, ReplyView::Exited(Ok(code))).1 matches StepView::Finish(Ok(_)) <==> code == 0)),
{
}

/// A container that carries the label `mcpfile.service` counts for the
/// service that label names, whatever the container's own name; one without
/// the label counts by its name. The row of a service shows the state and
/// endpoint of the last listed container that counts for it, and a container
/// that counts for another service leaves the row as it was.
pub proof fn law_status_counts_by_service_label(cs: Seq<InfoView>, c: InfoView, name: Seq<char>)
    ensures
        c.labels.contains_key("mcpfile.service"@) ==> service_key(c) == c.labels["mcpfile.service"@],
        !c.labels.contains_key("mcpfile.service"@) ==> service_key(c) == c.name,
        service_key(c) == name ==> status_row(name, cs.push(c)) == pad_right(name, 15) + " "@
            + pad_right(c.state, 10) + " "@ + endpoint_text(c.ports),
        service_key(c) != name ==> status_row(name, cs.push(c)) == status_row(name, cs),
{
    assert(cs.push(c).last() == c);
    assert(cs.push(c).drop_last() =~= cs);
}

} // verus!
