//! The `--bridge` mode of a stdio service: the names of its socket, log and
//! container, the command line of the detached bridge process, the wait for
//! its socket to appear, and the run of the bridge process itself.
use vstd::prelude::*;
use crate::config::{join_path, join_relative};
use crate::config::ServiceConfig;
use crate::docker::{build_container_params, params_built, CreateContainerParams};
use crate::lifecycle::{DockerReply, ReplyView};
use crate::strmap::StrMap;
use crate::text::{hex8, hex_digits, join2, join3, owned, views};

verus! {

/// How many times the socket is looked for before giving up.
pub const BRIDGE_CHECKS: u32 = 50;

/// The pause after each look for the socket, in milliseconds.
pub const BRIDGE_CHECK_INTERVAL_MS: u64 = 100;

/// The suffix that tells bridge instances apart: the low 32 bits of `hash`
/// as eight lowercase hexadecimal digits.
pub fn bridge_suffix(hash: u64) -> (s: String)
    ensures
        s@ == hex_digits(hash as nat, 8),
        s@.len() == 8,
{
    hex8(hash)
}

/// `mcpfile-<service>-<suffix>`, the stem of the names of a bridge instance.
pub open spec fn instance_stem(service: Seq<char>, suffix: Seq<char>) -> Seq<char> {
    "mcpfile-"@ + service + "-"@ + suffix
}

/// The container of a bridge instance.
pub fn bridge_container_name(service: &str, suffix: &str) -> (n: String)
    ensures
        n@ == instance_stem(service@, suffix@),
{
    proof {
        reveal_strlit("mcpfile-");
        reveal_strlit("-");
    }
    let head = join3("mcpfile-", service, "-");
    join2(head.as_str(), suffix)
}

/// The socket of a bridge instance, in the directory `tmp`.
pub fn bridge_socket_path(tmp: &str, service: &str, suffix: &str) -> (p: String)
    ensures
        p@ == join_path(tmp@, instance_stem(service@, suffix@) + ".sock"@),
{
    proof {
        reveal_strlit(".sock");
    }
    let stem = bridge_container_name(service, suffix);
    let file = join2(stem.as_str(), ".sock");
    join_relative(tmp, file.as_str())
}

/// The log of a bridge instance, in the directory `tmp`.
pub fn bridge_log_path(tmp: &str, service: &str, suffix: &str) -> (p: String)
    ensures
        p@ == join_path(tmp@, instance_stem(service@, suffix@) + ".log"@),
{
    proof {
        reveal_strlit(".log");
    }
    let stem = bridge_container_name(service, suffix);
    let file = join2(stem.as_str(), ".log");
    join_relative(tmp, file.as_str())
}

/// The arguments of the bridge process: the configuration file when one was
/// given, then `up <service> --bridge-socket <socket> --bridge-name
/// <container>`.
pub open spec fn bridge_args_spec(
    config: Option<Seq<char>>,
    service: Seq<char>,
    socket: Seq<char>,
    container: Seq<char>,
) -> Seq<Seq<char>> {
    let head = match config {
        Some(c) => seq!["-c"@, c],
        None => seq![],
    };
    head + seq![
        "up"@,
        service,
        "--bridge-socket"@,
        socket,
        "--bridge-name"@,
        container,
    ]
}

/// The arguments the bridge process is started with.
pub fn bridge_args(config: Option<&str>, service: &str, socket: &str, container: &str) -> (args: Vec<
    String,
>)
    ensures
        views(args@) == bridge_args_spec(
            match config {
                Some(c) => Some(c@),
                None => None,
            },
            service@,
            socket@,
            container@,
        ),
{
    proof {
        reveal_strlit("-c");
        reveal_strlit("up");
        reveal_strlit("--bridge-socket");
        reveal_strlit("--bridge-name");
    }
    let mut args: Vec<String> = Vec::new();
    match config {
        Some(c) => {
            args.push(owned("-c"));
            args.push(owned(c));
        },
        None => {},
    }
    let ghost head = views(args@);
    args.push(owned("up"));
    args.push(owned(service));
    args.push(owned("--bridge-socket"));
    args.push(owned(socket));
    args.push(owned("--bridge-name"));
    args.push(owned(container));
    assert(views(args@) =~= bridge_args_spec(
        match config {
            Some(c) => Some(c@),
            None => None,
        },
        service@,
        socket@,
        container@,
    ));
    args
}

/// What to do after a look for the socket.
#[derive(Clone, Copy, Debug, PartialEq, Eq, Structural)]
pub enum WaitAction {
    /// The socket is there: report it.
    Ready,
    /// Pause, then look again.
    SleepThenCheck,
    /// Pause, then give up.
    SleepThenGiveUp,
}

/// After the `check`-th look (counting from 1): the socket found ends the
/// wait; otherwise pause, and look again unless this was the last look.
pub open spec fn wait_action(check: u32, exists: bool) -> WaitAction {
    if exists {
        WaitAction::Ready
    } else if check < BRIDGE_CHECKS {
        WaitAction::SleepThenCheck
    } else {
        WaitAction::SleepThenGiveUp
    }
}

/// Decides what follows the `check`-th look for the socket.
pub fn bridge_wait(check: u32, exists: bool) -> (a: WaitAction)
    ensures
        a == wait_action(check, exists),
{
    if exists {
        WaitAction::Ready
    } else if check < BRIDGE_CHECKS {
        WaitAction::SleepThenCheck
    } else {
        WaitAction::SleepThenGiveUp
    }
}

/// The socket is looked for at most fifty times: the fiftieth look never
/// leads to another, and a look before it that fails always does.
pub proof fn law_bridge_wait_is_bounded(check: u32, exists: bool)
    requires
        1 <= check,
    ensures
        check >= BRIDGE_CHECKS ==> wait_action(check, exists) != WaitAction::SleepThenCheck,
        check < BRIDGE_CHECKS && !exists ==> wait_action(check, exists)
            == WaitAction::SleepThenCheck,
        exists ==> wait_action(check, exists) == WaitAction::Ready,
{
}

/// The error when the socket never appeared, pointing at the log.
pub fn bridge_failed_message(log: &str) -> (m: String)
    ensures
        m@ == "bridge failed to start — check "@ + log@,
{
    proof {
        reveal_strlit("bridge failed to start — check ");
    }
    join2("bridge failed to start — check ", log)
}


// ---------------------------------------------------------------------------
// The bridge process
// ---------------------------------------------------------------------------

/// What the bridge process asks its caller to do.
pub enum BridgeRequest {
    /// Create the container with these parameters.
    Create { params: CreateContainerParams },
    Start { id: String },
    /// Attach to the container's stdin and stdout and keep both streams for
    /// serving.
    OpenStreams { id: String },
    /// Bind the Unix socket at `path` and serve clients over the kept
    /// streams until the container's output ends.
    ServeSocket { path: String },
    /// Wait until the container stops.
    Wait { id: String },
}

/// The next thing to do: a request, or the end with its outcome.
pub enum BridgeStep {
    Call(BridgeRequest),
    Finish(Result<(), String>),
}

/// A request as the decisions see it; the parameters of a creation are
/// stated apart.
pub enum BridgeRequestView {
    Create,
    Start(Seq<char>),
    OpenStreams(Seq<char>),
    ServeSocket(Seq<char>),
    Wait(Seq<char>),
}

impl View for BridgeRequest {
    type V = BridgeRequestView;

    open spec fn view(&self) -> BridgeRequestView {
        match self {
            BridgeRequest::Create { params } => BridgeRequestView::Create,
            BridgeRequest::Start { id } => BridgeRequestView::Start(id@),
            BridgeRequest::OpenStreams { id } => BridgeRequestView::OpenStreams(id@),
            BridgeRequest::ServeSocket { path } => BridgeRequestView::ServeSocket(path@),
            BridgeRequest::Wait { id } => BridgeRequestView::Wait(id@),
        }
    }
}

pub enum BridgeStepView {
    Call(BridgeRequestView),
    Finish(Result<(), Seq<char>>),
}

impl View for BridgeStep {
    type V = BridgeStepView;

    open spec fn view(&self) -> BridgeStepView {
        match self {
            BridgeStep::Call(r) => BridgeStepView::Call(r@),
            BridgeStep::Finish(Ok(())) => BridgeStepView::Finish(Ok(())),
            BridgeStep::Finish(Err(e)) => BridgeStepView::Finish(Err(e@)),
        }
    }
}

/// Where the bridge process stands.
#[derive(Clone, Copy, Debug, PartialEq, Eq, Structural)]
pub enum BridgePhase {
    Begin,
    Creating,
    Starting,
    Opening,
    Serving,
    Waiting,
    Finished,
}

pub struct BridgeView {
    pub phase: BridgePhase,
    pub socket: Seq<char>,
    pub id: Seq<char>,
}

pub open spec fn bridge_finish(s: BridgeView, outcome: Result<(), Seq<char>>) -> (
    BridgeView,
    BridgeStepView,
) {
    (BridgeView { phase: BridgePhase::Finished, ..s }, BridgeStepView::Finish(outcome))
}

/// The first step: create the container.
pub open spec fn bridge_start(s: BridgeView) -> (BridgeView, BridgeStepView) {
    (BridgeView { phase: BridgePhase::Creating, ..s }, BridgeStepView::Call(BridgeRequestView::Create))
}

/// The reply that the step in phase `p` waits for.
pub open spec fn bridge_accepts(p: BridgePhase, r: ReplyView) -> bool {
    match p {
        BridgePhase::Creating => r is Created,
        BridgePhase::Starting | BridgePhase::Opening | BridgePhase::Serving => r is Unit,
        BridgePhase::Waiting => r is Exited,
        BridgePhase::Begin | BridgePhase::Finished => false,
    }
}

/// One step of the bridge process: the container is created, started and
/// attached to, the socket is served until the container's output ends,
/// and then the container is awaited. Every failure before the wait ends
/// the run with it; whatever the wait returns, the run succeeds.
pub open spec fn bridge_next(s: BridgeView, r: ReplyView) -> (BridgeView, BridgeStepView) {
    match s.phase {
        BridgePhase::Creating => match r {
            ReplyView::Created(Err(e)) => bridge_finish(s, Err(e)),
            ReplyView::Created(Ok(id)) => (
                BridgeView { phase: BridgePhase::Starting, id, ..s },
                BridgeStepView::Call(BridgeRequestView::Start(id)),
            ),
            _ => (s, BridgeStepView::Finish(Err(seq![]))),
        },
        BridgePhase::Starting => match r {
            ReplyView::Unit(Err(e)) => bridge_finish(s, Err(e)),
            _ => (
                BridgeView { phase: BridgePhase::Opening, ..s },
                BridgeStepView::Call(BridgeRequestView::OpenStreams(s.id)),
            ),
        },
        BridgePhase::Opening => match r {
            ReplyView::Unit(Err(e)) => bridge_finish(s, Err(e)),
            _ => (
                BridgeView { phase: BridgePhase::Serving, ..s },
                BridgeStepView::Call(BridgeRequestView::ServeSocket(s.socket)),
            ),
        },
        BridgePhase::Serving => match r {
            ReplyView::Unit(Err(e)) => bridge_finish(s, Err(e)),
            _ => (
                BridgeView { phase: BridgePhase::Waiting, ..s },
                BridgeStepView::Call(BridgeRequestView::Wait(s.id)),
            ),
        },
        BridgePhase::Waiting => bridge_finish(s, Ok(())),
        BridgePhase::Begin | BridgePhase::Finished => (s, BridgeStepView::Finish(Err(seq![]))),
    }
}

/// The bridge process of a stdio service: its container behind a Unix
/// socket.
pub struct BridgeRun {
    socket: String,
    params: Option<CreateContainerParams>,
    id: String,
    phase: BridgePhase,
}

impl View for BridgeRun {
    type V = BridgeView;

    closed spec fn view(&self) -> BridgeView {
        BridgeView { phase: self.phase, socket: self.socket@, id: self.id@ }
    }
}

impl BridgeRun {
    #[verifier::type_invariant]
    closed spec fn well_formed(self) -> bool {
        match self.phase {
            BridgePhase::Begin => self.params is Some,
            _ => true,
        }
    }

    /// The parameters the container will be created with, until it is.
    pub closed spec fn pending(&self) -> Option<CreateContainerParams> {
        self.params
    }

    /// Prepares the bridge process of `service_name`: its container is
    /// `container_name` and its socket `socket_path`.
    pub fn new(
        service_name: &str,
        container_name: &str,
        socket_path: &str,
        service: &ServiceConfig,
        env_vars: &StrMap<String>,
        secrets: &StrMap<String>,
    ) -> (m: BridgeRun)
        ensures
            m@ == (BridgeView { phase: BridgePhase::Begin, socket: socket_path@, id: seq![] }),
            m.pending() is Some,
            params_built(
                m.pending()->Some_0,
                container_name@,
                service_name@,
                *service,
                *env_vars,
                *secrets,
            ),
    {
        let params = build_container_params(container_name, service_name, service, env_vars, secrets);
        BridgeRun {
            socket: owned(socket_path),
            params: Some(params),
            id: String::new(),
            phase: BridgePhase::Begin,
        }
    }

    /// Whether the run has ended.
    pub fn is_finished(&self) -> (b: bool)
        ensures
            b == (self@.phase == BridgePhase::Finished),
    {
        self.phase == BridgePhase::Finished
    }

    /// The first step: create the container with the pending parameters.
    pub fn start(&mut self) -> (out: BridgeStep)
        requires
            old(self)@.phase == BridgePhase::Begin,
        ensures
            (final(self)@, out@) == bridge_start(old(self)@),
            out matches BridgeStep::Call(BridgeRequest::Create { params }) && old(self).pending()
                == Some(params),
            final(self).pending() is None,
    {
        proof {
            use_type_invariant(&*self);
        }
        self.phase = BridgePhase::Creating;
        let mut taken: Option<CreateContainerParams> = None;
        std::mem::swap(&mut taken, &mut self.params);
        match taken {
            Some(params) => BridgeStep::Call(BridgeRequest::Create { params }),
            None => {
                assert(false);
                BridgeStep::Finish(Ok(()))
            },
        }
    }

    fn finish(&mut self, outcome: Result<(), String>) -> (out: BridgeStep)
        ensures
            final(self)@ == (BridgeView { phase: BridgePhase::Finished, ..old(self)@ }),
            final(self).pending() == old(self).pending(),
            out == BridgeStep::Finish(outcome),
    {
        self.phase = BridgePhase::Finished;
        BridgeStep::Finish(outcome)
    }

    /// The next step, given what the last request returned.
    pub fn step(&mut self, reply: DockerReply) -> (out: BridgeStep)
        requires
            bridge_accepts(old(self)@.phase, reply@),
        ensures
            (final(self)@, out@) == bridge_next(old(self)@, reply@),
            final(self).pending() == old(self).pending(),
    {
        proof {
            use_type_invariant(&*self);
        }
        match self.phase {
            BridgePhase::Creating => match reply {
                DockerReply::Created(Err(e)) => self.finish(Err(e)),
                DockerReply::Created(Ok(id)) => {
                    self.id = id.clone();
                    self.phase = BridgePhase::Starting;
                    BridgeStep::Call(BridgeRequest::Start { id })
                },
                _ => {
                    assert(false);
                    self.finish(Ok(()))
                },
            },
            BridgePhase::Starting => match reply {
                DockerReply::Unit(Err(e)) => self.finish(Err(e)),
                _ => {
                    self.phase = BridgePhase::Opening;
                    BridgeStep::Call(BridgeRequest::OpenStreams { id: self.id.clone() })
                },
            },
            BridgePhase::Opening => match reply {
                DockerReply::Unit(Err(e)) => self.finish(Err(e)),
                _ => {
                    self.phase = BridgePhase::Serving;
                    BridgeStep::Call(BridgeRequest::ServeSocket { path: self.socket.clone() })
                },
            },
            BridgePhase::Serving => match reply {
                DockerReply::Unit(Err(e)) => self.finish(Err(e)),
                _ => {
                    self.phase = BridgePhase::Waiting;
                    BridgeStep::Call(BridgeRequest::Wait { id: self.id.clone() })
                },
            },
            BridgePhase::Waiting => self.finish(Ok(())),
            _ => {
                assert(false);
                self.finish(Ok(()))
            },
        }
    }
}

/// The requests of a bridge run whose every request succeeds, the
/// container getting the id `id`, and whose wait returns `w`: create,
/// start, attach, serve the socket, wait, and success.
pub proof fn law_bridge_run_in_order(s: BridgeView, id: Seq<char>, w: ReplyView)
    requires
        s.phase == BridgePhase::Begin,
        w is Exited,
    ensures
        ({
            let (s1, o1) = bridge_start(s);
            let (s2, o2) = bridge_next(s1, ReplyView::Created(Ok(id)));
            let (s3, o3) = bridge_next(s2, ReplyView::Unit(Ok(())));
            let (s4, o4) = bridge_next(s3, ReplyView::Unit(Ok(())));
            let (s5, o5) = bridge_next(s4, ReplyView::Unit(Ok(())));
            let (s6, o6) = bridge_next(s5, w);
            &&& o1 == BridgeStepView::Call(BridgeRequestView::Create)
            &&& o2 == BridgeStepView::Call(BridgeRequestView::Start(id))
            &&& o3 == BridgeStepView::Call(BridgeRequestView::OpenStreams(id))
            &&& o4 == BridgeStepView::Call(BridgeRequestView::ServeSocket(s.socket))
            &&& o5 == BridgeStepView::Call(BridgeRequestView::Wait(id))
            &&& o6 == BridgeStepView::Finish(Ok(()))
            &&& s6.phase == BridgePhase::Finished
        }),
{
}

/// A failure before the wait ends the bridge run with that failure; the
/// wait's outcome, an error or any exit code, never fails it.
pub proof fn law_bridge_failures_and_wait(s: BridgeView, e: Seq<char>, w: ReplyView)
    requires
        w is Exited,
    ensures
        s.phase == BridgePhase::Creating ==> bridge_next(s, ReplyView::Created(Err(e))).1
            == BridgeStepView::Finish(Err(e)),
        (s.phase == BridgePhase::Starting || s.phase == BridgePhase::Opening || s.phase
            == BridgePhase::Serving) ==> bridge_next(s, ReplyView::Unit(Err(e))).1
            == BridgeStepView::Finish(Err(e)),
        s.phase == BridgePhase::Waiting ==> bridge_next(s, w).1 == BridgeStepView::Finish(Ok(())),
{
}

} // verus!
