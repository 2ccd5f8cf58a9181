//! Secrets from AWS SSM Parameter Store: the `aws` command line that fetches
//! one, the reading of its outcome, the freshness of cached values, and the
//! resolution of a service's secrets (cache first unless refreshing, then
//! fetch and cache) as a state machine whose file and process work the
//! caller performs.
use vstd::prelude::*;
use crate::config::{join_path, join_relative, profile_of, region_of, Config, ServiceConfig};
use crate::strmap::{keys_sorted, StrMap};
use crate::text::{
    contains_text, has_substring, join2, join3, owned, trim, trim_ws, u64_decimal, decimal, views,
};

verus! {

/// How long a cached secret stays fresh, in seconds.
pub const CACHE_TTL_SECS: u64 = 3600;

/// The permissions of a service's cache directory.
pub const CACHE_DIR_MODE: u32 = 0o700;

/// The permissions of a cached secret.
pub const CACHE_FILE_MODE: u32 = 0o600;

/// The cache directory: `.cache/mcpfile` in the home directory; without a
/// home directory there is none.
pub open spec fn cache_root_spec(home: Option<Seq<char>>) -> Result<Seq<char>, Seq<char>> {
    match home {
        Some(h) => Ok(join_path(h, ".cache/mcpfile"@)),
        None => Err("HOME not set"@),
    }
}

/// The cache directory for the home directory `home` (`None` when `HOME`
/// is unset).
pub fn cache_root(home: Option<&str>) -> (r: Result<String, String>)
    ensures
        match cache_root_spec(
            match home {
                Some(h) => Some(h@),
                None => None,
            },
        ) {
            Ok(p) => r is Ok && r->Ok_0@ == p,
            Err(e) => r is Err && r->Err_0@ == e,
        },
{
    proof {
        reveal_strlit(".cache/mcpfile");
        reveal_strlit("HOME not set");
    }
    match home {
        Some(h) => Ok(join_relative(h, ".cache/mcpfile")),
        None => Err(owned("HOME not set")),
    }
}

/// A cached value is used while it is younger than an hour; an age that
/// cannot be measured (a modification time in the future) counts as an
/// hour.
pub open spec fn is_fresh(age_secs: Option<u64>) -> bool {
    match age_secs {
        Some(a) => a < CACHE_TTL_SECS,
        None => false,
    }
}

/// Whether a cached value of this age (in whole seconds) is used.
pub fn cache_fresh(age_secs: Option<u64>) -> (b: bool)
    ensures
        b == is_fresh(age_secs),
{
    match age_secs {
        Some(a) => a < CACHE_TTL_SECS,
        None => false,
    }
}

/// The arguments of the `aws` command that fetches a parameter, decrypted,
/// as plain text.
pub open spec fn ssm_args_spec(profile: Seq<char>, region: Seq<char>, parameter: Seq<char>) -> Seq<
    Seq<char>,
> {
    seq![
        "ssm"@,
        "get-parameter"@,
        "--name"@,
        parameter,
        "--with-decryption"@,
        "--profile"@,
        profile,
        "--region"@,
        region,
        "--query"@,
        "Parameter.Value"@,
        "--output"@,
        "text"@,
    ]
}

/// The error output of a failed fetch shows an authentication problem.
pub open spec fn is_auth_error(stderr: Seq<char>) -> bool {
    ||| has_substring(stderr, "ExpiredToken"@)
    ||| has_substring(stderr, "credentials"@)
    ||| has_substring(stderr, "UnrecognizedClientException"@)
    ||| has_substring(stderr, "InvalidIdentityToken"@)
}

/// What a finished `aws` command means: on success its output without
/// surrounding white space; on an authentication problem the advice to log
/// in again with the profile; otherwise the parameter and the trimmed error
/// output.
pub open spec fn ssm_outcome_spec(
    success: bool,
    stdout: Seq<char>,
    stderr: Seq<char>,
    profile: Seq<char>,
    parameter: Seq<char>,
) -> Result<Seq<char>, Seq<char>> {
    if success {
        Ok(trim_ws(stdout))
    } else if is_auth_error(stderr) {
        Err("AWS credentials expired. Run: aws login --profile "@ + profile)
    } else {
        Err("failed to fetch secret "@ + parameter + ": "@ + trim_ws(stderr))
    }
}

/// The client that fetches parameters with the `aws` command line.
pub struct RealAwsClient;

impl RealAwsClient {
    /// The arguments of the `aws` command that fetches `parameter`.
    pub fn ssm_args(&self, profile: &str, region: &str, parameter: &str) -> (args: Vec<String>)
        ensures
            views(args@) == ssm_args_spec(profile@, region@, parameter@),
    {
        proof {
            reveal_strlit("ssm");
            reveal_strlit("get-parameter");
            reveal_strlit("--name");
            reveal_strlit("--with-decryption");
            reveal_strlit("--profile");
            reveal_strlit("--region");
            reveal_strlit("--query");
            reveal_strlit("Parameter.Value");
            reveal_strlit("--output");
            reveal_strlit("text");
        }
        let args = vec![
            owned("ssm"),
            owned("get-parameter"),
            owned("--name"),
            owned(parameter),
            owned("--with-decryption"),
            owned("--profile"),
            owned(profile),
            owned("--region"),
            owned(region),
            owned("--query"),
            owned("Parameter.Value"),
            owned("--output"),
            owned("text"),
        ];
        assert(views(args@) =~= ssm_args_spec(profile@, region@, parameter@));
        args
    }

    /// Reads the outcome of the `aws` command run for `parameter` with
    /// `profile`, from its exit status and its output (decoded lossily).
    pub fn ssm_outcome(&self, success: bool, stdout: &str, stderr: &str, profile: &str, parameter: &str) -> (r:
        Result<String, String>)
        ensures
            match ssm_outcome_spec(success, stdout@, stderr@, profile@, parameter@) {
                Ok(v) => r is Ok && r->Ok_0@ == v,
                Err(e) => r is Err && r->Err_0@ == e,
            },
    {
        if success {
            return Ok(trim(stdout));
        }
        let auth = contains_text(stderr, "ExpiredToken") || contains_text(stderr, "credentials")
            || contains_text(stderr, "UnrecognizedClientException") || contains_text(
            stderr,
            "InvalidIdentityToken",
        );
        proof {
            reveal_strlit("AWS credentials expired. Run: aws login --profile ");
            reveal_strlit("failed to fetch secret ");
            reveal_strlit(": ");
        }
        if auth {
            Err(join2("AWS credentials expired. Run: aws login --profile ", profile))
        } else {
            let detail = trim(stderr);
            let head = join3("failed to fetch secret ", parameter, ": ");
            Err(join2(head.as_str(), detail.as_str()))
        }
    }
}

// ---------------------------------------------------------------------------
// Resolving a service's secrets
// ---------------------------------------------------------------------------

/// A file or process operation of the resolution.
pub enum SecretRequest {
    /// Read the cached value of `env_var` for `service`, if fresh.
    ReadCache { service: String, env_var: String },
    /// Fetch `parameter` from SSM with `profile` and `region`.
    Fetch { profile: String, region: String, parameter: String },
    /// Cache `value` as `env_var` of `service`.
    WriteCache { service: String, env_var: String, value: String },
}

/// What an operation returned.
pub enum SecretReply {
    Cached(Result<Option<String>, String>),
    Fetched(Result<String, String>),
    Written(Result<(), String>),
}

/// The next operation, or the end with the values by variable name.
pub enum SecretStep {
    Call(SecretRequest),
    Finish(Result<StrMap<String>, String>),
}

pub enum SecretRequestView {
    ReadCache(Seq<char>, Seq<char>),
    Fetch(Seq<char>, Seq<char>, Seq<char>),
    WriteCache(Seq<char>, Seq<char>, Seq<char>),
}

pub enum SecretReplyView {
    Cached(Result<Option<Seq<char>>, Seq<char>>),
    Fetched(Result<Seq<char>, Seq<char>>),
    Written(Result<(), Seq<char>>),
}

pub enum SecretStepView {
    Call(SecretRequestView),
    Finish(Result<Map<Seq<char>, Seq<char>>, Seq<char>>),
}

impl View for SecretRequest {
    type V = SecretRequestView;

    open spec fn view(&self) -> SecretRequestView {
        match self {
            SecretRequest::ReadCache { service, env_var } => SecretRequestView::ReadCache(
                service@,
                env_var@,
            ),
            SecretRequest::Fetch { profile, region, parameter } => SecretRequestView::Fetch(
                profile@,
                region@,
                parameter@,
            ),
            SecretRequest::WriteCache { service, env_var, value } => SecretRequestView::WriteCache(
                service@,
                env_var@,
                value@,
            ),
        }
    }
}

impl View for SecretReply {
    type V = SecretReplyView;

    open spec fn view(&self) -> SecretReplyView {
        match self {
            SecretReply::Cached(Ok(Some(v))) => SecretReplyView::Cached(Ok(Some(v@))),
            SecretReply::Cached(Ok(None)) => SecretReplyView::Cached(Ok(None)),
            SecretReply::Cached(Err(e)) => SecretReplyView::Cached(Err(e@)),
            SecretReply::Fetched(Ok(v)) => SecretReplyView::Fetched(Ok(v@)),
            SecretReply::Fetched(Err(e)) => SecretReplyView::Fetched(Err(e@)),
            SecretReply::Written(Ok(())) => SecretReplyView::Written(Ok(())),
            SecretReply::Written(Err(e)) => SecretReplyView::Written(Err(e@)),
        }
    }
}

impl View for SecretStep {
    type V = SecretStepView;

    open spec fn view(&self) -> SecretStepView {
        match self {
            SecretStep::Call(r) => SecretStepView::Call(r@),
            SecretStep::Finish(Ok(m)) => SecretStepView::Finish(Ok(m.text_map())),
            SecretStep::Finish(Err(e)) => SecretStepView::Finish(Err(e@)),
        }
    }
}

/// Where a resolution stands; the index is that of the secret in hand.
#[derive(Clone, Copy, Debug, PartialEq, Eq, Structural)]
pub enum SecretPhase {
    Begin,
    Reading(usize),
    Fetching(usize),
    Writing(usize),
    Finished,
}

pub struct SecretsView {
    pub phase: SecretPhase,
    pub service: Seq<char>,
    pub profile: Seq<char>,
    pub region: Seq<char>,
    pub refresh: bool,
    /// The secrets to resolve: (variable name, parameter path), in key order.
    pub entries: Seq<(Seq<char>, Seq<char>)>,
    /// The values resolved so far, by variable name.
    pub resolved: Map<Seq<char>, Seq<char>>,
    /// The value fetched and being cached.
    pub value: Seq<char>,
}

/// Take up the secret with index `i`: read its cache, or fetch it right away
/// when refreshing; with none left, hand out the values and end.
pub open spec fn sec_take_up(s: SecretsView, i: int) -> (SecretsView, SecretStepView) {
    if i >= s.entries.len() {
        (
            SecretsView { phase: SecretPhase::Finished, resolved: Map::empty(), ..s },
            SecretStepView::Finish(Ok(s.resolved)),
        )
    } else if s.refresh {
        (
            SecretsView { phase: SecretPhase::Fetching(i as usize), ..s },
            SecretStepView::Call(SecretRequestView::Fetch(s.profile, s.region, s.entries[i].1)),
        )
    } else {
        (
            SecretsView { phase: SecretPhase::Reading(i as usize), ..s },
            SecretStepView::Call(SecretRequestView::ReadCache(s.service, s.entries[i].0)),
        )
    }
}

pub open spec fn sec_fail(s: SecretsView, e: Seq<char>) -> (SecretsView, SecretStepView) {
    (SecretsView { phase: SecretPhase::Finished, ..s }, SecretStepView::Finish(Err(e)))
}

/// The first step.
pub open spec fn sec_start(s: SecretsView) -> (SecretsView, SecretStepView) {
    sec_take_up(s, 0)
}

/// The reply that the step in phase `p` waits for.
pub open spec fn sec_accepts(p: SecretPhase, r: SecretReplyView) -> bool {
    match p {
        SecretPhase::Reading(_) => r is Cached,
        SecretPhase::Fetching(_) => r is Fetched,
        SecretPhase::Writing(_) => r is Written,
        SecretPhase::Begin | SecretPhase::Finished => false,
    }
}

/// One step of the resolution. A fresh cached value is used as it is; a
/// missing one is fetched and cached before it is used; any failure ends
/// the resolution with its error.
pub open spec fn sec_next(s: SecretsView, r: SecretReplyView) -> (SecretsView, SecretStepView) {
    match (s.phase, r) {
        (SecretPhase::Reading(i), SecretReplyView::Cached(Err(e))) => sec_fail(s, e),
        (SecretPhase::Reading(i), SecretReplyView::Cached(Ok(Some(v)))) => sec_take_up(
            SecretsView { resolved: s.resolved.insert(s.entries[i as int].0, v), ..s },
            i + 1,
        ),
        (SecretPhase::Reading(i), SecretReplyView::Cached(Ok(None))) => (
            SecretsView { phase: SecretPhase::Fetching(i), ..s },
            SecretStepView::Call(
                SecretRequestView::Fetch(s.profile, s.region, s.entries[i as int].1),
            ),
        ),
        (SecretPhase::Fetching(i), SecretReplyView::Fetched(Err(e))) => sec_fail(s, e),
        (SecretPhase::Fetching(i), SecretReplyView::Fetched(Ok(v))) => (
            SecretsView { phase: SecretPhase::Writing(i), value: v, ..s },
            SecretStepView::Call(
                SecretRequestView::WriteCache(s.service, s.entries[i as int].0, v),
            ),
        ),
        (SecretPhase::Writing(i), SecretReplyView::Written(Err(e))) => sec_fail(s, e),
        (SecretPhase::Writing(i), SecretReplyView::Written(Ok(()))) => sec_take_up(
            SecretsView { resolved: s.resolved.insert(s.entries[i as int].0, s.value), ..s },
            i + 1,
        ),
        _ => (s, SecretStepView::Finish(Err(seq![]))),
    }
}

/// The resolution of one service's secrets.
pub struct ResolveSecrets {
    service: String,
    profile: String,
    region: String,
    refresh: bool,
    entries: Vec<(String, String)>,
    resolved: StrMap<String>,
    value: String,
    phase: SecretPhase,
}

impl View for ResolveSecrets {
    type V = SecretsView;

    closed spec fn view(&self) -> SecretsView {
        SecretsView {
            phase: self.phase,
            service: self.service@,
            profile: self.profile@,
            region: self.region@,
            refresh: self.refresh,
            entries: crate::text::pair_views(self.entries@),
            resolved: self.resolved.text_map(),
            value: self.value@,
        }
    }
}

impl ResolveSecrets {
    #[verifier::type_invariant]
    closed spec fn well_formed(self) -> bool {
        match self.phase {
            SecretPhase::Reading(i) | SecretPhase::Fetching(i) | SecretPhase::Writing(i) => i
                < self.entries.len(),
            _ => true,
        }
    }

    /// Prepares the resolution of the secrets of `service` (called
    /// `service_name`), with its AWS profile and region; `refresh` ignores
    /// the cache.
    pub fn new(config: &Config, service_name: &str, service: &ServiceConfig, refresh: bool) -> (m:
        ResolveSecrets)
        ensures
            m@ == (SecretsView {
                phase: SecretPhase::Begin,
                service: service_name@,
                profile: profile_of(config.defaults, *service),
                region: region_of(config.defaults, *service),
                refresh,
                entries: service.secrets.text_entries(),
                resolved: Map::empty(),
                value: seq![],
            }),
            keys_sorted(service.secrets.entries()),
    {
        let n = service.secrets.len();
        let mut entries: Vec<(String, String)> = Vec::new();
        let mut i: usize = 0;
        while i < n
            invariant
                n == service.secrets.entries().len(),
                i <= n,
                crate::text::pair_views(entries@) == service.secrets.text_entries().take(i as int),
            decreases n - i,
        {
            let k = service.secrets.key_at(i).clone();
            let v = service.secrets.value_at(i).clone();
            let ghost before = entries@;
            entries.push((k, v));
            assert(crate::text::pair_views(entries@) =~= crate::text::pair_views(before).push((k@, v@)));
            assert(service.secrets.text_entries().take(i + 1) =~= service.secrets.text_entries().take(
                i as int,
            ).push(service.secrets.text_entries()[i as int]));
            i = i + 1;
        }
        assert(service.secrets.text_entries().take(n as int) =~= service.secrets.text_entries());
        let resolved: StrMap<String> = StrMap::new();
        assert(resolved.text_map() =~= Map::<Seq<char>, Seq<char>>::empty());
        ResolveSecrets {
            service: owned(service_name),
            profile: owned(config.aws_profile(service)),
            region: owned(config.aws_region(service)),
            refresh,
            entries,
            resolved,
            value: String::new(),
            phase: SecretPhase::Begin,
        }
    }

    /// Whether the resolution has ended.
    pub fn is_finished(&self) -> (b: bool)
        ensures
            b == (self@.phase == SecretPhase::Finished),
    {
        self.phase == SecretPhase::Finished
    }

    fn take_up(&mut self, i: usize) -> (out: SecretStep)
        requires
            i <= old(self).entries.len(),
        ensures
            (final(self)@, out@) == sec_take_up(old(self)@, i as int),
    {
        if i >= self.entries.len() {
            self.phase = SecretPhase::Finished;
            let mut done: StrMap<String> = StrMap::new();
            std::mem::swap(&mut done, &mut self.resolved);
            proof {
                assert(self.resolved.text_map() =~= Map::<Seq<char>, Seq<char>>::empty());
            }
            SecretStep::Finish(Ok(done))
        } else if self.refresh {
            self.phase = SecretPhase::Fetching(i);
            SecretStep::Call(
                SecretRequest::Fetch {
                    profile: self.profile.clone(),
                    region: self.region.clone(),
                    parameter: self.entries[i].1.clone(),
                },
            )
        } else {
            self.phase = SecretPhase::Reading(i);
            SecretStep::Call(
                SecretRequest::ReadCache {
                    service: self.service.clone(),
                    env_var: self.entries[i].0.clone(),
                },
            )
        }
    }
}

impl ResolveSecrets {
    /// The first step.
    pub fn start(&mut self) -> (out: SecretStep)
        requires
            old(self)@.phase == SecretPhase::Begin,
        ensures
            (final(self)@, out@) == sec_start(old(self)@),
    {
        self.take_up(0)
    }

    fn remember(&mut self, key: String, value: String)
        ensures
            final(self)@ == (SecretsView {
                resolved: old(self)@.resolved.insert(key@, value@),
                ..old(self)@
            }),
            final(self).entries == old(self).entries,
    {
        proof {
            use_type_invariant(&*self);
        }
        let mut m: StrMap<String> = StrMap::new();
        std::mem::swap(&mut m, &mut self.resolved);
        m.insert(key, value);
        assert(m.text_map() =~= old(self)@.resolved.insert(key@, value@));
        self.resolved = m;
    }

    fn fail(&mut self, e: String) -> (out: SecretStep)
        ensures
            (final(self)@, out@) == sec_fail(old(self)@, e@),
    {
        self.phase = SecretPhase::Finished;
        SecretStep::Finish(Err(e))
    }

    /// The next step, given what the last operation returned.
    pub fn step(&mut self, reply: SecretReply) -> (out: SecretStep)
        requires
            sec_accepts(old(self)@.phase, reply@),
        ensures
            (final(self)@, out@) == sec_next(old(self)@, reply@),
    {
        proof {
            use_type_invariant(&*self);
        }
        match (self.phase, reply) {
            (SecretPhase::Reading(_), SecretReply::Cached(Err(e))) => self.fail(e),
            (SecretPhase::Reading(i), SecretReply::Cached(Ok(Some(v)))) => {
                let key = self.entries[i].0.clone();
                self.remember(key, v);
                self.take_up(i + 1)
            },
            (SecretPhase::Reading(i), SecretReply::Cached(Ok(None))) => {
                self.phase = SecretPhase::Fetching(i);
                SecretStep::Call(
                    SecretRequest::Fetch {
                        profile: self.profile.clone(),
                        region: self.region.clone(),
                        parameter: self.entries[i].1.clone(),
                    },
                )
            },
            (SecretPhase::Fetching(_), SecretReply::Fetched(Err(e))) => self.fail(e),
            (SecretPhase::Fetching(i), SecretReply::Fetched(Ok(v))) => {
                self.value = v.clone();
                self.phase = SecretPhase::Writing(i);
                SecretStep::Call(
                    SecretRequest::WriteCache {
                        service: self.service.clone(),
                        env_var: self.entries[i].0.clone(),
                        value: v,
                    },
                )
            },
            (SecretPhase::Writing(_), SecretReply::Written(Err(e))) => self.fail(e),
            (SecretPhase::Writing(i), SecretReply::Written(Ok(()))) => {
                let key = self.entries[i].0.clone();
                let value = self.value.clone();
                self.remember(key, value);
                self.take_up(i + 1)
            },
            _ => {
                assert(false);
                self.fail(String::new())
            },
        }
    }
}

/// The names of the services of `config` that have secrets, in key order.
pub open spec fn services_with_secrets_spec(config: Config) -> Seq<Seq<char>> {
    config.services.entries().filter(|e: (Seq<char>, ServiceConfig)| e.1.secrets.entries().len() > 0).map_values(
        |e: (Seq<char>, ServiceConfig)| e.0,
    )
}

/// The services that `pull-secrets` fetches: those with secrets, in key
/// order.
pub fn services_with_secrets(config: &Config) -> (names: Vec<String>)
    ensures
        views(names@) == services_with_secrets_spec(*config),
{
    let n = config.services.len();
    let ghost es = config.services.entries();
    let ghost pred = |e: (Seq<char>, ServiceConfig)| e.1.secrets.entries().len() > 0;
    let mut names: Vec<String> = Vec::new();
    let mut i: usize = 0;
    while i < n
        invariant
            n == es.len(),
            es == config.services.entries(),
            pred == (|e: (Seq<char>, ServiceConfig)| e.1.secrets.entries().len() > 0),
            i <= n,
            views(names@) == es.take(i as int).filter(pred).map_values(
                |e: (Seq<char>, ServiceConfig)| e.0,
            ),
        decreases n - i,
    {
        reveal_with_fuel(Seq::<_>::filter, 1);
        assert(es.take(i + 1).drop_last() =~= es.take(i as int));
        let ghost before = names@;
        if !config.services.value_at(i).secrets.is_empty() {
            names.push(config.services.key_at(i).clone());
            assert(views(names@) =~= views(before).push(es[i as int].0));
        }
        assert(views(names@) =~= es.take(i + 1).filter(pred).map_values(
            |e: (Seq<char>, ServiceConfig)| e.0,
        ));
        i = i + 1;
    }
    assert(es.take(n as int) =~= es);
    names
}

/// The line shown before fetching a service's secrets.
pub fn fetching_message(name: &str) -> (m: String)
    ensures
        m@ == "Fetching secrets for "@ + name@ + "..."@,
{
    proof {
        reveal_strlit("Fetching secrets for ");
        reveal_strlit("...");
    }
    join3("Fetching secrets for ", name, "...")
}

/// The line shown after caching `count` secrets.
pub fn cached_message(count: usize) -> (m: String)
    ensures
        m@ == "  Cached "@ + decimal(count as nat) + " secret(s)"@,
{
    let digits = u64_decimal(count as u64);
    proof {
        reveal_strlit("  Cached ");
        reveal_strlit(" secret(s)");
    }
    join3("  Cached ", digits.as_str(), " secret(s)")
}

// ---------------------------------------------------------------------------
// Laws of the resolution
// ---------------------------------------------------------------------------

/// The variable names of the first `i` secrets.
pub open spec fn names_before(entries: Seq<(Seq<char>, Seq<char>)>, i: int) -> Set<Seq<char>> {
    Set::new(|k: Seq<char>| exists|j: int| 0 <= j < i && #[trigger] entries[j].0 == k)
}

/// What holds between steps: the values resolved are exactly those of the
/// secrets before the one in hand.
pub open spec fn sec_inv(s: SecretsView) -> bool {
    match s.phase {
        SecretPhase::Begin => s.resolved.dom() == Set::<Seq<char>>::empty(),
        SecretPhase::Reading(i) | SecretPhase::Fetching(i) | SecretPhase::Writing(i) => i
            < s.entries.len() && s.resolved.dom() == names_before(s.entries, i as int),
        SecretPhase::Finished => true,
    }
}

proof fn lemma_take_up(s: SecretsView, i: int)
    requires
        0 <= i <= s.entries.len(),
        s.entries.len() <= usize::MAX,
        s.resolved.dom() == names_before(s.entries, i),
    ensures
        sec_inv(sec_take_up(s, i).0),
        sec_take_up(s, i).1 matches SecretStepView::Finish(Ok(m)) ==> m.dom() == names_before(
            s.entries,
            s.entries.len() as int,
        ),
{
}

proof fn lemma_names_step(entries: Seq<(Seq<char>, Seq<char>)>, i: int)
    requires
        0 <= i < entries.len(),
    ensures
        names_before(entries, i + 1) == names_before(entries, i).insert(entries[i].0),
{
    assert forall|k: Seq<char>| names_before(entries, i + 1).contains(k) == names_before(
        entries,
        i,
    ).insert(entries[i].0).contains(k) by {
        if names_before(entries, i + 1).contains(k) {
            let j = choose|j: int| 0 <= j < i + 1 && #[trigger] entries[j].0 == k;
            if j < i {
                assert(names_before(entries, i).contains(k));
            }
        }
        if names_before(entries, i).contains(k) {
            let j = choose|j: int| 0 <= j < i && #[trigger] entries[j].0 == k;
            assert(0 <= j < i + 1 && entries[j].0 == k);
        }
        if k == entries[i].0 {
            assert(0 <= i < i + 1 && entries[i].0 == k);
        }
    }
    assert(names_before(entries, i + 1) =~= names_before(entries, i).insert(entries[i].0));
}

/// A resolution keeps exactly one value per secret taken up so far, and one
/// that ends successfully gives a value for every secret of the service.
pub proof fn law_resolution_covers_every_secret(s: SecretsView, r: SecretReplyView)
    requires
        sec_inv(s),
        sec_accepts(s.phase, r),
        s.entries.len() <= usize::MAX,
    ensures
        sec_inv(sec_next(s, r).0),
        sec_next(s, r).1 matches SecretStepView::Finish(Ok(m)) ==> m.dom() == names_before(
            s.entries,
            s.entries.len() as int,
        ),
{
    match (s.phase, r) {
        (SecretPhase::Reading(i), SecretReplyView::Cached(Ok(Some(v)))) => {
            lemma_names_step(s.entries, i as int);
            let t = SecretsView { resolved: s.resolved.insert(s.entries[i as int].0, v), ..s };
            assert(t.resolved.dom() =~= names_before(s.entries, i + 1));
            lemma_take_up(t, i + 1);
        },
        (SecretPhase::Writing(i), SecretReplyView::Written(Ok(()))) => {
            lemma_names_step(s.entries, i as int);
            let t = SecretsView { resolved: s.resolved.insert(s.entries[i as int].0, s.value), ..s };
            assert(t.resolved.dom() =~= names_before(s.entries, i + 1));
            lemma_take_up(t, i + 1);
        },
        _ => {},
    }
}

/// The first step keeps the same, and a service without secrets resolves at
/// once to no value.
pub proof fn law_resolution_starts_empty(s: SecretsView)
    requires
        s.phase == SecretPhase::Begin,
        s.resolved.dom() == Set::<Seq<char>>::empty(),
        s.entries.len() <= usize::MAX,
    ensures
        sec_inv(sec_start(s).0),
        s.entries.len() == 0 ==> sec_start(s).1 == SecretStepView::Finish(Ok(s.resolved)),
{
    assert(names_before(s.entries, 0) =~= Set::<Seq<char>>::empty());
    lemma_take_up(s, 0);
}

/// With `refresh` the cache is never read: no step asks for a cached value.
pub proof fn law_refresh_never_reads_cache(s: SecretsView, r: SecretReplyView)
    requires
        s.refresh,
    ensures
        sec_next(s, r).0.refresh,
        !(sec_next(s, r).1 matches SecretStepView::Call(SecretRequestView::ReadCache(_, _))),
        sec_start(s).0.refresh,
        !(sec_start(s).1 matches SecretStepView::Call(SecretRequestView::ReadCache(_, _))),
{
}

/// A cached value that is there is used as it is: no fetch follows for that
/// secret, and it is what the secret resolves to.
pub proof fn law_cached_value_is_used(s: SecretsView, i: usize, v: Seq<char>)
    requires
        s.phase == SecretPhase::Reading(i),
        !s.refresh,
        i < s.entries.len(),
    ensures
        !(sec_next(s, SecretReplyView::Cached(Ok(Some(v)))).1 matches SecretStepView::Call(
            SecretRequestView::Fetch(_, _, _),
        )),
        sec_next(s, SecretReplyView::Cached(Ok(Some(v)))).1 matches SecretStepView::Finish(Ok(m))
            ==> m[s.entries[i as int].0] == v,
        sec_next(s, SecretReplyView::Cached(Ok(Some(v)))).0.phase != SecretPhase::Finished
            ==> sec_next(s, SecretReplyView::Cached(Ok(Some(v)))).0.resolved[s.entries[i as int].0]
            == v,
{
}

/// A value fetched is cached before it is used: the step after a
/// successful fetch writes exactly that value for that secret.
pub proof fn law_fetched_value_is_cached(s: SecretsView, i: usize, v: Seq<char>)
    requires
        s.phase == SecretPhase::Fetching(i),
    ensures
        sec_next(s, SecretReplyView::Fetched(Ok(v))).1 == SecretStepView::Call(
            SecretRequestView::WriteCache(s.service, s.entries[i as int].0, v),
        ),
{
}

/// A fetched secret resolves to exactly the value fetched for it, whatever
/// was fetched before: once that value is written to the cache, it is the
/// secret's value in what the resolution hands out; a failed write ends the
/// resolution with that error.
pub proof fn law_fetched_value_is_used(s: SecretsView, i: usize, v: Seq<char>, e: Seq<char>)
    requires
        s.phase == SecretPhase::Fetching(i),
        i < s.entries.len(),
    ensures
        ({
            let t = sec_next(s, SecretReplyView::Fetched(Ok(v))).0;
            let (u, out) = sec_next(t, SecretReplyView::Written(Ok(())));
            &&& out matches SecretStepView::Finish(Ok(m)) ==> m[s.entries[i as int].0] == v
            &&& u.phase != SecretPhase::Finished ==> u.resolved[s.entries[i as int].0] == v
            &&& sec_next(t, SecretReplyView::Written(Err(e))).1 == SecretStepView::Finish(Err(e))
        }),
{
}

} // verus!
