//! The decisions of the Unix socket bridge: the accept loop that serves one
//! client at a time, a new connection replacing the current one, and
//! forwards what it sends to the container, and the
//! pump that forwards what the container writes to the current client. The
//! socket and stream work is the caller's.
use vstd::prelude::*;

verus! {

/// Where the accept loop stands.
#[derive(Clone, Copy, Debug, PartialEq, Eq, Structural)]
pub enum PipePhase {
    Begin,
    /// Asking whether the container's output has ended.
    Checking,
    /// Waiting a short while for a client.
    Accepting,
    /// Making the new client the one the container's output goes to.
    Installing,
    /// Reading from the client, while a new client may connect and the
    /// container's output may end.
    Reading,
    /// Writing what the client sent to the container; a new client or the
    /// end of the container's output may also be reported here.
    Writing,
    /// Forgetting the client that left.
    Dropping,
    Finished,
}

/// What the caller does next.
#[derive(Clone, Copy, Debug, PartialEq, Eq, Structural)]
pub enum PipeAction {
    /// Find out whether the container's output has ended.
    CheckUpstream,
    /// Wait for a client, for a short while.
    Accept,
    /// Send the container's output to the new client from now on.
    InstallClient,
    /// Read what the client sends.
    ReadClient,
    /// Write the bytes just read, this many, to the container.
    WriteUpstream(usize),
    /// Send the container's output nowhere.
    DropClient,
    /// Stop serving; the socket file goes away.
    Finish,
}

/// What the caller found.
#[derive(Clone, Copy, Debug, PartialEq, Eq, Structural)]
pub enum PipeEvent {
    UpstreamEnded(bool),
    /// A client connected (`true`) or accepting failed (`false`).
    Accepted(bool),
    /// No client came in time.
    TimedOut,
    Installed,
    /// Bytes read from the client; `Some(0)` at its end, `None` on an error.
    ClientRead(Option<usize>),
    /// Whether writing to the container succeeded.
    Wrote(bool),
    Dropped,
}

/// The event the loop waits for in phase `p`.
pub open spec fn pipe_accepts(p: PipePhase, e: PipeEvent) -> bool {
    match p {
        PipePhase::Checking => e is UpstreamEnded,
        PipePhase::Accepting => e is Accepted || e is TimedOut,
        PipePhase::Installing => e is Installed,
        PipePhase::Reading => e is ClientRead || e is Accepted || e == PipeEvent::UpstreamEnded(true),
        PipePhase::Writing => e is Wrote || e is Accepted || e == PipeEvent::UpstreamEnded(true),
        PipePhase::Dropping => e is Dropped,
        PipePhase::Begin | PipePhase::Finished => false,
    }
}

/// One step of the accept loop. The loop ends as soon as the container's
/// output has ended, whether or not a client is connected, and when
/// accepting fails. A client's bytes go to the container as they come; the
/// client is dropped at its end, on a read error, or when the container
/// cannot take what it sent. A new connection replaces the current client
/// at once.
pub open spec fn pipe_next(p: PipePhase, e: PipeEvent) -> (PipePhase, PipeAction) {
    match (p, e) {
        (PipePhase::Checking, PipeEvent::UpstreamEnded(true)) => (PipePhase::Finished, PipeAction::Finish),
        (PipePhase::Checking, PipeEvent::UpstreamEnded(false)) => (PipePhase::Accepting, PipeAction::Accept),
        (PipePhase::Accepting, PipeEvent::TimedOut) => (PipePhase::Checking, PipeAction::CheckUpstream),
        (PipePhase::Accepting, PipeEvent::Accepted(false)) => (PipePhase::Finished, PipeAction::Finish),
        (PipePhase::Accepting, PipeEvent::Accepted(true)) => (
            PipePhase::Installing,
            PipeAction::InstallClient,
        ),
        (PipePhase::Installing, PipeEvent::Installed) => (PipePhase::Reading, PipeAction::ReadClient),
        (PipePhase::Reading, PipeEvent::ClientRead(Some(n))) => if n > 0 {
            (PipePhase::Writing, PipeAction::WriteUpstream(n))
        } else {
            (PipePhase::Dropping, PipeAction::DropClient)
        },
        (PipePhase::Reading, PipeEvent::ClientRead(None)) => (PipePhase::Dropping, PipeAction::DropClient),
        (PipePhase::Writing, PipeEvent::Wrote(true)) => (PipePhase::Reading, PipeAction::ReadClient),
        (PipePhase::Writing, PipeEvent::Wrote(false)) => (PipePhase::Dropping, PipeAction::DropClient),
        (PipePhase::Dropping, PipeEvent::Dropped) => (PipePhase::Checking, PipeAction::CheckUpstream),
        (PipePhase::Reading, PipeEvent::Accepted(true)) | (PipePhase::Writing, PipeEvent::Accepted(true)) => (
            PipePhase::Installing,
            PipeAction::InstallClient,
        ),
        (PipePhase::Reading, PipeEvent::Accepted(false))
        | (PipePhase::Writing, PipeEvent::Accepted(false))
        | (PipePhase::Reading, PipeEvent::UpstreamEnded(true))
        | (PipePhase::Writing, PipeEvent::UpstreamEnded(true)) => (PipePhase::Finished, PipeAction::Finish),
        _ => (p, PipeAction::Finish),
    }
}

/// The loop's state over a run: its phase, how many clients it has accepted
/// so far, and the client that is bridged now (numbered in accept order from
/// 0), if any. The bridged client is the one whose reads go to the
/// container and to which the pump sends the container's output.
pub struct PipeState {
    pub phase: PipePhase,
    pub accepted: nat,
    pub bridged: Option<nat>,
}

/// The state once the loop has started.
pub open spec fn pipe_begin() -> PipeState {
    PipeState { phase: PipePhase::Checking, accepted: 0, bridged: None }
}

/// One step over the whole state: installing a client bridges the client
/// just accepted in place of any other; dropping a client or finishing
/// leaves none bridged.
pub open spec fn pipe_state_next(s: PipeState, e: PipeEvent) -> (PipeState, PipeAction) {
    let (p, a) = pipe_next(s.phase, e);
    let t = match a {
        PipeAction::InstallClient => PipeState {
            phase: p,
            accepted: s.accepted + 1,
            bridged: Some(s.accepted),
        },
        PipeAction::DropClient | PipeAction::Finish => PipeState {
            phase: p,
            accepted: s.accepted,
            bridged: None,
        },
        _ => PipeState { phase: p, accepted: s.accepted, bridged: s.bridged },
    };
    (t, a)
}

/// The state after the events `es`, from the start.
pub open spec fn pipe_after(es: Seq<PipeEvent>) -> PipeState
    decreases es.len(),
{
    if es.len() == 0 {
        pipe_begin()
    } else {
        pipe_state_next(pipe_after(es.drop_last()), es.last()).0
    }
}

/// The action that answers event `k` of `es`.
pub open spec fn pipe_action_at(es: Seq<PipeEvent>, k: int) -> PipeAction {
    pipe_state_next(pipe_after(es.take(k)), es[k]).1
}

/// Each event of `es` is one the loop waits for at that point.
pub open spec fn pipe_valid_run(es: Seq<PipeEvent>) -> bool {
    forall|k: int| 0 <= k < es.len() ==> #[trigger] pipe_accepts(pipe_after(es.take(k)).phase, es[k])
}

/// Where the pump sends one read of the container's output (`None` on an
/// error) while the loop is in state `s`: to the bridged client, or
/// nowhere when none is bridged or the output has ended.
pub open spec fn chunk_destination(s: PipeState, read: Option<usize>) -> Option<nat> {
    match pump_action(read) {
        PumpAction::Forward(_) => s.bridged,
        PumpAction::ShutDownClient => None,
    }
}

/// What holds at every point of a valid run: while a client is installed,
/// read or written for, exactly the latest accepted client is bridged;
/// otherwise none is.
pub open spec fn pipe_inv(s: PipeState) -> bool {
    match s.phase {
        PipePhase::Installing | PipePhase::Reading | PipePhase::Writing => s.accepted > 0
            && s.bridged == Some((s.accepted - 1) as nat),
        PipePhase::Begin => false,
        _ => s.bridged is None,
    }
}

/// The accept loop of the bridge.
pub struct PipeLoop {
    phase: PipePhase,
    accepted: Ghost<nat>,
    bridged: Ghost<Option<nat>>,
}

impl PipeLoop {
    pub closed spec fn phase(&self) -> PipePhase {
        self.phase
    }

    /// The loop's state over the run so far.
    pub closed spec fn state(&self) -> PipeState {
        PipeState { phase: self.phase, accepted: self.accepted@, bridged: self.bridged@ }
    }

    /// A loop that has not begun.
    pub fn new() -> (m: PipeLoop)
        ensures
            m.phase() == PipePhase::Begin,
    {
        PipeLoop { phase: PipePhase::Begin, accepted: Ghost(0), bridged: Ghost(None) }
    }

    /// The first action: check whether the container's output has ended.
    pub fn start(&mut self) -> (a: PipeAction)
        requires
            old(self).phase() == PipePhase::Begin,
        ensures
            final(self).phase() == PipePhase::Checking,
            final(self).state() == pipe_begin(),
            a == PipeAction::CheckUpstream,
    {
        self.phase = PipePhase::Checking;
        self.accepted = Ghost(0);
        self.bridged = Ghost(None);
        PipeAction::CheckUpstream
    }

    /// The next action, given what the caller found.
    pub fn step(&mut self, e: PipeEvent) -> (a: PipeAction)
        requires
            pipe_accepts(old(self).phase(), e),
        ensures
            (final(self).phase(), a) == pipe_next(old(self).phase(), e),
            (final(self).state(), a) == pipe_state_next(old(self).state(), e),
    {
        let (p, a) = match (self.phase, e) {
            (PipePhase::Checking, PipeEvent::UpstreamEnded(true)) => (PipePhase::Finished, PipeAction::Finish),
            (PipePhase::Checking, PipeEvent::UpstreamEnded(false)) => (PipePhase::Accepting, PipeAction::Accept),
            (PipePhase::Accepting, PipeEvent::TimedOut) => (PipePhase::Checking, PipeAction::CheckUpstream),
            (PipePhase::Accepting, PipeEvent::Accepted(false)) => (PipePhase::Finished, PipeAction::Finish),
            (PipePhase::Accepting, PipeEvent::Accepted(true)) => (
                PipePhase::Installing,
                PipeAction::InstallClient,
            ),
            (PipePhase::Installing, PipeEvent::Installed) => (PipePhase::Reading, PipeAction::ReadClient),
            (PipePhase::Reading, PipeEvent::ClientRead(Some(n))) => if n > 0 {
                (PipePhase::Writing, PipeAction::WriteUpstream(n))
            } else {
                (PipePhase::Dropping, PipeAction::DropClient)
            },
            (PipePhase::Reading, PipeEvent::ClientRead(None)) => (PipePhase::Dropping, PipeAction::DropClient),
            (PipePhase::Writing, PipeEvent::Wrote(true)) => (PipePhase::Reading, PipeAction::ReadClient),
            (PipePhase::Writing, PipeEvent::Wrote(false)) => (PipePhase::Dropping, PipeAction::DropClient),
            (PipePhase::Dropping, PipeEvent::Dropped) => (PipePhase::Checking, PipeAction::CheckUpstream),
            (PipePhase::Reading, PipeEvent::Accepted(true))
            | (PipePhase::Writing, PipeEvent::Accepted(true)) => (
                PipePhase::Installing,
                PipeAction::InstallClient,
            ),
            (PipePhase::Reading, PipeEvent::Accepted(false))
            | (PipePhase::Writing, PipeEvent::Accepted(false))
            | (PipePhase::Reading, PipeEvent::UpstreamEnded(true))
            | (PipePhase::Writing, PipeEvent::UpstreamEnded(true)) => (PipePhase::Finished, PipeAction::Finish),
            _ => (self.phase, PipeAction::Finish),
        };
        self.phase = p;
        match a {
            PipeAction::InstallClient => {
                let ghost n = self.accepted@;
                self.bridged = Ghost(Some(n));
                self.accepted = Ghost(n + 1);
            },
            PipeAction::DropClient | PipeAction::Finish => {
                self.bridged = Ghost(None);
            },
            _ => {},
        }
        a
    }
}

/// What the pump does with one read of the container's output.
#[derive(Clone, Copy, Debug, PartialEq, Eq, Structural)]
pub enum PumpAction {
    /// Send these many bytes to the current client, if any (a failed send is
    /// ignored), then read again.
    Forward(usize),
    /// The output has ended: shut the current client's connection and stop.
    ShutDownClient,
}

/// The pump forwards each non-empty read and stops at the end of the output
/// or on a read error.
pub open spec fn pump_action(read: Option<usize>) -> PumpAction {
    match read {
        Some(n) => if n > 0 {
            PumpAction::Forward(n)
        } else {
            PumpAction::ShutDownClient
        },
        None => PumpAction::ShutDownClient,
    }
}

/// Decides what the pump does with a read of `read` bytes (`None` on an
/// error).
pub fn pump_step(read: Option<usize>) -> (a: PumpAction)
    ensures
        a == pump_action(read),
{
    match read {
        Some(n) => if n > 0 {
            PumpAction::Forward(n)
        } else {
            PumpAction::ShutDownClient
        },
        None => PumpAction::ShutDownClient,
    }
}

/// The loop stops serving only when the container's output has ended or a
/// client can no longer be accepted; a client that leaves or fails only
/// sends the loop back to checking.
pub proof fn law_pipe_ends_only_on_upstream_end_or_accept_failure(p: PipePhase, e: PipeEvent)
    requires
        pipe_accepts(p, e),
    ensures
        pipe_next(p, e).0 == PipePhase::Finished <==> (e == PipeEvent::UpstreamEnded(true)
            || e == PipeEvent::Accepted(false)),
{
}

/// What a client sends reaches the container whole and in order: a read of
/// `n > 0` bytes is followed by writing exactly those `n` bytes, and only a
/// successful write leads to the next read.
pub proof fn law_pipe_forwards_each_read(n: usize, ok: bool)
    ensures
        n > 0 ==> pipe_next(PipePhase::Reading, PipeEvent::ClientRead(Some(n))) == (
            PipePhase::Writing,
            PipeAction::WriteUpstream(n),
        ),
        pipe_next(PipePhase::Writing, PipeEvent::Wrote(ok)).1 == (if ok {
            PipeAction::ReadClient
        } else {
            PipeAction::DropClient
        }),
{
}

/// A new connection replaces the current client: while a client is being
/// served, an accepted connection is installed in its place.
pub proof fn law_new_connection_replaces_client(p: PipePhase)
    requires
        p == PipePhase::Reading || p == PipePhase::Writing,
    ensures
        pipe_accepts(p, PipeEvent::Accepted(true)),
        pipe_next(p, PipeEvent::Accepted(true)) == (PipePhase::Installing, PipeAction::InstallClient),
        pipe_next(PipePhase::Installing, PipeEvent::Installed) == (
            PipePhase::Reading,
            PipeAction::ReadClient,
        ),
{
}

/// When the container's output ends, serving ends, whether the loop is
/// checking between clients or a client is connected.
pub proof fn law_upstream_end_ends_serving(p: PipePhase)
    requires
        p == PipePhase::Checking || p == PipePhase::Reading || p == PipePhase::Writing,
    ensures
        pipe_accepts(p, PipeEvent::UpstreamEnded(true)),
        pipe_next(p, PipeEvent::UpstreamEnded(true)) == (PipePhase::Finished, PipeAction::Finish),
{
}


/// The state after `k + 1` events is one step from the state after `k`.
proof fn lemma_after_step(es: Seq<PipeEvent>, k: int)
    requires
        0 <= k < es.len(),
    ensures
        pipe_after(es.take(k + 1)) == pipe_state_next(pipe_after(es.take(k)), es[k]).0,
{
    assert(es.take(k + 1).drop_last() =~= es.take(k));
    assert(es.take(k + 1).last() == es[k]);
}

/// No event has happened at the start.
proof fn lemma_after_none(es: Seq<PipeEvent>)
    ensures
        pipe_after(es.take(0)) == pipe_begin(),
{
    assert(es.take(0) =~= Seq::<PipeEvent>::empty());
}

/// One step of a valid run keeps the invariant.
proof fn lemma_inv_step(s: PipeState, e: PipeEvent)
    requires
        pipe_inv(s),
        pipe_accepts(s.phase, e),
    ensures
        pipe_inv(pipe_state_next(s, e).0),
        pipe_state_next(s, e).0.accepted >= s.accepted,
{
}

/// The invariant holds after every prefix of a valid run.
proof fn lemma_inv(es: Seq<PipeEvent>, k: int)
    requires
        pipe_valid_run(es),
        0 <= k <= es.len(),
    ensures
        pipe_inv(pipe_after(es.take(k))),
    decreases k,
{
    if k == 0 {
        lemma_after_none(es);
    } else {
        lemma_inv(es, k - 1);
        lemma_after_step(es, k - 1);
        assert(pipe_accepts(pipe_after(es.take(k - 1)).phase, es[k - 1]));
        lemma_inv_step(pipe_after(es.take(k - 1)), es[k - 1]);
    }
}

/// Accepted clients are never forgotten: the count only grows.
proof fn lemma_accepted_grows(es: Seq<PipeEvent>, j: int, k: int)
    requires
        pipe_valid_run(es),
        0 <= j <= k <= es.len(),
    ensures
        pipe_after(es.take(j)).accepted <= pipe_after(es.take(k)).accepted,
    decreases k - j,
{
    if j < k {
        lemma_accepted_grows(es, j, k - 1);
        lemma_inv(es, k - 1);
        lemma_after_step(es, k - 1);
        assert(pipe_accepts(pipe_after(es.take(k - 1)).phase, es[k - 1]));
        lemma_inv_step(pipe_after(es.take(k - 1)), es[k - 1]);
    }
}

/// At every point of a valid run at most one client is bridged, and it is
/// the latest accepted one: accepting a new client replaces the previous
/// one. The container's output then goes to that client alone, or nowhere,
/// and nothing is bridged once the loop has finished.
pub proof fn law_pipe_bridges_only_latest_client(es: Seq<PipeEvent>, k: int, read: Option<usize>)
    requires
        pipe_valid_run(es),
        0 <= k <= es.len(),
    ensures
        ({
            let s = pipe_after(es.take(k));
            &&& s.bridged matches Some(i) ==> i + 1 == s.accepted
            &&& chunk_destination(s, read) matches Some(i) ==> s.bridged == Some(i)
            &&& s.phase == PipePhase::Finished ==> s.bridged is None
            &&& (s.phase == PipePhase::Reading || s.phase == PipePhase::Writing) ==> s.bridged is Some
        }),
{
    lemma_inv(es, k);
}

/// What reaches the container comes from the bridged client, a read of `n`
/// bytes followed by writing those `n` bytes, and the clients' bytes reach
/// it in accept order: a write never carries bytes of a client accepted
/// before the one of an earlier write.
pub proof fn law_upstream_bytes_in_accept_order(es: Seq<PipeEvent>, j: int, k: int)
    requires
        pipe_valid_run(es),
        0 <= j < k < es.len(),
        pipe_action_at(es, j) is WriteUpstream,
        pipe_action_at(es, k) is WriteUpstream,
    ensures
        pipe_after(es.take(j)).bridged is Some,
        pipe_after(es.take(k)).bridged is Some,
        pipe_after(es.take(j)).bridged->Some_0 <= pipe_after(es.take(k)).bridged->Some_0,
        es[k] == PipeEvent::ClientRead(Some(pipe_action_at(es, k)->WriteUpstream_0)),
{
    lemma_inv(es, j);
    lemma_inv(es, k);
    assert(pipe_accepts(pipe_after(es.take(j)).phase, es[j]));
    assert(pipe_accepts(pipe_after(es.take(k)).phase, es[k]));
    lemma_accepted_grows(es, j, k);
}

/// From the step where client `w` stops being bridged on, it is bridged
/// never again, so nothing more it sends reaches the container.
proof fn lemma_unbridged_stays_out(es: Seq<PipeEvent>, j: int, w: nat, m: int)
    requires
        pipe_valid_run(es),
        0 <= j < m <= es.len(),
        pipe_after(es.take(j)).bridged == Some(w),
        pipe_after(es.take(j + 1)).bridged != Some(w),
    ensures
        pipe_after(es.take(m)).accepted >= w + 1,
        pipe_after(es.take(m)).bridged is Some ==> pipe_after(es.take(m)).accepted >= w + 2,
    decreases m,
{
    lemma_inv(es, j);
    lemma_inv(es, m);
    if m == j + 1 {
        lemma_accepted_grows(es, j, m);
    } else {
        lemma_unbridged_stays_out(es, j, w, m - 1);
        lemma_inv(es, m - 1);
        lemma_after_step(es, m - 1);
        assert(pipe_accepts(pipe_after(es.take(m - 1)).phase, es[m - 1]));
        lemma_inv_step(pipe_after(es.take(m - 1)), es[m - 1]);
    }
}

/// A client that is no longer bridged (it left, failed, its write to the
/// container failed, or a new connection replaced it) sends nothing more to
/// the container: every later write carries bytes of a later client.
pub proof fn law_unbridged_client_writes_no_more(es: Seq<PipeEvent>, j: int, k: int, w: nat)
    requires
        pipe_valid_run(es),
        0 <= j < k < es.len(),
        pipe_after(es.take(j)).bridged == Some(w),
        pipe_after(es.take(j + 1)).bridged != Some(w),
        pipe_action_at(es, k) is WriteUpstream,
    ensures
        pipe_after(es.take(k)).bridged matches Some(i) && i > w,
{
    lemma_inv(es, k);
    assert(pipe_accepts(pipe_after(es.take(k)).phase, es[k]));
    lemma_unbridged_stays_out(es, j, w, k);
}

/// After a failed write to the container, the rest of that client's bytes
/// are dropped: the client is no longer bridged, and no later write carries
/// its bytes.
pub proof fn law_failed_write_drops_client_tail(es: Seq<PipeEvent>, j: int, k: int)
    requires
        pipe_valid_run(es),
        0 <= j < k < es.len(),
        es[j] == PipeEvent::Wrote(false),
        pipe_action_at(es, k) is WriteUpstream,
    ensures
        pipe_after(es.take(j)).bridged is Some,
        pipe_after(es.take(j + 1)).bridged is None,
        pipe_after(es.take(k)).bridged->Some_0 > pipe_after(es.take(j)).bridged->Some_0,
{
    lemma_inv(es, j);
    assert(pipe_accepts(pipe_after(es.take(j)).phase, es[j]));
    lemma_after_step(es, j);
    let w = pipe_after(es.take(j)).bridged->Some_0;
    law_unbridged_client_writes_no_more(es, j, k, w);
}

} // verus!
