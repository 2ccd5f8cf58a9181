use mcpfile::pipe::{pump_step, PipeAction, PipeEvent, PipeLoop, PumpAction};

fn run(events: &[PipeEvent]) -> Vec<PipeAction> {
    let mut m = PipeLoop::new();
    let mut actions = vec![m.start()];
    for e in events {
        actions.push(m.step(*e));
    }
    actions
}

#[test]
fn pipe_serves_one_client_then_ends_with_upstream() {
    let actions = run(&[
        PipeEvent::UpstreamEnded(false),
        PipeEvent::Accepted(true),
        PipeEvent::Installed,
        PipeEvent::ClientRead(Some(5)),
        PipeEvent::Wrote(true),
        PipeEvent::ClientRead(Some(0)),
        PipeEvent::Dropped,
        PipeEvent::UpstreamEnded(true),
    ]);
    assert_eq!(
        actions,
        vec![
            PipeAction::CheckUpstream,
            PipeAction::Accept,
            PipeAction::InstallClient,
            PipeAction::ReadClient,
            PipeAction::WriteUpstream(5),
            PipeAction::ReadClient,
            PipeAction::DropClient,
            PipeAction::CheckUpstream,
            PipeAction::Finish,
        ]
    );
}

#[test]
fn pipe_waits_again_after_timeout_and_serves_next_client() {
    let actions = run(&[
        PipeEvent::UpstreamEnded(false),
        PipeEvent::TimedOut,
        PipeEvent::UpstreamEnded(false),
        PipeEvent::Accepted(true),
        PipeEvent::Installed,
        PipeEvent::ClientRead(None),
        PipeEvent::Dropped,
        PipeEvent::UpstreamEnded(false),
        PipeEvent::Accepted(true),
    ]);
    assert_eq!(
        actions,
        vec![
            PipeAction::CheckUpstream,
            PipeAction::Accept,
            PipeAction::CheckUpstream,
            PipeAction::Accept,
            PipeAction::InstallClient,
            PipeAction::ReadClient,
            PipeAction::DropClient,
            PipeAction::CheckUpstream,
            PipeAction::Accept,
            PipeAction::InstallClient,
        ]
    );
}

#[test]
fn pipe_ends_on_accept_failure_and_drops_client_on_write_failure() {
    assert_eq!(
        run(&[PipeEvent::UpstreamEnded(false), PipeEvent::Accepted(false)]).last(),
        Some(&PipeAction::Finish)
    );
    let actions = run(&[
        PipeEvent::UpstreamEnded(false),
        PipeEvent::Accepted(true),
        PipeEvent::Installed,
        PipeEvent::ClientRead(Some(3)),
        PipeEvent::Wrote(false),
    ]);
    assert_eq!(actions.last(), Some(&PipeAction::DropClient));
}

#[test]
fn pump_forwards_until_end() {
    assert_eq!(pump_step(Some(7)), PumpAction::Forward(7));
    assert_eq!(pump_step(Some(0)), PumpAction::ShutDownClient);
    assert_eq!(pump_step(None), PumpAction::ShutDownClient);
}

#[test]
fn pipe_new_connection_replaces_current_client() {
    let actions = run(&[
        PipeEvent::UpstreamEnded(false),
        PipeEvent::Accepted(true),
        PipeEvent::Installed,
        PipeEvent::Accepted(true),
        PipeEvent::Installed,
        PipeEvent::ClientRead(Some(2)),
        PipeEvent::Accepted(true),
    ]);
    assert_eq!(
        actions,
        vec![
            PipeAction::CheckUpstream,
            PipeAction::Accept,
            PipeAction::InstallClient,
            PipeAction::ReadClient,
            PipeAction::InstallClient,
            PipeAction::ReadClient,
            PipeAction::WriteUpstream(2),
            PipeAction::InstallClient,
        ]
    );
}

#[test]
fn pipe_ends_when_upstream_ends_with_client_connected() {
    let reading = run(&[
        PipeEvent::UpstreamEnded(false),
        PipeEvent::Accepted(true),
        PipeEvent::Installed,
        PipeEvent::UpstreamEnded(true),
    ]);
    assert_eq!(reading.last(), Some(&PipeAction::Finish));
    let writing = run(&[
        PipeEvent::UpstreamEnded(false),
        PipeEvent::Accepted(true),
        PipeEvent::Installed,
        PipeEvent::ClientRead(Some(4)),
        PipeEvent::UpstreamEnded(true),
    ]);
    assert_eq!(writing.last(), Some(&PipeAction::Finish));
    let failed_accept = run(&[
        PipeEvent::UpstreamEnded(false),
        PipeEvent::Accepted(true),
        PipeEvent::Installed,
        PipeEvent::Accepted(false),
    ]);
    assert_eq!(failed_accept.last(), Some(&PipeAction::Finish));
}
