use std::collections::VecDeque;

use mcpfile::config::{Config, Defaults, ServiceConfig, Transport};
use mcpfile::docker::{ContainerInfo, PortMapping};
use mcpfile::lifecycle::{
    status_lines, up_mode, UpMode, Down, DockerReply, DockerRequest, Status, Step, UpForeground, UpSse,
};
use mcpfile::strmap::StrMap;
use mcpfile::bridge::{BridgeRequest, BridgeRun, BridgeStep};

#[derive(Debug, Clone, PartialEq)]
enum DockerCall {
    Create(String),
    Start(String),
    Stop(String),
    Remove(String),
    Inspect(String),
    Attach(String),
    List(String, String),
    Wait(String),
}

/// Answers calls from queued replies, with the same fallbacks as a daemon
/// that has nothing to report, and records every call.
struct MockDocker {
    calls: Vec<DockerCall>,
    create: VecDeque<Result<String, String>>,
    inspect: VecDeque<Result<ContainerInfo, String>>,
    list: VecDeque<Result<Vec<ContainerInfo>, String>>,
    wait: VecDeque<Result<i64, String>>,
    attach: VecDeque<Result<(), String>>,
    start: VecDeque<Result<(), String>>,
}

impl MockDocker {
    fn new() -> Self {
        MockDocker {
            calls: Vec::new(),
            create: VecDeque::new(),
            inspect: VecDeque::new(),
            list: VecDeque::new(),
            wait: VecDeque::new(),
            attach: VecDeque::new(),
            start: VecDeque::new(),
        }
    }

    fn answer(&mut self, req: DockerRequest) -> DockerReply {
        match req {
            DockerRequest::ListByLabel { label, value } => {
                self.calls.push(DockerCall::List(label, value));
                DockerReply::Listed(self.list.pop_front().unwrap_or(Ok(vec![])))
            },
            DockerRequest::Stop { id } => {
                self.calls.push(DockerCall::Stop(id));
                DockerReply::Unit(Ok(()))
            },
            DockerRequest::Remove { id, .. } => {
                self.calls.push(DockerCall::Remove(id));
                DockerReply::Unit(Ok(()))
            },
            DockerRequest::Create { params } => {
                self.calls.push(DockerCall::Create(params.name.clone()));
                DockerReply::Created(self.create.pop_front().unwrap_or(Ok("mock-id".into())))
            },
            DockerRequest::Start { id } => {
                self.calls.push(DockerCall::Start(id));
                DockerReply::Unit(self.start.pop_front().unwrap_or(Ok(())))
            },
            DockerRequest::Inspect { id } => {
                self.calls.push(DockerCall::Inspect(id.clone()));
                DockerReply::Inspected(self.inspect.pop_front().unwrap_or_else(|| {
                    Ok(info(&id, "", "running", &[], vec![]))
                }))
            },
            DockerRequest::Attach { id } => {
                self.calls.push(DockerCall::Attach(id));
                DockerReply::Unit(self.attach.pop_front().unwrap_or(Ok(())))
            },
            DockerRequest::Wait { id } => {
                self.calls.push(DockerCall::Wait(id));
                DockerReply::Exited(self.wait.pop_front().unwrap_or(Ok(0)))
            },
        }
    }
}

fn info(id: &str, name: &str, state: &str, labels: &[(&str, &str)], ports: Vec<PortMapping>) -> ContainerInfo {
    ContainerInfo {
        id: id.into(),
        name: name.into(),
        state: state.into(),
        labels: StrMap::from_pairs(labels.iter().map(|(k, v)| (k.to_string(), v.to_string())).collect()),
        ports,
    }
}

fn test_service(transport: Transport) -> ServiceConfig {
    ServiceConfig {
        image: "test/image:latest".to_string(),
        transport,
        container_port: Some(8080),
        env: StrMap::from_pairs(vec![("FOO".to_string(), "bar".to_string())]),
        secrets: StrMap::new(),
        aws_profile: None,
        aws_region: None,
        command: Vec::new(),
    }
}

fn run_sse(m: &mut UpSse, mock: &mut MockDocker) -> Result<Vec<String>, String> {
    let mut step = m.start();
    loop {
        match step {
            Step::Finish(r) => return r,
            Step::Call(req) => {
                let reply = mock.answer(req);
                step = m.step(reply);
            },
        }
    }
}

fn run_down(m: &mut Down, mock: &mut MockDocker) -> Result<Vec<String>, String> {
    let mut step = m.start();
    loop {
        match step {
            Step::Finish(r) => return r,
            Step::Call(req) => {
                let reply = mock.answer(req);
                step = m.step(reply);
            },
        }
    }
}

fn run_foreground(m: &mut UpForeground, mock: &mut MockDocker) -> Result<Vec<String>, String> {
    let mut step = m.start();
    loop {
        match step {
            Step::Finish(r) => return r,
            Step::Call(req) => {
                let reply = mock.answer(req);
                step = m.step(reply);
            },
        }
    }
}

#[test]
fn up_sse_creates_and_starts() {
    let mut mock = MockDocker::new();
    mock.list.push_back(Ok(vec![]));
    mock.create.push_back(Ok("abc123".into()));
    mock.inspect.push_back(Ok(info(
        "abc123",
        "mcpfile-grafana",
        "running",
        &[],
        vec![PortMapping { container_port: 8080, host_port: 54321 }],
    )));

    let svc = test_service(Transport::Sse);
    let mut up = UpSse::new("grafana", &svc, &svc.env, &StrMap::new(), false);
    let lines = run_sse(&mut up, &mut mock).unwrap();

    let calls = mock.calls.clone();
    assert!(matches!(&calls[0], DockerCall::List(..)));
    assert!(matches!(&calls[1], DockerCall::Remove(..)));
    assert!(matches!(&calls[2], DockerCall::Create(..)));
    assert!(matches!(&calls[3], DockerCall::Start(..)));
    assert!(matches!(&calls[4], DockerCall::Inspect(..)));
    assert_eq!(lines, vec!["grafana is running on http://localhost:54321"]);
    assert_eq!(
        calls,
        vec![
            DockerCall::List("mcpfile.service".into(), "grafana".into()),
            DockerCall::Remove("mcpfile-grafana".into()),
            DockerCall::Create("mcpfile-grafana".into()),
            DockerCall::Start("abc123".into()),
            DockerCall::Inspect("abc123".into()),
        ]
    );
    assert!(up.is_finished());
}

#[test]
fn up_sse_already_running_skips() {
    let mut mock = MockDocker::new();
    mock.list.push_back(Ok(vec![info("existing", "mcpfile-test", "running", &[], vec![])]));

    let svc = test_service(Transport::Sse);
    let mut up = UpSse::new("test", &svc, &svc.env, &StrMap::new(), false);
    let lines = run_sse(&mut up, &mut mock).unwrap();

    assert_eq!(mock.calls.len(), 1); // only the list call
    assert_eq!(lines, vec!["test is already running"]);
}

#[test]
fn up_sse_force_stops_then_recreates() {
    let mut mock = MockDocker::new();
    mock.list.push_back(Ok(vec![info("old-id", "mcpfile-test", "running", &[], vec![])]));
    mock.create.push_back(Ok("new-id".into()));
    mock.inspect.push_back(Ok(info(
        "new-id",
        "mcpfile-test",
        "running",
        &[],
        vec![PortMapping { container_port: 8080, host_port: 9999 }],
    )));

    let svc = test_service(Transport::Sse);
    let mut up = UpSse::new("test", &svc, &svc.env, &StrMap::new(), true);
    let lines = run_sse(&mut up, &mut mock).unwrap();

    let calls = mock.calls.clone();
    assert!(matches!(&calls[1], DockerCall::Stop(id) if id == "old-id"));
    assert!(matches!(&calls[2], DockerCall::Remove(id) if id == "old-id"));
    assert_eq!(lines, vec!["test is running on http://localhost:9999"]);
}

#[test]
fn up_sse_force_replaces_every_listed_container() {
    let mut mock = MockDocker::new();
    mock.list.push_back(Ok(vec![
        info("a", "mcpfile-t", "exited", &[], vec![]),
        info("b", "mcpfile-t", "running", &[], vec![]),
    ]));
    let svc = test_service(Transport::Sse);
    let mut up = UpSse::new("t", &svc, &svc.env, &StrMap::new(), true);
    let lines = run_sse(&mut up, &mut mock).unwrap();
    assert_eq!(
        mock.calls,
        vec![
            DockerCall::List("mcpfile.service".into(), "t".into()),
            DockerCall::Stop("a".into()),
            DockerCall::Remove("a".into()),
            DockerCall::Stop("b".into()),
            DockerCall::Remove("b".into()),
            DockerCall::Remove("mcpfile-t".into()),
            DockerCall::Create("mcpfile-t".into()),
            DockerCall::Start("mock-id".into()),
            DockerCall::Inspect("mock-id".into()),
        ]
    );
    assert_eq!(lines, vec!["t is running (could not determine port)"]);
}

#[test]
fn up_sse_create_error_ends_the_command() {
    let mut mock = MockDocker::new();
    mock.create.push_back(Err("no such image".into()));
    let svc = test_service(Transport::Sse);
    let mut up = UpSse::new("t", &svc, &svc.env, &StrMap::new(), false);
    assert_eq!(run_sse(&mut up, &mut mock), Err("no such image".to_string()));
    assert_eq!(mock.calls.len(), 3);
}

#[test]
fn up_sse_list_error_ends_the_command() {
    let mut mock = MockDocker::new();
    mock.list.push_back(Err("daemon down".into()));
    let svc = test_service(Transport::Sse);
    let mut up = UpSse::new("t", &svc, &svc.env, &StrMap::new(), true);
    assert_eq!(run_sse(&mut up, &mut mock), Err("daemon down".to_string()));
    assert_eq!(mock.calls.len(), 1);
}

#[test]
fn down_stops_all_matching() {
    let mut mock = MockDocker::new();
    mock.list.push_back(Ok(vec![
        info("id1", "mcpfile-tldv-abc", "running", &[], vec![]),
        info("id2", "mcpfile-tldv-def", "running", &[], vec![]),
    ]));

    let mut down = Down::new("tldv");
    let lines = run_down(&mut down, &mut mock).unwrap();

    let stops: Vec<_> =
        mock.calls.clone().into_iter().filter(|c| matches!(c, DockerCall::Stop(..))).collect();
    assert_eq!(stops.len(), 2);
    assert_eq!(lines, vec!["tldv stopped (2 instances)"]);
}

#[test]
fn down_not_running_is_ok() {
    let mut mock = MockDocker::new();
    mock.list.push_back(Ok(vec![]));
    let mut down = Down::new("test");
    let lines = run_down(&mut down, &mut mock).unwrap();
    assert_eq!(lines, vec!["test is not running"]);
}

#[test]
fn down_single_instance_message() {
    let mut mock = MockDocker::new();
    mock.list.push_back(Ok(vec![info("only", "mcpfile-x", "exited", &[], vec![])]));
    let mut down = Down::new("x");
    let lines = run_down(&mut down, &mut mock).unwrap();
    assert_eq!(lines, vec!["x stopped (1 instance)"]);
    assert_eq!(
        mock.calls,
        vec![DockerCall::List("mcpfile.service".into(), "x".into()), DockerCall::Stop("only".into())]
    );
}

#[test]
fn status_shows_services() {
    let mut mock = MockDocker::new();
    mock.list.push_back(Ok(vec![info(
        "id1",
        "mcpfile-grafana",
        "running",
        &[("mcpfile.service", "grafana")],
        vec![PortMapping { container_port: 8080, host_port: 54321 }],
    )]));

    let config = Config {
        defaults: Defaults { aws_region: "us-east-1".into(), aws_profile: "dev".into() },
        services: StrMap::from_pairs(vec![("grafana".into(), test_service(Transport::Sse))]),
    };

    let mut status = Status::new(&config);
    let mut step = status.start();
    let lines = loop {
        match step {
            Step::Finish(r) => break r.unwrap(),
            Step::Call(req) => {
                let reply = mock.answer(req);
                step = status.step(reply);
            },
        }
    };
    assert_eq!(mock.calls, vec![DockerCall::List("mcpfile.managed".into(), "true".into())]);
    assert_eq!(
        lines,
        vec![
            "SERVICE         STATUS     ENDPOINT",
            "grafana         running    http://localhost:54321",
        ]
    );
}

#[test]
fn status_table_rows() {
    let names = vec!["alpha".to_string(), "beta".to_string(), "gamma".to_string()];
    let containers = vec![
        info("1", "mcpfile-beta", "exited", &[("mcpfile.service", "beta")], vec![]),
        info("2", "gamma", "created", &[], vec![]),
        info(
            "3",
            "mcpfile-beta",
            "running",
            &[("mcpfile.service", "beta")],
            vec![PortMapping { container_port: 1, host_port: 8081 }],
        ),
    ];
    let lines = status_lines(&names, &containers);
    assert_eq!(
        lines,
        vec![
            "SERVICE         STATUS     ENDPOINT",
            "alpha           stopped    -",
            "beta            running    http://localhost:8081",
            "gamma           created    -",
        ]
    );
}

#[test]
fn foreground_runs_attaches_and_waits() {
    let mut mock = MockDocker::new();
    mock.create.push_back(Ok("fg".into()));
    let svc = test_service(Transport::Stdio);
    let mut up = UpForeground::new("tldv", &svc, &svc.env, &StrMap::new());
    let lines = run_foreground(&mut up, &mut mock).unwrap();
    assert!(lines.is_empty());
    assert_eq!(
        mock.calls,
        vec![
            DockerCall::Remove("mcpfile-tldv".into()),
            DockerCall::Create("mcpfile-tldv".into()),
            DockerCall::Start("fg".into()),
            DockerCall::Attach("fg".into()),
            DockerCall::Wait("fg".into()),
        ]
    );
}

#[test]
fn foreground_nonzero_exit_is_an_error() {
    let mut mock = MockDocker::new();
    mock.wait.push_back(Ok(3));
    let svc = test_service(Transport::Stdio);
    let mut up = UpForeground::new("tldv", &svc, &svc.env, &StrMap::new());
    assert_eq!(run_foreground(&mut up, &mut mock), Err("container exited with code 3".to_string()));

    let mut mock = MockDocker::new();
    mock.wait.push_back(Ok(-1));
    let mut up = UpForeground::new("tldv", &svc, &svc.env, &StrMap::new());
    assert_eq!(run_foreground(&mut up, &mut mock), Err("container exited with code -1".to_string()));
}

#[test]
fn foreground_attach_error_skips_wait() {
    let mut mock = MockDocker::new();
    mock.attach.push_back(Err("broken pipe".into()));
    let svc = test_service(Transport::Stdio);
    let mut up = UpForeground::new("tldv", &svc, &svc.env, &StrMap::new());
    assert_eq!(run_foreground(&mut up, &mut mock), Err("broken pipe".to_string()));
    assert!(!mock.calls.iter().any(|c| matches!(c, DockerCall::Wait(..))));
}

#[test]
fn up_mode_choices() {
    assert_eq!(up_mode(Transport::Sse, false, false), Ok(UpMode::Detached));
    assert_eq!(up_mode(Transport::Stdio, false, false), Ok(UpMode::Foreground));
    assert_eq!(up_mode(Transport::Stdio, true, false), Ok(UpMode::SpawnBridge));
    assert_eq!(
        up_mode(Transport::Sse, true, false),
        Err("--bridge is only supported for stdio services".to_string())
    );
    assert_eq!(up_mode(Transport::Sse, false, true), Ok(UpMode::BridgeProcess));
}

/// Runs a bridge process against scripted replies and records its requests.
fn run_bridge(
    m: &mut BridgeRun,
    replies: Vec<DockerReply>,
) -> (Vec<String>, Result<(), String>) {
    let mut seen = Vec::new();
    let mut replies = VecDeque::from(replies);
    let mut step = m.start();
    loop {
        match step {
            BridgeStep::Finish(outcome) => return (seen, outcome),
            BridgeStep::Call(req) => {
                seen.push(match req {
                    BridgeRequest::Create { params } => format!("create {}", params.name),
                    BridgeRequest::Start { id } => format!("start {id}"),
                    BridgeRequest::OpenStreams { id } => format!("attach {id}"),
                    BridgeRequest::ServeSocket { path } => format!("serve {path}"),
                    BridgeRequest::Wait { id } => format!("wait {id}"),
                });
                step = m.step(replies.pop_front().expect("a reply for each request"));
            },
        }
    }
}

#[test]
fn bridge_run_serves_then_waits() {
    let svc = test_service(Transport::Stdio);
    let mut m = BridgeRun::new(
        "test",
        "mcpfile-test-0000abcd",
        "/tmp/mcpfile-test-0000abcd.sock",
        &svc,
        &svc.env,
        &StrMap::new(),
    );
    let (seen, outcome) = run_bridge(
        &mut m,
        vec![
            DockerReply::Created(Ok("cid".into())),
            DockerReply::Unit(Ok(())),
            DockerReply::Unit(Ok(())),
            DockerReply::Unit(Ok(())),
            DockerReply::Exited(Err("wait failed".into())),
        ],
    );
    assert_eq!(
        seen,
        vec![
            "create mcpfile-test-0000abcd",
            "start cid",
            "attach cid",
            "serve /tmp/mcpfile-test-0000abcd.sock",
            "wait cid",
        ]
    );
    assert_eq!(outcome, Ok(()));
    assert!(m.is_finished());
}

#[test]
fn bridge_run_failure_before_wait_ends_it() {
    let svc = test_service(Transport::Stdio);
    let new = || {
        BridgeRun::new("test", "c", "/tmp/s.sock", &svc, &svc.env, &StrMap::new())
    };
    let (seen, outcome) = run_bridge(&mut new(), vec![DockerReply::Created(Err("no image".into()))]);
    assert_eq!(seen, vec!["create c"]);
    assert_eq!(outcome, Err("no image".to_string()));

    let (seen, outcome) = run_bridge(
        &mut new(),
        vec![
            DockerReply::Created(Ok("cid".into())),
            DockerReply::Unit(Ok(())),
            DockerReply::Unit(Err("attach failed".into())),
        ],
    );
    assert_eq!(seen, vec!["create c", "start cid", "attach cid"]);
    assert_eq!(outcome, Err("attach failed".to_string()));

    let (seen, outcome) = run_bridge(
        &mut new(),
        vec![
            DockerReply::Created(Ok("cid".into())),
            DockerReply::Unit(Ok(())),
            DockerReply::Unit(Ok(())),
            DockerReply::Unit(Err("bind failed".into())),
        ],
    );
    assert_eq!(seen.last().map(String::as_str), Some("serve /tmp/s.sock"));
    assert_eq!(outcome, Err("bind failed".to_string()));
}
