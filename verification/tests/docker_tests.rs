use mcpfile::config::{ServiceConfig, Transport};
use mcpfile::docker::{
    build_container_params, container_name, create_request, info_from_inspect, info_from_summary,
    inspect_ports, label_filter, state_text, ContainerStatus, PortMapping,
};
use mcpfile::strmap::StrMap;

fn text_map(pairs: &[(&str, &str)]) -> StrMap<String> {
    StrMap::from_pairs(pairs.iter().map(|(k, v)| (k.to_string(), v.to_string())).collect())
}

fn test_service(transport: Transport) -> ServiceConfig {
    ServiceConfig {
        image: "test/image:latest".to_string(),
        transport,
        container_port: Some(8080),
        env: text_map(&[("FOO", "bar")]),
        secrets: StrMap::new(),
        aws_profile: None,
        aws_region: None,
        command: Vec::new(),
    }
}

#[test]
fn build_params_sse() {
    let svc = test_service(Transport::Sse);
    let secrets = text_map(&[("SECRET", "val")]);
    let params = build_container_params("mcpfile-grafana", "grafana", &svc, &svc.env, &secrets);

    assert_eq!(params.name, "mcpfile-grafana");
    assert_eq!(params.image, "test/image:latest");
    assert!(!params.stdin_open);
    assert!(params.auto_remove);
    assert_eq!(params.exposed_ports, vec![8080]);
    assert!(params.env.contains(&"FOO=bar".to_string()));
    assert!(params.env.contains(&"SECRET=val".to_string()));
    assert_eq!(params.labels.get("mcpfile.service").unwrap(), "grafana");
}

#[test]
fn build_params_stdio_no_port() {
    let svc = ServiceConfig {
        image: "tldv:latest".into(),
        transport: Transport::Stdio,
        container_port: None,
        env: StrMap::new(),
        secrets: StrMap::new(),
        aws_profile: None,
        aws_region: None,
        command: vec!["cat".into()],
    };
    let params = build_container_params("mcpfile-tldv-abc", "tldv", &svc, &svc.env, &StrMap::new());

    assert!(params.stdin_open);
    assert!(params.exposed_ports.is_empty());
    assert_eq!(params.command, vec!["cat"]);
}

#[test]
fn build_params_env_sorted() {
    let svc = test_service(Transport::Sse);
    let env = text_map(&[("Z_VAR", "z"), ("A_VAR", "a")]);
    let params = build_container_params("test", "test", &svc, &env, &StrMap::new());

    let env_strs: Vec<&str> = params.env.iter().map(String::as_str).collect();
    let a_pos = env_strs.iter().position(|e| *e == "A_VAR=a").unwrap();
    let z_pos = env_strs.iter().position(|e| *e == "Z_VAR=z").unwrap();
    assert!(a_pos < z_pos);
}

#[test]
fn build_params_env_then_secrets_each_sorted() {
    let svc = test_service(Transport::Sse);
    let env = text_map(&[("B", "2"), ("A", "1")]);
    let secrets = text_map(&[("Y", "s2"), ("X", "s1")]);
    let params = build_container_params("c", "svc", &svc, &env, &secrets);
    assert_eq!(params.env, vec!["A=1", "B=2", "X=s1", "Y=s2"]);
}

#[test]
fn build_params_labels() {
    let svc = test_service(Transport::Stdio);
    let params = build_container_params("c", "tldv", &svc, &StrMap::new(), &StrMap::new());
    assert_eq!(params.labels.len(), 3);
    assert_eq!(params.labels.get("mcpfile.managed").unwrap(), "true");
    assert_eq!(params.labels.get("mcpfile.service").unwrap(), "tldv");
    assert_eq!(params.labels.get("mcpfile.transport").unwrap(), "stdio");
    // A stdio service publishes no port even when one is configured.
    assert!(params.exposed_ports.is_empty());
}

#[test]
fn container_names() {
    assert_eq!(container_name("grafana"), "mcpfile-grafana");
    assert_eq!(label_filter("mcpfile.service", "tldv"), "mcpfile.service=tldv");
}

#[test]
fn create_request_for_sse() {
    let svc = test_service(Transport::Sse);
    let params = build_container_params("mcpfile-g", "g", &svc, &svc.env, &StrMap::new());
    let req = create_request(&params);
    assert_eq!(req.name, "mcpfile-g");
    assert_eq!(req.image, "test/image:latest");
    assert_eq!(req.port_keys, Some(vec!["8080/tcp".to_string()]));
    assert_eq!(req.cmd, None);
    assert!(!req.open_stdin && !req.attach_stdin);
    assert!(req.attach_stdout && req.attach_stderr && req.auto_remove);
    assert_eq!(req.env, vec!["FOO=bar"]);
    assert_eq!(req.labels.len(), 3);
    assert_eq!(req.labels[0], ("mcpfile.managed".to_string(), "true".to_string()));
}

#[test]
fn create_request_for_stdio_with_command() {
    let mut svc = test_service(Transport::Stdio);
    svc.command = vec!["serve".to_string(), "--stdio".to_string()];
    let params = build_container_params("c", "s", &svc, &StrMap::new(), &StrMap::new());
    let req = create_request(&params);
    assert_eq!(req.port_keys, None);
    assert_eq!(req.cmd, Some(vec!["serve".to_string(), "--stdio".to_string()]));
    assert!(req.open_stdin && req.attach_stdin);
}

#[test]
fn inspect_reads_ports() {
    let entries = vec![
        (
            "8080/tcp".to_string(),
            Some(vec![Some("54321".to_string()), None, Some("bad".to_string())]),
        ),
        ("9090".to_string(), Some(vec![Some("1".to_string())])),
        ("x/tcp".to_string(), Some(vec![Some("+77".to_string())])),
        ("53/udp".to_string(), None),
    ];
    let ports = inspect_ports(&entries);
    assert_eq!(
        ports,
        vec![
            PortMapping { container_port: 8080, host_port: 54321 },
            PortMapping { container_port: 9090, host_port: 1 },
            PortMapping { container_port: 0, host_port: 77 },
        ]
    );
}

#[test]
fn inspect_builds_info() {
    let info = info_from_inspect(
        Some("abc".to_string()),
        Some("//mcpfile-grafana".to_string()),
        Some(ContainerStatus::Running),
        Some(text_map(&[("mcpfile.service", "grafana")])),
        Some(vec![("8000/tcp".to_string(), Some(vec![Some("65535".to_string())]))]),
    );
    assert_eq!(info.id, "abc");
    assert_eq!(info.name, "mcpfile-grafana");
    assert_eq!(info.state, "running");
    assert_eq!(info.labels.get("mcpfile.service").unwrap(), "grafana");
    assert_eq!(info.ports, vec![PortMapping { container_port: 8000, host_port: 65535 }]);

    let bare = info_from_inspect(None, None, None, None, None);
    assert_eq!(bare.id, "");
    assert_eq!(bare.name, "");
    assert_eq!(bare.state, "unknown");
    assert!(bare.labels.is_empty());
    assert!(bare.ports.is_empty());
}

#[test]
fn state_names_are_lowercase() {
    assert_eq!(state_text(Some(ContainerStatus::Empty)), "empty");
    assert_eq!(state_text(Some(ContainerStatus::Exited)), "exited");
    assert_eq!(state_text(Some(ContainerStatus::Restarting)), "restarting");
    assert_eq!(state_text(None), "unknown");
}

#[test]
fn summary_builds_info() {
    let info = info_from_summary(
        Some("id1".to_string()),
        Some(vec!["/mcpfile-tldv-abc".to_string(), "/other".to_string()]),
        Some("running".to_string()),
        None,
        Some(vec![(8080, Some(54321)), (9000, None)]),
    );
    assert_eq!(info.id, "id1");
    assert_eq!(info.name, "mcpfile-tldv-abc");
    assert_eq!(info.state, "running");
    assert!(info.labels.is_empty());
    assert_eq!(info.ports, vec![PortMapping { container_port: 8080, host_port: 54321 }]);

    let bare = info_from_summary(None, Some(vec![]), None, None, None);
    assert_eq!(bare.name, "");
    assert_eq!(bare.state, "");
}
