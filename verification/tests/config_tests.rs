use mcpfile::config::{
    resolve_config_path, Config, ConfigError, ConfigLoader, Defaults, LoadEvent, LoadStep,
    ServiceConfig, Transport,
};
use mcpfile::strmap::StrMap;

fn text_map(pairs: &[(&str, &str)]) -> StrMap<String> {
    StrMap::from_pairs(pairs.iter().map(|(k, v)| (k.to_string(), v.to_string())).collect())
}

fn service(image: &str, transport: Transport, port: Option<u16>) -> ServiceConfig {
    ServiceConfig {
        image: image.to_string(),
        transport,
        container_port: port,
        env: StrMap::new(),
        secrets: StrMap::new(),
        aws_profile: None,
        aws_region: None,
        command: Vec::new(),
    }
}

fn config(region: &str, profile: &str, services: Vec<(&str, ServiceConfig)>) -> Config {
    Config {
        defaults: Defaults { aws_region: region.to_string(), aws_profile: profile.to_string() },
        services: StrMap::from_pairs(services.into_iter().map(|(n, s)| (n.to_string(), s)).collect()),
    }
}

#[test]
fn parse_full_config() {
    let mut grafana = service("mcp/grafana:latest", Transport::Sse, Some(8080));
    grafana.env = text_map(&[("GRAFANA_URL", "https://grafana.example.com")]);
    grafana.secrets = text_map(&[("API_KEY", "/infra/mcp/key")]);
    let mut tldv = service("mcp/tldv:latest", Transport::default(), Some(3000));
    tldv.aws_profile = Some("prod".to_string());
    let config = config("us-east-1", "dev", vec![("grafana", grafana), ("tldv", tldv)]);

    assert_eq!(config.defaults.aws_region, "us-east-1");
    assert_eq!(config.defaults.aws_profile, "dev");
    assert_eq!(config.services.len(), 2);

    let grafana = config.service("grafana").unwrap();
    assert_eq!(grafana.image, "mcp/grafana:latest");
    assert!(matches!(grafana.transport, Transport::Sse));
    assert_eq!(grafana.container_port, Some(8080));
    assert_eq!(grafana.env.get("GRAFANA_URL").unwrap(), "https://grafana.example.com");
    assert_eq!(grafana.secrets.get("API_KEY").unwrap(), "/infra/mcp/key");

    let tldv = config.service("tldv").unwrap();
    assert_eq!(tldv.aws_profile.as_deref(), Some("prod"));
    assert_eq!(config.aws_profile(tldv), "prod");
    assert_eq!(config.aws_region(tldv), "us-east-1");
}

#[test]
fn parse_real_config_format() {
    let mut grafana = service("mcp/grafana:latest", Transport::Sse, Some(8000));
    grafana.env = text_map(&[("GRAFANA_URL", "https://grafana.example.com")]);
    grafana.secrets = text_map(&[(
        "GRAFANA_SERVICE_ACCOUNT_TOKEN",
        "/mcpfile/grafana/service-account-token",
    )]);
    let mut tldv = service("tldv-mcp-server:latest", Transport::Stdio, None);
    tldv.secrets = text_map(&[("TLDV_API_KEY", "/mcpfile/tldv/api-key")]);
    let config = config("eu-west-3", "infra", vec![("grafana", grafana), ("tldv", tldv)]);
    assert_eq!(config.services.len(), 2);

    let grafana = config.service("grafana").unwrap();
    assert_eq!(grafana.container_port, Some(8000));
    assert!(matches!(grafana.transport, Transport::Sse));

    let tldv = config.service("tldv").unwrap();
    assert!(matches!(tldv.transport, Transport::Stdio));
    assert_eq!(tldv.container_port, None);
    assert_eq!(tldv.secrets.get("TLDV_API_KEY").unwrap(), "/mcpfile/tldv/api-key");
}

#[test]
fn unknown_service_returns_error() {
    let config = config(
        "us-east-1",
        "dev",
        vec![("grafana", service("mcp/grafana:latest", Transport::default(), Some(8080)))],
    );
    assert!(config.service("nonexistent").is_err());
    match config.service("nonexistent") {
        Err(e) => assert_eq!(e.message(), "unknown service: nonexistent"),
        Ok(_) => unreachable!(),
    }
}

#[test]
fn transport_defaults_to_sse() {
    let config = config(
        "us-east-1",
        "dev",
        vec![("test", service("test:latest", Transport::default(), Some(8080)))],
    );
    let svc = config.service("test").unwrap();
    assert!(matches!(svc.transport, Transport::Sse));
}

#[test]
fn stdio_transport() {
    let config =
        config("us-east-1", "dev", vec![("test", service("test:latest", Transport::Stdio, Some(8080)))]);
    let svc = config.service("test").unwrap();
    assert!(matches!(svc.transport, Transport::Stdio));
}

#[test]
fn load_nonexistent_file() {
    let (mut loader, first) = ConfigLoader::start("/nonexistent/config.toml".to_string());
    assert!(matches!(first, LoadStep::CheckExists(ref p) if p == "/nonexistent/config.toml"));
    let result = match loader.step(LoadEvent::Exists(false)) {
        LoadStep::Finish(r) => r,
        _ => panic!("loading should end"),
    };
    assert!(result.is_err());
    match result {
        Err(ConfigError::NotFound(p)) => assert_eq!(p, "/nonexistent/config.toml"),
        _ => panic!("expected NotFound"),
    }
}

#[test]
fn aws_profile_falls_back_to_defaults() {
    let config = config(
        "eu-west-1",
        "default-profile",
        vec![("test", service("test:latest", Transport::default(), Some(8080)))],
    );
    let svc = config.service("test").unwrap();
    assert_eq!(config.aws_profile(svc), "default-profile");
    assert_eq!(config.aws_region(svc), "eu-west-1");
}

#[test]
fn empty_env_and_secrets_default() {
    let config = config(
        "us-east-1",
        "dev",
        vec![("test", service("test:latest", Transport::default(), Some(8080)))],
    );
    let svc = config.service("test").unwrap();
    assert!(svc.env.is_empty());
    assert!(svc.secrets.is_empty());
}

#[test]
fn service_region_overrides_default() {
    let mut svc = service("img", Transport::Sse, None);
    svc.aws_region = Some("ap-south-1".to_string());
    let config = config("us-east-1", "dev", vec![("x", svc)]);
    let s = config.service("x").unwrap();
    assert_eq!(config.aws_region(s), "ap-south-1");
    assert_eq!(config.aws_profile(s), "dev");
}

#[test]
fn service_names_are_sorted() {
    let config = config(
        "r",
        "p",
        vec![
            ("zeta", service("a", Transport::Sse, None)),
            ("alpha", service("b", Transport::Sse, None)),
            ("mid", service("c", Transport::Sse, None)),
        ],
    );
    assert_eq!(config.service_names(), vec!["alpha", "mid", "zeta"]);
}

#[test]
fn config_path_prefers_given_then_env_then_home() {
    let given = resolve_config_path(
        Some("/given.toml".to_string()),
        Some("/env.toml".to_string()),
        Some("/home/u".to_string()),
    );
    assert_eq!(given.unwrap(), "/given.toml");
    let env = resolve_config_path(None, Some("/env.toml".to_string()), Some("/home/u".to_string()));
    assert_eq!(env.unwrap(), "/env.toml");
    let home = resolve_config_path(None, None, Some("/home/u".to_string()));
    assert_eq!(home.unwrap(), "/home/u/.config/mcpfile/config.toml");
    let slash = resolve_config_path(None, None, Some("/home/u/".to_string()));
    assert_eq!(slash.unwrap(), "/home/u/.config/mcpfile/config.toml");
}

#[test]
fn config_path_without_home_is_not_found() {
    match resolve_config_path(None, None, None) {
        Err(ConfigError::NotFound(p)) => assert_eq!(p, "~/.config/mcpfile/config.toml"),
        _ => panic!("expected NotFound"),
    }
}

#[test]
fn loader_reads_then_parses() {
    let (mut loader, _) = ConfigLoader::start("/c.toml".to_string());
    match loader.step(LoadEvent::Exists(true)) {
        LoadStep::ReadFile(p) => assert_eq!(p, "/c.toml"),
        _ => panic!("expected a read"),
    }
    match loader.step(LoadEvent::FileRead(Ok("text".to_string()))) {
        LoadStep::Parse(t) => assert_eq!(t, "text"),
        _ => panic!("expected a parse"),
    }
    match loader.step(LoadEvent::Parsed(Err("bad key".to_string()))) {
        LoadStep::Finish(Err(e)) => assert_eq!(e.message(), "failed to parse config: bad key"),
        _ => panic!("expected a parse error"),
    }
}

#[test]
fn loader_read_error_is_reported() {
    let (mut loader, _) = ConfigLoader::start("/c.toml".to_string());
    let _ = loader.step(LoadEvent::Exists(true));
    match loader.step(LoadEvent::FileRead(Err("permission denied".to_string()))) {
        LoadStep::Finish(Err(e)) => {
            assert_eq!(e.message(), "failed to read config: permission denied")
        },
        _ => panic!("expected a read error"),
    }
}

#[test]
fn loader_returns_parsed_config() {
    let (mut loader, _) = ConfigLoader::start("/c.toml".to_string());
    let _ = loader.step(LoadEvent::Exists(true));
    let _ = loader.step(LoadEvent::FileRead(Ok("x".to_string())));
    let parsed = config("us-east-1", "dev", vec![("test", service("t", Transport::Sse, None))]);
    match loader.step(LoadEvent::Parsed(Ok(parsed))) {
        LoadStep::Finish(Ok(c)) => assert_eq!(c.services.len(), 1),
        _ => panic!("expected the configuration"),
    }
}

#[test]
fn not_found_message() {
    assert_eq!(
        ConfigError::NotFound("/x".to_string()).message(),
        "config file not found: /x"
    );
}
