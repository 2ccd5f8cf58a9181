use std::collections::{HashMap, VecDeque};

use mcpfile::config::{Config, Defaults, ServiceConfig, Transport};
use mcpfile::secrets::{
    cache_fresh, cache_root, cached_message, fetching_message, services_with_secrets, RealAwsClient,
    ResolveSecrets, SecretReply, SecretRequest, SecretStep, CACHE_DIR_MODE, CACHE_FILE_MODE,
    CACHE_TTL_SECS,
};
use mcpfile::strmap::StrMap;

/// An in-memory cache and a scripted SSM, recording the fetches.
struct World {
    cache: HashMap<(String, String), String>,
    responses: VecDeque<Result<String, String>>,
    calls: Vec<(String, String, String)>,
    cache_reads: usize,
}

impl World {
    fn new(responses: Vec<Result<String, String>>) -> Self {
        World { cache: HashMap::new(), responses: responses.into(), calls: Vec::new(), cache_reads: 0 }
    }

    fn answer(&mut self, req: SecretRequest) -> SecretReply {
        match req {
            SecretRequest::ReadCache { service, env_var } => {
                self.cache_reads += 1;
                SecretReply::Cached(Ok(self.cache.get(&(service, env_var)).cloned()))
            },
            SecretRequest::Fetch { profile, region, parameter } => {
                self.calls.push((profile, region, parameter));
                SecretReply::Fetched(
                    self.responses.pop_front().unwrap_or(Err("no more responses".to_string())),
                )
            },
            SecretRequest::WriteCache { service, env_var, value } => {
                self.cache.insert((service, env_var), value);
                SecretReply::Written(Ok(()))
            },
        }
    }
}

fn resolve(
    world: &mut World,
    config: &Config,
    name: &str,
    svc: &ServiceConfig,
    refresh: bool,
) -> Result<StrMap<String>, String> {
    let mut m = ResolveSecrets::new(config, name, svc, refresh);
    let mut step = m.start();
    loop {
        match step {
            SecretStep::Finish(r) => return r,
            SecretStep::Call(req) => {
                let reply = world.answer(req);
                step = m.step(reply);
            },
        }
    }
}

fn service_with(secrets: &[(&str, &str)]) -> ServiceConfig {
    ServiceConfig {
        image: "test:latest".into(),
        transport: Transport::Sse,
        container_port: Some(8080),
        env: StrMap::new(),
        secrets: StrMap::from_pairs(
            secrets.iter().map(|(k, v)| (k.to_string(), v.to_string())).collect(),
        ),
        aws_profile: None,
        aws_region: None,
        command: Vec::new(),
    }
}

fn test_config() -> Config {
    Config {
        defaults: Defaults { aws_region: "us-east-1".into(), aws_profile: "dev".into() },
        services: StrMap::from_pairs(vec![("svc".into(), service_with(&[("API_KEY", "/path/to/key")]))]),
    }
}

#[test]
fn resolve_fetches_from_ssm_and_caches() {
    let mut world = World::new(vec![Ok("secret-value".into())]);
    let config = test_config();
    let svc = config.service("svc").unwrap();
    let result = resolve(&mut world, &config, "svc", svc, false).unwrap();

    assert_eq!(result.get("API_KEY").unwrap(), "secret-value");
    let cached = world.cache.get(&("svc".to_string(), "API_KEY".to_string())).cloned();
    assert_eq!(cached, Some("secret-value".to_string()));
}

#[test]
fn resolve_uses_fresh_cache() {
    let mut world = World::new(vec![]);
    world.cache.insert(("svc".into(), "API_KEY".into()), "cached-value".into());
    let config = test_config();
    let svc = config.service("svc").unwrap();
    let result = resolve(&mut world, &config, "svc", svc, false).unwrap();

    assert_eq!(result.get("API_KEY").unwrap(), "cached-value");
    assert!(world.calls.is_empty());
}

#[test]
fn resolve_refresh_ignores_cache() {
    let mut world = World::new(vec![Ok("new-value".into())]);
    world.cache.insert(("svc".into(), "API_KEY".into()), "old-value".into());
    let config = test_config();
    let svc = config.service("svc").unwrap();
    let result = resolve(&mut world, &config, "svc", svc, true).unwrap();

    assert_eq!(result.get("API_KEY").unwrap(), "new-value");
    assert_eq!(world.calls.len(), 1);
    assert_eq!(world.cache_reads, 0);
    assert_eq!(world.cache.get(&("svc".to_string(), "API_KEY".to_string())).unwrap(), "new-value");
}

#[test]
fn expired_credentials_error() {
    let mut world =
        World::new(vec![Err("AWS credentials expired. Run: aws login --profile dev".into())]);
    let config = test_config();
    let svc = config.service("svc").unwrap();
    let result = resolve(&mut world, &config, "svc", svc, false);

    let err = result.err().unwrap();
    assert!(err.contains("AWS credentials expired"));
}

#[test]
fn ssm_fetch_passes_correct_args() {
    let mut world = World::new(vec![Ok("val".into())]);
    let config = test_config();
    let svc = config.service("svc").unwrap();
    resolve(&mut world, &config, "svc", svc, false).unwrap();

    let calls = world.calls.clone();
    assert_eq!(calls.len(), 1);
    assert_eq!(calls[0].0, "dev"); // profile
    assert_eq!(calls[0].1, "us-east-1"); // region
    assert_eq!(calls[0].2, "/path/to/key"); // param
}

#[test]
fn pull_all_skips_services_without_secrets() {
    let mut world = World::new(vec![Ok("val".into())]);
    let config = Config {
        defaults: Defaults { aws_region: "us-east-1".into(), aws_profile: "dev".into() },
        services: StrMap::from_pairs(vec![
            ("with_secrets".into(), service_with(&[("KEY", "/path")])),
            ("no_secrets".into(), service_with(&[])),
        ]),
    };
    let names = services_with_secrets(&config);
    assert_eq!(names, vec!["with_secrets"]);
    for name in &names {
        let svc = config.service(name).unwrap();
        resolve(&mut world, &config, name, svc, true).unwrap();
    }
    assert_eq!(world.calls.len(), 1);
}

#[test]
fn resolve_several_secrets_mixed_cache() {
    let mut world = World::new(vec![Ok("fetched-b".into())]);
    world.cache.insert(("svc".into(), "A".into()), "cached-a".into());
    let svc = service_with(&[("B", "/b"), ("A", "/a")]);
    let config = Config {
        defaults: Defaults { aws_region: "r".into(), aws_profile: "p".into() },
        services: StrMap::new(),
    };
    let result = resolve(&mut world, &config, "svc", &svc, false).unwrap();
    assert_eq!(result.len(), 2);
    assert_eq!(result.get("A").unwrap(), "cached-a");
    assert_eq!(result.get("B").unwrap(), "fetched-b");
    assert_eq!(world.calls, vec![("p".to_string(), "r".to_string(), "/b".to_string())]);
}

#[test]
fn resolve_without_secrets_is_empty() {
    let mut world = World::new(vec![]);
    let svc = service_with(&[]);
    let config = test_config();
    let result = resolve(&mut world, &config, "x", &svc, false).unwrap();
    assert!(result.is_empty());
    assert_eq!(world.cache_reads, 0);
}

#[test]
fn service_profile_overrides_default_for_fetch() {
    let mut world = World::new(vec![Ok("v".into())]);
    let mut svc = service_with(&[("K", "/k")]);
    svc.aws_profile = Some("prod".into());
    let config = test_config();
    resolve(&mut world, &config, "x", &svc, true).unwrap();
    assert_eq!(world.calls, vec![("prod".to_string(), "us-east-1".to_string(), "/k".to_string())]);
}

#[test]
fn ssm_args_and_outcomes() {
    let aws = RealAwsClient;
    assert_eq!(
        aws.ssm_args("dev", "us-east-1", "/path/to/key"),
        vec![
            "ssm",
            "get-parameter",
            "--name",
            "/path/to/key",
            "--with-decryption",
            "--profile",
            "dev",
            "--region",
            "us-east-1",
            "--query",
            "Parameter.Value",
            "--output",
            "text"
        ]
    );
    assert_eq!(aws.ssm_outcome(true, "  secret\n", "", "dev", "/p"), Ok("secret".to_string()));
    assert_eq!(
        aws.ssm_outcome(false, "", "An error (ExpiredTokenException) occurred", "dev", "/p"),
        Err("AWS credentials expired. Run: aws login --profile dev".to_string())
    );
    assert_eq!(
        aws.ssm_outcome(false, "", "Unable to locate credentials", "ops", "/p"),
        Err("AWS credentials expired. Run: aws login --profile ops".to_string())
    );
    assert_eq!(
        aws.ssm_outcome(false, "", "\nParameterNotFound\n", "dev", "/missing"),
        Err("failed to fetch secret /missing: ParameterNotFound".to_string())
    );
}

#[test]
fn cache_freshness_rule() {
    assert_eq!(CACHE_TTL_SECS, 3600);
    assert!(cache_fresh(Some(0)));
    assert!(cache_fresh(Some(3599)));
    assert!(!cache_fresh(Some(3600)));
    assert!(!cache_fresh(Some(7200)));
    assert!(!cache_fresh(None));
    assert_eq!(CACHE_DIR_MODE, 0o700);
    assert_eq!(CACHE_FILE_MODE, 0o600);
}

#[test]
fn pull_messages() {
    assert_eq!(fetching_message("grafana"), "Fetching secrets for grafana...");
    assert_eq!(cached_message(2), "  Cached 2 secret(s)");
}

#[test]
fn cache_root_in_home() {
    assert_eq!(cache_root(Some("/home/me")), Ok("/home/me/.cache/mcpfile".to_string()));
    assert_eq!(cache_root(None), Err("HOME not set".to_string()));
}
