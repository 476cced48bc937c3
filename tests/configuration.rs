use k8s_entity_provider::configuration::{
    BackstageSettings, Cache, CorsSettings, Environment, KubeConnectionSettings,
    KubeRetrySettings, KubeSettings, NatsProxy, RateLimitSettings, Resource, ServerSettings,
    Settings,
};
use k8s_entity_provider::entities::{Metadata, User, UserSpec};
use k8s_entity_provider::errors::ConfigError;

fn server() -> ServerSettings {
    ServerSettings {
        port: 8080,
        host: "0.0.0.0".to_string(),
        request_timeout: 30,
        rate_limit: RateLimitSettings::default(),
        cors: CorsSettings { allow_all_origins: true, ..CorsSettings::default() },
        enable_request_id: true,
    }
}

fn user() -> User {
    User {
        api_version: String::new(),
        kind: String::new(),
        metadata: Metadata::new("alice".to_string()),
        spec: UserSpec { profile: None, member_of: vec!["team".to_string()] },
    }
}

fn backstage() -> BackstageSettings {
    BackstageSettings { name: "catalog".to_string(), annotations: None, groups: vec![], users: vec![user()], domains: None }
}

fn resource(name: &str, event_type: &str, groups: Option<Vec<&str>>) -> Resource {
    Resource {
        name: name.to_string(),
        namespaces: vec![],
        api_groups: groups.map(|g| g.into_iter().map(|s| s.to_string()).collect()),
        label_selectors: vec![],
        field_selectors: vec![],
        event_type: event_type.to_string(),
    }
}

fn settings() -> Settings {
    Settings {
        name: "provider".to_string(),
        display: "Provider".to_string(),
        cluster: "ci".to_string(),
        server: server(),
        backstage: backstage(),
        nats: NatsProxy { proxy_url: "http://nats:4222".to_string() },
        kube: KubeSettings { resources: vec![resource("pods", "t", None)], ..KubeSettings::default() },
        cache: Cache { def_channel_size: 32, poll_interval: 60, purge_cache_interval: 120 },
    }
}

fn invalid(r: Result<(), ConfigError>) -> (String, String) {
    match r {
        Err(ConfigError::InvalidValue { key, value }) => (key, value),
        _ => panic!("expected an invalid value"),
    }
}

fn missing(r: Result<(), ConfigError>) -> String {
    match r {
        Err(ConfigError::MissingConfig(k)) => k,
        _ => panic!("expected a missing setting"),
    }
}

#[test]
fn complete_settings_are_valid() {
    assert!(settings().validate().is_ok());
}

#[test]
fn empty_name_is_missing() {
    let s = Settings { name: String::new(), ..settings() };
    assert_eq!(missing(s.validate()), "name");
}

#[test]
fn zero_poll_interval_is_invalid() {
    let c = Cache { def_channel_size: 1, poll_interval: 0, purge_cache_interval: 1 };
    assert_eq!(invalid(c.validate()), ("cache.poll_interval".to_string(), "0".to_string()));
}

#[test]
fn cors_without_origins_is_invalid() {
    let s = ServerSettings { cors: CorsSettings::default(), ..server() };
    assert_eq!(
        invalid(s.validate()),
        (
            "server.cors.allowed_origins".to_string(),
            "No allowed origins specified and allow_all_origins is false".to_string()
        )
    );
}

#[test]
fn disabled_rate_limit_skips_rates() {
    let s = ServerSettings {
        rate_limit: RateLimitSettings { requests_per_second: 0, burst_size: 0, enabled: false },
        ..server()
    };
    assert!(s.validate().is_ok());
    let s = ServerSettings {
        rate_limit: RateLimitSettings { requests_per_second: 0, burst_size: 0, enabled: true },
        ..server()
    };
    assert_eq!(invalid(s.validate()).0, "server.rate_limit.requests_per_second");
}

#[test]
fn catalog_needs_a_user() {
    let b = BackstageSettings { users: vec![], ..backstage() };
    assert_eq!(invalid(b.validate()), ("backstage.users".to_string(), "must have at least one user".to_string()));
}

#[test]
fn proxy_url_must_parse() {
    let n = NatsProxy { proxy_url: "not a url".to_string() };
    let (key, value) = invalid(n.validate());
    assert_eq!(key, "nats.proxy_url");
    assert!(value.starts_with("not a url: "));
    assert!(value.len() > "not a url: ".len());
    let n = NatsProxy { proxy_url: String::new() };
    assert_eq!(missing(n.validate()), "nats.proxy_url");
}

#[test]
fn empty_api_group_is_reported_with_position() {
    let r = resource("pods", "t", Some(vec!["apps", ""]));
    assert_eq!(invalid(r.validate()), ("resource.api_groups[1]".to_string(), "Empty API group".to_string()));
}

#[test]
fn resource_problem_is_reported_under_its_position() {
    let k = KubeSettings {
        resources: vec![resource("pods", "t", None), resource("events", "", None)],
        ..KubeSettings::default()
    };
    assert_eq!(
        invalid(k.validate()),
        (
            "kube.resources[1]".to_string(),
            "Missing required configuration: resource.event_type".to_string()
        )
    );
}

#[test]
fn defaults_match_documented_values() {
    let r = KubeRetrySettings::default();
    assert_eq!((r.max_retries, r.base_delay_ms, r.max_delay_ms, r.enabled), (3, 100, 5000, true));
    let c = KubeConnectionSettings::default();
    assert_eq!((c.pool_size, c.idle_timeout_secs, c.keep_alive_secs), (10, 90, 30));
    let cors = CorsSettings::default();
    assert_eq!(cors.allowed_methods, vec!["GET", "POST", "PUT", "DELETE"]);
    assert_eq!(cors.max_age, 86400);
    let res = Resource::default();
    assert_eq!(res.name, "events");
    assert_eq!(res.event_type, "axyom.k8s.event.v1");
}

#[test]
fn environment_names_in_any_case() {
    assert!(matches!(Environment::try_from_name("Production"), Ok(Environment::Production)));
    assert_eq!(Environment::try_from_name("LOCAL").unwrap().as_str(), "local");
    assert_eq!(
        Environment::try_from_name("Staging").err().unwrap(),
        "staging is not a supported environment. Use either `local` or `production`."
    );
}

#[test]
fn error_messages_render_variants() {
    assert_eq!(ConfigError::missing("a").message(), "Missing required configuration: a");
    assert_eq!(ConfigError::invalid("k", "v").message(), "Invalid configuration value for k: v");
    assert_eq!(ConfigError::parse("p").message(), "Failed to parse configuration: p");
    assert_eq!(ConfigError::env_var("e").message(), "Environment variable error: e");
}
