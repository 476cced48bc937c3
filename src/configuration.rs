//! Settings and their validation. Each `validate` returns the first problem found, in a
//! fixed order, and `check` states which one that is.
use crate::entities::{Domain, Group, User};
use crate::errors::{config_error_text, ConfigError, ConfigErrorView};
use crate::store::StringMap;
use crate::strings::{decimal, decimal_text, lower_of, lowercase, text_eq};
use vstd::prelude::*;

verus! {

/// The problem that a `validate` reports, if any.
pub open spec fn error_of(r: Result<(), ConfigError>) -> Option<ConfigErrorView> {
    match r {
        Ok(_) => None,
        Err(e) => Some(e@),
    }
}

pub open spec fn missing(key: Seq<char>) -> Option<ConfigErrorView> {
    Some(ConfigErrorView::MissingConfig(key))
}

pub open spec fn invalid(key: Seq<char>, value: Seq<char>) -> Option<ConfigErrorView> {
    Some(ConfigErrorView::InvalidValue(key, value))
}

#[derive(Debug)]
pub struct Cache {
    pub def_channel_size: usize,
    /// Seconds between two listings of the cache.
    pub poll_interval: u64,
    /// Seconds between two purge cycles.
    pub purge_cache_interval: u64,
}

impl Cache {
    pub open spec fn check(&self) -> Option<ConfigErrorView> {
        if self.def_channel_size == 0 {
            invalid("cache.def_channel_size"@, "0"@)
        } else if self.poll_interval == 0 {
            invalid("cache.poll_interval"@, "0"@)
        } else if self.purge_cache_interval == 0 {
            invalid("cache.purge_cache_interval"@, "0"@)
        } else {
            None
        }
    }

    /// Every size and interval must be positive.
    pub fn validate(&self) -> (r: Result<(), ConfigError>)
        ensures
            error_of(r) == self.check(),
    {
        if self.def_channel_size == 0 {
            return Err(ConfigError::invalid("cache.def_channel_size", "0"));
        }
        if self.poll_interval == 0 {
            return Err(ConfigError::invalid("cache.poll_interval", "0"));
        }
        if self.purge_cache_interval == 0 {
            return Err(ConfigError::invalid("cache.purge_cache_interval", "0"));
        }
        Ok(())
    }
}

/// What `url::Url::parse` says of `s`: `None` when it parses as an absolute URL, else the
/// text of the parse error.
pub uninterp spec fn url_parse_failure(s: Seq<char>) -> Option<Seq<char>>;

/// Relies on `url::Url::parse`: whether `s` is an absolute URL, and the text of the error
/// when it is not.
#[verifier::external_body]
fn parse_url(s: &str) -> (r: Result<(), String>)
    ensures
        match r {
            Ok(_) => url_parse_failure(s@) is None,
            Err(m) => url_parse_failure(s@) == Some(m@),
        },
{
    match url::Url::parse(s) {
        Ok(_) => Ok(()),
        Err(e) => Err(e.to_string()),
    }
}

#[derive(Debug)]
pub struct NatsProxy {
    pub proxy_url: String,
}

impl NatsProxy {
    pub open spec fn check(&self) -> Option<ConfigErrorView> {
        if self.proxy_url@.len() == 0 {
            missing("nats.proxy_url"@)
        } else {
            match url_parse_failure(self.proxy_url@) {
                Some(e) => invalid("nats.proxy_url"@, self.proxy_url@ + ": "@ + e),
                None => None,
            }
        }
    }

    /// The proxy URL must be present and parse as an absolute URL.
    pub fn validate(&self) -> (r: Result<(), ConfigError>)
        ensures
            error_of(r) == self.check(),
    {
        if self.proxy_url.as_str().is_empty() {
            return Err(ConfigError::missing("nats.proxy_url"));
        }
        match parse_url(self.proxy_url.as_str()) {
            Ok(_) => Ok(()),
            Err(e) => {
                let mut value = self.proxy_url.clone();
                value.append(": ");
                value.append(e.as_str());
                Err(ConfigError::invalid("nats.proxy_url", value.as_str()))
            },
        }
    }
}

pub fn default_rate_limit_enabled() -> (r: bool)
    ensures
        r,
{
    true
}

#[derive(Debug)]
pub struct RateLimitSettings {
    pub requests_per_second: u32,
    pub burst_size: u32,
    pub enabled: bool,
}

impl Default for RateLimitSettings {
    fn default() -> (r: Self)
        ensures
            r.requests_per_second == 100,
            r.burst_size == 200,
            r.enabled,
    {
        RateLimitSettings { requests_per_second: 100, burst_size: 200, enabled: true }
    }
}

pub fn default_allow_all_origins() -> (r: bool)
    ensures
        !r,
{
    false
}

pub fn default_allowed_methods() -> (r: Vec<String>)
    ensures
        r@.len() == 4,
        r@[0]@ == "GET"@,
        r@[1]@ == "POST"@,
        r@[2]@ == "PUT"@,
        r@[3]@ == "DELETE"@,
{
    let mut r = Vec::new();
    r.push(String::from_str("GET"));
    r.push(String::from_str("POST"));
    r.push(String::from_str("PUT"));
    r.push(String::from_str("DELETE"));
    r
}

pub fn default_allowed_headers() -> (r: Vec<String>)
    ensures
        r@.len() == 2,
        r@[0]@ == "Content-Type"@,
        r@[1]@ == "Authorization"@,
{
    let mut r = Vec::new();
    r.push(String::from_str("Content-Type"));
    r.push(String::from_str("Authorization"));
    r
}

/// Preflight answers may be cached for a day.
pub fn default_max_age() -> (r: u32)
    ensures
        r == 86400,
{
    86400
}

pub fn default_cors_enabled() -> (r: bool)
    ensures
        r,
{
    true
}

#[derive(Debug)]
pub struct CorsSettings {
    pub allowed_origins: Vec<String>,
    pub allow_all_origins: bool,
    pub allowed_methods: Vec<String>,
    pub allowed_headers: Vec<String>,
    pub allow_credentials: bool,
    pub max_age: u32,
    pub enabled: bool,
}

impl Default for CorsSettings {
    fn default() -> (r: Self)
        ensures
            r.allowed_origins@.len() == 0,
            !r.allow_all_origins,
            r.allowed_methods@.len() == 4,
            r.allowed_headers@.len() == 2,
            !r.allow_credentials,
            r.max_age == 86400,
            r.enabled,
    {
        CorsSettings {
            allowed_origins: Vec::new(),
            allow_all_origins: false,
            allowed_methods: default_allowed_methods(),
            allowed_headers: default_allowed_headers(),
            allow_credentials: false,
            max_age: default_max_age(),
            enabled: true,
        }
    }
}

/// Requests time out after thirty seconds.
pub fn default_request_timeout() -> (r: u64)
    ensures
        r == 30,
{
    30
}

pub fn default_request_id_enabled() -> (r: bool)
    ensures
        r,
{
    true
}

#[derive(Debug)]
pub struct ServerSettings {
    pub port: u16,
    pub host: String,
    /// Seconds.
    pub request_timeout: u64,
    pub rate_limit: RateLimitSettings,
    pub cors: CorsSettings,
    pub enable_request_id: bool,
}

impl ServerSettings {
    pub open spec fn check(&self) -> Option<ConfigErrorView> {
        if self.host@.len() == 0 {
            missing("server.host"@)
        } else if self.port == 0 {
            invalid("server.port"@, "0"@)
        } else if self.request_timeout == 0 {
            invalid("server.request_timeout"@, "0"@)
        } else if self.rate_limit.enabled && self.rate_limit.requests_per_second == 0 {
            invalid("server.rate_limit.requests_per_second"@, "0"@)
        } else if self.rate_limit.enabled && self.rate_limit.burst_size == 0 {
            invalid("server.rate_limit.burst_size"@, "0"@)
        } else if self.cors.enabled && !self.cors.allow_all_origins
            && self.cors.allowed_origins@.len() == 0 {
            invalid(
                "server.cors.allowed_origins"@,
                "No allowed origins specified and allow_all_origins is false"@,
            )
        } else {
            None
        }
    }

    /// Host, port and timeout must be set; an enabled rate limit needs positive rates;
    /// enabled CORS needs an origin unless all are allowed.
    pub fn validate(&self) -> (r: Result<(), ConfigError>)
        ensures
            error_of(r) == self.check(),
    {
        if self.host.as_str().is_empty() {
            return Err(ConfigError::missing("server.host"));
        }
        if self.port == 0 {
            return Err(ConfigError::invalid("server.port", "0"));
        }
        if self.request_timeout == 0 {
            return Err(ConfigError::invalid("server.request_timeout", "0"));
        }
        if self.rate_limit.enabled {
            if self.rate_limit.requests_per_second == 0 {
                return Err(ConfigError::invalid("server.rate_limit.requests_per_second", "0"));
            }
            if self.rate_limit.burst_size == 0 {
                return Err(ConfigError::invalid("server.rate_limit.burst_size", "0"));
            }
        }
        if self.cors.enabled && !self.cors.allow_all_origins && self.cors.allowed_origins.len() == 0 {
            return Err(
                ConfigError::invalid(
                    "server.cors.allowed_origins",
                    "No allowed origins specified and allow_all_origins is false",
                ),
            );
        }
        Ok(())
    }
}

#[derive(Debug)]
pub struct BackstageSettings {
    pub name: String,
    /// Annotations added to every entity built from the configuration.
    pub annotations: Option<StringMap>,
    pub groups: Vec<Group>,
    pub users: Vec<User>,
    pub domains: Option<Vec<Domain>>,
}

impl BackstageSettings {
    pub open spec fn check(&self) -> Option<ConfigErrorView> {
        if self.name@.len() == 0 {
            missing("backstage.name"@)
        } else if self.users@.len() == 0 {
            invalid("backstage.users"@, "must have at least one user"@)
        } else {
            None
        }
    }

    /// The catalog name must be set and at least one user configured.
    pub fn validate(&self) -> (r: Result<(), ConfigError>)
        ensures
            error_of(r) == self.check(),
    {
        if self.name.as_str().is_empty() {
            return Err(ConfigError::missing("backstage.name"));
        }
        if self.users.len() == 0 {
            return Err(ConfigError::invalid("backstage.users", "must have at least one user"));
        }
        Ok(())
    }
}

pub fn default_max_retries() -> (r: u32)
    ensures
        r == 3,
{
    3
}

pub fn default_base_delay_ms() -> (r: u64)
    ensures
        r == 100,
{
    100
}

pub fn default_max_delay_ms() -> (r: u64)
    ensures
        r == 5000,
{
    5000
}

pub fn default_retry_enabled() -> (r: bool)
    ensures
        r,
{
    true
}

#[derive(Debug)]
pub struct KubeRetrySettings {
    pub max_retries: u32,
    pub base_delay_ms: u64,
    pub max_delay_ms: u64,
    pub enabled: bool,
}

impl Default for KubeRetrySettings {
    fn default() -> (r: Self)
        ensures
            r.max_retries == 3,
            r.base_delay_ms == 100,
            r.max_delay_ms == 5000,
            r.enabled,
    {
        KubeRetrySettings {
            max_retries: default_max_retries(),
            base_delay_ms: default_base_delay_ms(),
            max_delay_ms: default_max_delay_ms(),
            enabled: default_retry_enabled(),
        }
    }
}

pub fn default_pool_size() -> (r: usize)
    ensures
        r == 10,
{
    10
}

pub fn default_idle_timeout_secs() -> (r: u64)
    ensures
        r == 90,
{
    90
}

pub fn default_keep_alive_secs() -> (r: u64)
    ensures
        r == 30,
{
    30
}

#[derive(Debug)]
pub struct KubeConnectionSettings {
    pub pool_size: usize,
    pub idle_timeout_secs: u64,
    pub keep_alive_secs: u64,
}

impl Default for KubeConnectionSettings {
    fn default() -> (r: Self)
        ensures
            r.pool_size == 10,
            r.idle_timeout_secs == 90,
            r.keep_alive_secs == 30,
    {
        KubeConnectionSettings {
            pool_size: default_pool_size(),
            idle_timeout_secs: default_idle_timeout_secs(),
            keep_alive_secs: default_keep_alive_secs(),
        }
    }
}

/// A configured resource to watch.
#[derive(Debug)]
pub struct Resource {
    /// The plural resource name, such as `pods` or `deployments`.
    pub name: String,
    /// The namespaces to watch it in.
    pub namespaces: Vec<String>,
    /// The API groups it may come from; any group when absent.
    pub api_groups: Option<Vec<String>>,
    pub label_selectors: Vec<String>,
    pub field_selectors: Vec<String>,
    /// The tag given to every command that this resource's watches produce.
    pub event_type: String,
}

/// The position of the first empty text, if any.
pub open spec fn first_empty(s: Seq<String>) -> Option<int>
    decreases s.len(),
{
    if s.len() == 0 {
        None
    } else {
        match first_empty(s.drop_last()) {
            Some(i) => Some(i),
            None => if s.last()@.len() == 0 {
                Some(s.len() - 1)
            } else {
                None
            },
        }
    }
}

impl Resource {
    pub open spec fn check(&self) -> Option<ConfigErrorView> {
        if self.name@.len() == 0 {
            missing("resource.name"@)
        } else if self.event_type@.len() == 0 {
            missing("resource.event_type"@)
        } else {
            match self.api_groups {
                Some(groups) => match first_empty(groups@) {
                    Some(i) => invalid(
                        "resource.api_groups["@ + decimal(i as nat) + "]"@,
                        "Empty API group"@,
                    ),
                    None => None,
                },
                None => None,
            }
        }
    }

    /// Name and event type must be set, and no listed API group may be empty.
    pub fn validate(&self) -> (r: Result<(), ConfigError>)
        ensures
            error_of(r) == self.check(),
    {
        if self.name.as_str().is_empty() {
            return Err(ConfigError::missing("resource.name"));
        }
        if self.event_type.as_str().is_empty() {
            return Err(ConfigError::missing("resource.event_type"));
        }
        if let Some(groups) = &self.api_groups {
            let mut i: usize = 0;
            while i < groups.len()
                invariant
                    self.api_groups == Some(*groups),
                    self.name@.len() > 0,
                    self.event_type@.len() > 0,
                    i <= groups@.len(),
                    first_empty(groups@.subrange(0, i as int)) is None,
                decreases groups@.len() - i,
            {
                assert(groups@.subrange(0, i + 1).drop_last() =~= groups@.subrange(0, i as int));
                if groups[i].as_str().is_empty() {
                    proof {
                        lemma_first_empty_prefix(groups@, i + 1);
                    }
                    let mut key = String::from_str("resource.api_groups[");
                    let d = decimal_text(i);
                    key.append(d.as_str());
                    key.append("]");
                    return Err(ConfigError::invalid(key.as_str(), "Empty API group"));
                }
                i = i + 1;
            }
            assert(groups@.subrange(0, i as int) =~= groups@);
        }
        Ok(())
    }
}

/// Once a prefix has an empty text, so has the whole sequence, at the same position.
proof fn lemma_first_empty_prefix(s: Seq<String>, n: int)
    requires
        0 <= n <= s.len(),
        first_empty(s.subrange(0, n)) is Some,
    ensures
        first_empty(s) == first_empty(s.subrange(0, n)),
    decreases s.len() - n,
{
    if n < s.len() {
        assert(s.subrange(0, n + 1).drop_last() =~= s.subrange(0, n));
        lemma_first_empty_prefix(s, n + 1);
    } else {
        assert(s.subrange(0, n) =~= s);
    }
}

impl Default for Resource {
    /// Cluster events, in no particular namespace.
    fn default() -> (r: Self)
        ensures
            r.name@ == "events"@,
            r.namespaces@.len() == 0,
            r.api_groups is None,
            r.label_selectors@.len() == 0,
            r.field_selectors@.len() == 0,
            r.event_type@ == "axyom.k8s.event.v1"@,
    {
        Resource {
            name: String::from_str("events"),
            namespaces: Vec::new(),
            api_groups: None,
            label_selectors: Vec::new(),
            field_selectors: Vec::new(),
            event_type: String::from_str("axyom.k8s.event.v1"),
        }
    }
}

/// The first configured resource that fails its check, with its position and problem.
pub open spec fn first_resource_error(rs: Seq<Resource>) -> Option<(int, ConfigErrorView)>
    decreases rs.len(),
{
    if rs.len() == 0 {
        None
    } else {
        match first_resource_error(rs.drop_last()) {
            Some(x) => Some(x),
            None => match rs.last().check() {
                Some(e) => Some((rs.len() - 1, e)),
                None => None,
            },
        }
    }
}

proof fn lemma_first_resource_error_prefix(s: Seq<Resource>, n: int)
    requires
        0 <= n <= s.len(),
        first_resource_error(s.subrange(0, n)) is Some,
    ensures
        first_resource_error(s) == first_resource_error(s.subrange(0, n)),
    decreases s.len() - n,
{
    if n < s.len() {
        assert(s.subrange(0, n + 1).drop_last() =~= s.subrange(0, n));
        lemma_first_resource_error_prefix(s, n + 1);
    } else {
        assert(s.subrange(0, n) =~= s);
    }
}

#[derive(Debug)]
pub struct KubeSettings {
    /// With `false`, invalid server certificates are accepted.
    pub use_tls: bool,
    pub resources: Vec<Resource>,
    pub retry: KubeRetrySettings,
    pub connection: KubeConnectionSettings,
}

impl KubeSettings {
    pub open spec fn check(&self) -> Option<ConfigErrorView> {
        match first_resource_error(self.resources@) {
            Some((i, e)) => invalid(
                "kube.resources["@ + decimal(i as nat) + "]"@,
                config_error_text(e),
            ),
            None => None,
        }
    }

    /// Every configured resource must pass its own check; the first that fails is reported
    /// under `kube.resources[i]`, with its problem as the value.
    pub fn validate(&self) -> (r: Result<(), ConfigError>)
        ensures
            error_of(r) == self.check(),
    {
        let mut i: usize = 0;
        while i < self.resources.len()
            invariant
                i <= self.resources@.len(),
                first_resource_error(self.resources@.subrange(0, i as int)) is None,
            decreases self.resources@.len() - i,
        {
            assert(self.resources@.subrange(0, i + 1).drop_last() =~= self.resources@.subrange(
                0,
                i as int,
            ));
            match self.resources[i].validate() {
                Ok(_) => {},
                Err(e) => {
                    proof {
                        lemma_first_resource_error_prefix(self.resources@, i + 1);
                    }
                    let mut key = String::from_str("kube.resources[");
                    let d = decimal_text(i);
                    key.append(d.as_str());
                    key.append("]");
                    let text = e.message();
                    return Err(ConfigError::invalid(key.as_str(), text.as_str()));
                },
            }
            i = i + 1;
        }
        assert(self.resources@.subrange(0, i as int) =~= self.resources@);
        Ok(())
    }
}

impl Default for KubeSettings {
    fn default() -> (r: Self)
        ensures
            !r.use_tls,
            r.resources@.len() == 0,
            r.retry.max_retries == 3,
            r.retry.base_delay_ms == 100,
            r.retry.max_delay_ms == 5000,
            r.retry.enabled,
            r.connection.pool_size == 10,
            r.connection.idle_timeout_secs == 90,
            r.connection.keep_alive_secs == 30,
    {
        KubeSettings {
            use_tls: false,
            resources: Vec::new(),
            retry: KubeRetrySettings::default(),
            connection: KubeConnectionSettings::default(),
        }
    }
}

#[derive(Debug)]
pub struct Settings {
    pub name: String,
    pub display: String,
    pub cluster: String,
    pub server: ServerSettings,
    pub backstage: BackstageSettings,
    pub nats: NatsProxy,
    pub kube: KubeSettings,
    pub cache: Cache,
}

impl Settings {
    pub open spec fn check(&self) -> Option<ConfigErrorView> {
        if self.name@.len() == 0 {
            missing("name"@)
        } else if self.display@.len() == 0 {
            missing("display"@)
        } else if self.cluster@.len() == 0 {
            missing("cluster"@)
        } else if self.server.check() is Some {
            self.server.check()
        } else if self.backstage.check() is Some {
            self.backstage.check()
        } else if self.nats.check() is Some {
            self.nats.check()
        } else if self.kube.check() is Some {
            self.kube.check()
        } else {
            self.cache.check()
        }
    }

    /// Name, display name and cluster must be set; then the server, catalog, proxy,
    /// cluster and cache settings are validated, in that order.
    pub fn validate(&self) -> (r: Result<(), ConfigError>)
        ensures
            error_of(r) == self.check(),
    {
        if self.name.as_str().is_empty() {
            return Err(ConfigError::missing("name"));
        }
        if self.display.as_str().is_empty() {
            return Err(ConfigError::missing("display"));
        }
        if self.cluster.as_str().is_empty() {
            return Err(ConfigError::missing("cluster"));
        }
        self.server.validate()?;
        self.backstage.validate()?;
        self.nats.validate()?;
        self.kube.validate()?;
        self.cache.validate()
    }
}

/// The runtime environment.
#[derive(Debug)]
pub enum Environment {
    Local,
    Production,
}

impl Environment {
    pub fn as_str(&self) -> (r: &'static str)
        ensures
            r@ == match self {
                Environment::Local => "local"@,
                Environment::Production => "production"@,
            },
    {
        match self {
            Environment::Local => "local",
            Environment::Production => "production",
        }
    }

    /// The environment named by `name`, in any letter case.
    pub fn try_from_name(name: &str) -> (r: Result<Environment, String>)
        ensures
            lower_of(name@) == "local"@ ==> r matches Ok(Environment::Local),
            lower_of(name@) == "production"@ ==> r matches Ok(Environment::Production),
            lower_of(name@) != "local"@ && lower_of(name@) != "production"@ ==> (r matches Err(m)
                && m@ == lower_of(name@)
                + " is not a supported environment. Use either `local` or `production`."@),
    {
        proof {
            reveal_strlit("local");
            reveal_strlit("production");
            assert("local"@ != "production"@) by {
                assert("local"@.len() != "production"@.len());
            }
        }
        let lower = lowercase(name);
        if text_eq(lower.as_str(), "local") {
            Ok(Environment::Local)
        } else if text_eq(lower.as_str(), "production") {
            Ok(Environment::Production)
        } else {
            let mut m = lower;
            m.append(" is not a supported environment. Use either `local` or `production`.");
            Err(m)
        }
    }
}

} // verus!
