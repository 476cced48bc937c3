//! The library's error types. Each error that carries text has a view and a `message`
//! that renders it as one line.
use vstd::prelude::*;

verus! {

/// Configuration errors.
#[derive(Debug)]
pub enum ConfigError {
    /// A required setting is missing or empty.
    MissingConfig(String),
    /// A setting has a value that is not accepted.
    InvalidValue { key: String, value: String },
    /// The environment variable that selects the environment is not understood.
    EnvVar(String),
    /// The configuration could not be parsed.
    ParseError(String),
    /// The configuration files could not be read.
    IoError(String),
    /// Any other configuration failure.
    Other(String),
}

/// A configuration error as plain text.
pub enum ConfigErrorView {
    MissingConfig(Seq<char>),
    InvalidValue(Seq<char>, Seq<char>),
    EnvVar(Seq<char>),
    ParseError(Seq<char>),
    IoError(Seq<char>),
    Other(Seq<char>),
}

impl View for ConfigError {
    type V = ConfigErrorView;

    open spec fn view(&self) -> ConfigErrorView {
        match self {
            ConfigError::MissingConfig(k) => ConfigErrorView::MissingConfig(k@),
            ConfigError::InvalidValue { key, value } => ConfigErrorView::InvalidValue(key@, value@),
            ConfigError::EnvVar(m) => ConfigErrorView::EnvVar(m@),
            ConfigError::ParseError(m) => ConfigErrorView::ParseError(m@),
            ConfigError::IoError(m) => ConfigErrorView::IoError(m@),
            ConfigError::Other(m) => ConfigErrorView::Other(m@),
        }
    }
}

/// The one-line text of a configuration error.
pub open spec fn config_error_text(e: ConfigErrorView) -> Seq<char> {
    match e {
        ConfigErrorView::MissingConfig(k) => "Missing required configuration: "@ + k,
        ConfigErrorView::InvalidValue(k, v) => "Invalid configuration value for "@ + k + ": "@ + v,
        ConfigErrorView::EnvVar(m) => "Environment variable error: "@ + m,
        ConfigErrorView::ParseError(m) => "Failed to parse configuration: "@ + m,
        ConfigErrorView::IoError(m) => "I/O error: "@ + m,
        ConfigErrorView::Other(m) => "Other configuration error: "@ + m,
    }
}

/// `prefix` followed by `rest`.
fn prefixed(prefix: &str, rest: &str) -> (r: String)
    ensures
        r@ == prefix@ + rest@,
{
    let mut r = String::from_str(prefix);
    r.append(rest);
    r
}

impl ConfigError {
    pub fn missing(key: &str) -> (r: Self)
        ensures
            r@ == ConfigErrorView::MissingConfig(key@),
    {
        ConfigError::MissingConfig(String::from_str(key))
    }

    pub fn invalid(key: &str, value: &str) -> (r: Self)
        ensures
            r@ == ConfigErrorView::InvalidValue(key@, value@),
    {
        ConfigError::InvalidValue { key: String::from_str(key), value: String::from_str(value) }
    }

    pub fn parse(msg: &str) -> (r: Self)
        ensures
            r@ == ConfigErrorView::ParseError(msg@),
    {
        ConfigError::ParseError(String::from_str(msg))
    }

    pub fn env_var(msg: &str) -> (r: Self)
        ensures
            r@ == ConfigErrorView::EnvVar(msg@),
    {
        ConfigError::EnvVar(String::from_str(msg))
    }

    /// The error as one line of text.
    pub fn message(&self) -> (r: String)
        ensures
            r@ == config_error_text(self@),
    {
        match self {
            ConfigError::MissingConfig(k) => prefixed("Missing required configuration: ", k.as_str()),
            ConfigError::InvalidValue { key, value } => {
                let mut r = prefixed("Invalid configuration value for ", key.as_str());
                r.append(": ");
                r.append(value.as_str());
                r
            },
            ConfigError::EnvVar(m) => prefixed("Environment variable error: ", m.as_str()),
            ConfigError::ParseError(m) => prefixed("Failed to parse configuration: ", m.as_str()),
            ConfigError::IoError(m) => prefixed("I/O error: ", m.as_str()),
            ConfigError::Other(m) => prefixed("Other configuration error: ", m.as_str()),
        }
    }
}

/// Entity errors.
#[derive(Debug)]
pub enum EntityError {
    InvalidType(String),
    MissingField(String),
    InvalidValue { field: String, value: String },
    ConversionError(String),
    InvalidConfig(String),
}

/// An entity error as plain text.
pub enum EntityErrorView {
    InvalidType(Seq<char>),
    MissingField(Seq<char>),
    InvalidValue(Seq<char>, Seq<char>),
    ConversionError(Seq<char>),
    InvalidConfig(Seq<char>),
}

impl View for EntityError {
    type V = EntityErrorView;

    open spec fn view(&self) -> EntityErrorView {
        match self {
            EntityError::InvalidType(m) => EntityErrorView::InvalidType(m@),
            EntityError::MissingField(m) => EntityErrorView::MissingField(m@),
            EntityError::InvalidValue { field, value } => EntityErrorView::InvalidValue(field@, value@),
            EntityError::ConversionError(m) => EntityErrorView::ConversionError(m@),
            EntityError::InvalidConfig(m) => EntityErrorView::InvalidConfig(m@),
        }
    }
}

impl EntityError {
    pub fn invalid_type(kind_name: &str) -> (r: Self)
        ensures
            r@ == EntityErrorView::InvalidType(kind_name@),
    {
        EntityError::InvalidType(String::from_str(kind_name))
    }

    pub fn missing_field(field: &str) -> (r: Self)
        ensures
            r@ == EntityErrorView::MissingField(field@),
    {
        EntityError::MissingField(String::from_str(field))
    }

    pub fn invalid_value(field: &str, value: &str) -> (r: Self)
        ensures
            r@ == EntityErrorView::InvalidValue(field@, value@),
    {
        EntityError::InvalidValue { field: String::from_str(field), value: String::from_str(value) }
    }

    pub fn conversion(msg: &str) -> (r: Self)
        ensures
            r@ == EntityErrorView::ConversionError(msg@),
    {
        EntityError::ConversionError(String::from_str(msg))
    }

    pub fn invalid_config(msg: &str) -> (r: Self)
        ensures
            r@ == EntityErrorView::InvalidConfig(msg@),
    {
        EntityError::InvalidConfig(String::from_str(msg))
    }
}

/// Errors of the cluster connection and its streams.
#[derive(Debug)]
pub enum KubernetesError {
    ConnectionError(String),
    AuthError(String),
    ResourceNotFound { kind: String, namespace: String, name: String },
    WatchError(String),
    /// An error that the cluster client reported, as its text.
    ClientError(String),
    Other(String),
}

impl KubernetesError {
    pub fn connection(msg: &str) -> (r: Self)
        ensures
            r matches KubernetesError::ConnectionError(m) && m@ == msg@,
    {
        KubernetesError::ConnectionError(String::from_str(msg))
    }

    pub fn auth(msg: &str) -> (r: Self)
        ensures
            r matches KubernetesError::AuthError(m) && m@ == msg@,
    {
        KubernetesError::AuthError(String::from_str(msg))
    }

    pub fn resource_not_found(kind: &str, name: &str, namespace: &str) -> (r: Self)
        ensures
            r matches KubernetesError::ResourceNotFound { kind: k, namespace: ns, name: n } && k@
                == kind@ && ns@ == namespace@ && n@ == name@,
    {
        KubernetesError::ResourceNotFound {
            kind: String::from_str(kind),
            namespace: String::from_str(namespace),
            name: String::from_str(name),
        }
    }

    pub fn watch(msg: &str) -> (r: Self)
        ensures
            r matches KubernetesError::WatchError(m) && m@ == msg@,
    {
        KubernetesError::WatchError(String::from_str(msg))
    }
}

/// HTTP server errors.
#[derive(Debug)]
pub enum ServerError {
    /// Binding to the listening address failed; the text of the I/O error.
    BindError(String),
    RoutingError(String),
    SerializationError(String),
    ValidationError(String),
    InternalError(String),
    Other(String),
}

impl ServerError {
    pub fn routing(msg: &str) -> (r: Self)
        ensures
            r matches ServerError::RoutingError(m) && m@ == msg@,
    {
        ServerError::RoutingError(String::from_str(msg))
    }

    pub fn serialization(msg: &str) -> (r: Self)
        ensures
            r matches ServerError::SerializationError(m) && m@ == msg@,
    {
        ServerError::SerializationError(String::from_str(msg))
    }

    pub fn validation(msg: &str) -> (r: Self)
        ensures
            r matches ServerError::ValidationError(m) && m@ == msg@,
    {
        ServerError::ValidationError(String::from_str(msg))
    }

    pub fn internal(msg: &str) -> (r: Self)
        ensures
            r matches ServerError::InternalError(m) && m@ == msg@,
    {
        ServerError::InternalError(String::from_str(msg))
    }

    /// The HTTP status code with which the API answers this error.
    pub fn status_code(&self) -> (r: u16)
        ensures
            r == match self {
                ServerError::ValidationError(_) => 400u16,
                ServerError::RoutingError(_) => 404u16,
                _ => 500u16,
            },
    {
        match self {
            ServerError::ValidationError(_) => 400,
            ServerError::RoutingError(_) => 404,
            _ => 500,
        }
    }
}

/// Application errors.
#[derive(Debug)]
pub enum AppError {
    Config(ConfigError),
    Kubernetes(KubernetesError),
    Server(ServerError),
    Database(String),
    Application(String),
    /// An unexpected error, as its text.
    Unknown(String),
    Entity(EntityError),
}

impl AppError {
    pub fn application(msg: &str) -> (r: Self)
        ensures
            r matches AppError::Application(m) && m@ == msg@,
    {
        AppError::Application(String::from_str(msg))
    }

    pub fn database(msg: &str) -> (r: Self)
        ensures
            r matches AppError::Database(m) && m@ == msg@,
    {
        AppError::Database(String::from_str(msg))
    }

    /// The HTTP status code with which the API answers this error.
    pub fn status_code(&self) -> (r: u16)
        ensures
            r == match self {
                AppError::Kubernetes(_) => 502u16,
                AppError::Server(ServerError::ValidationError(_)) => 400u16,
                AppError::Server(ServerError::RoutingError(_)) => 404u16,
                AppError::Entity(_) => 400u16,
                _ => 500u16,
            },
    {
        match self {
            AppError::Config(_) => 500,
            AppError::Kubernetes(_) => 502,
            AppError::Server(e) => e.status_code(),
            AppError::Database(_) => 500,
            AppError::Application(_) => 500,
            AppError::Unknown(_) => 500,
            AppError::Entity(_) => 400,
        }
    }
}

/// A successful application result with no value.
pub fn ok() -> (r: Result<(), AppError>)
    ensures
        r is Ok,
{
    Ok(())
}

} // verus!
