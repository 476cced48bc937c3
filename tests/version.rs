use k8s_entity_provider::errors::{ok, AppError, EntityError, KubernetesError, ServerError};
use k8s_entity_provider::version::{get_version, hc_version, k8s_version_label, request_span_level, ServerVersion, SpanLevel};

#[test]
fn version_text_is_read() {
    let v = get_version("app".to_string(), "1.2.3-beta.1");
    assert_eq!((v.major, v.minor, v.patch, v.pre.as_str()), (1, 2, 3, "beta.1"));
    assert_eq!(v.app, "app");
}

#[test]
fn bad_version_text_gives_zeros_and_reason() {
    let v = get_version("app".to_string(), "one.two");
    assert_eq!((v.major, v.minor, v.patch), (0, 0, 0));
    assert!(!v.pre.is_empty());
}

#[test]
fn version_record_from_reading() {
    let v = hc_version("a".to_string(), Err("bad".to_string()));
    assert_eq!((v.major, v.pre.as_str()), (0, "bad"));
    let v = hc_version("a".to_string(), Ok((4, 5, 6, String::new())));
    assert_eq!((v.major, v.minor, v.patch), (4, 5, 6));
}

#[test]
fn cluster_version_label() {
    let sv = ServerVersion { major: "1".to_string(), minor: "30".to_string(), platform: "linux/amd64".to_string() };
    assert_eq!(k8s_version_label(Some(&sv)), "1.30");
    assert_eq!(k8s_version_label(None), "n/a");
}

#[test]
fn health_probe_traced_at_debug() {
    assert!(matches!(request_span_level("/healthz"), SpanLevel::Debug));
    assert!(matches!(request_span_level("/api/v1/entities"), SpanLevel::Info));
}

#[test]
fn status_codes_by_error() {
    assert_eq!(AppError::Server(ServerError::validation("v")).status_code(), 400);
    assert_eq!(AppError::Server(ServerError::routing("r")).status_code(), 404);
    assert_eq!(AppError::Server(ServerError::internal("i")).status_code(), 500);
    assert_eq!(AppError::Server(ServerError::serialization("s")).status_code(), 500);
    assert_eq!(AppError::Kubernetes(KubernetesError::watch("w")).status_code(), 502);
    assert_eq!(AppError::Kubernetes(KubernetesError::resource_not_found("Pod", "p", "ns")).status_code(), 502);
    assert_eq!(AppError::Entity(EntityError::conversion("c")).status_code(), 400);
    assert_eq!(AppError::application("a").status_code(), 500);
    assert_eq!(AppError::database("d").status_code(), 500);
    assert!(ok().is_ok());
}

#[test]
fn error_constructors_keep_text() {
    assert!(matches!(EntityError::invalid_type("t"), EntityError::InvalidType(m) if m == "t"));
    assert!(matches!(EntityError::missing_field("f"), EntityError::MissingField(m) if m == "f"));
    assert!(matches!(EntityError::invalid_value("f", "v"), EntityError::InvalidValue { field, value } if field == "f" && value == "v"));
    assert!(matches!(EntityError::invalid_config("c"), EntityError::InvalidConfig(m) if m == "c"));
    assert!(matches!(KubernetesError::connection("c"), KubernetesError::ConnectionError(m) if m == "c"));
}
