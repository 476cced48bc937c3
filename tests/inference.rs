use k8s_entity_provider::inference::infer_type_meta;

fn pair(path: &str) -> Option<(String, String)> {
    infer_type_meta(path).map(|t| (t.api_version, t.kind))
}

#[test]
fn core_collection_path_names_pod() {
    assert_eq!(pair("/api/v1/pods"), Some(("v1".to_string(), "Pod".to_string())));
}

#[test]
fn group_namespaced_path_names_deployment() {
    assert_eq!(
        pair("/apis/apps/v1/namespaces/default/deployments"),
        Some(("apps/v1".to_string(), "Deployment".to_string()))
    );
}

#[test]
fn unknown_path_has_no_type() {
    assert_eq!(pair("/foo/bar"), None);
}

#[test]
fn core_namespaced_path_names_event() {
    assert_eq!(
        pair("/api/v1/namespaces/kube-system/events"),
        Some(("v1".to_string(), "Event".to_string()))
    );
}

#[test]
fn group_collection_path_strips_only_final_s() {
    assert_eq!(
        pair("/apis/networking.k8s.io/v1/ingresses"),
        Some(("networking.k8s.io/v1".to_string(), "Ingresse".to_string()))
    );
}

#[test]
fn path_without_final_s_has_no_type() {
    assert_eq!(pair("/api/v1/pod"), None);
}

#[test]
fn empty_path_has_no_type() {
    assert_eq!(pair(""), None);
}
