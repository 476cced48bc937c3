use k8s_entity_provider::cluster::ClusterObject;
use k8s_entity_provider::configuration::Resource;
use k8s_entity_provider::resolver::{
    expand, resolve, ApiGroupInfo, ApiResourceDescriptor, Capabilities, DiscoveryCatalog, Scope,
};
use k8s_entity_provider::store::KeyedStore;
use k8s_entity_provider::watch::{command_for, event_for, selector_parameter, RawEvent, SubStream};
use k8s_entity_provider::watch_event::WatchCommand;

fn descriptor(group: &str, version: &str, kind: &str, plural: &str) -> ApiResourceDescriptor {
    let api_version = if group.is_empty() { version.to_string() } else { format!("{}/{}", group, version) };
    ApiResourceDescriptor {
        group: group.to_string(),
        version: version.to_string(),
        api_version,
        kind: kind.to_string(),
        plural: plural.to_string(),
    }
}

fn catalog() -> DiscoveryCatalog {
    DiscoveryCatalog {
        groups: vec![
            ApiGroupInfo {
                name: String::new(),
                preferred_version: "v1".to_string(),
                resources: vec![(descriptor("", "v1", "Pod", "pods"), Capabilities { scope: Scope::Namespaced })],
            },
            ApiGroupInfo {
                name: "apps".to_string(),
                preferred_version: "v1".to_string(),
                resources: vec![
                    (descriptor("apps", "v1beta1", "Deployment", "deployments"), Capabilities { scope: Scope::Namespaced }),
                    (descriptor("apps", "v1", "Deployment", "deployments"), Capabilities { scope: Scope::Namespaced }),
                ],
            },
            ApiGroupInfo {
                name: "extensions".to_string(),
                preferred_version: "v1".to_string(),
                resources: vec![(descriptor("extensions", "v1beta1", "Deployment", "deployments"), Capabilities { scope: Scope::Namespaced })],
            },
        ],
    }
}

fn spec(name: &str, namespaces: Vec<&str>, groups: Option<Vec<&str>>) -> Resource {
    Resource {
        name: name.to_string(),
        namespaces: namespaces.into_iter().map(|s| s.to_string()).collect(),
        api_groups: groups.map(|g| g.into_iter().map(|s| s.to_string()).collect()),
        label_selectors: vec!["app=db".to_string(), "tier=data".to_string()],
        field_selectors: vec![],
        event_type: "acme.event".to_string(),
    }
}

#[test]
fn resolve_prefers_preferred_version_and_filters_groups() {
    let specs = vec![spec("deployments", vec![], Some(vec!["apps"])), spec("widgets", vec![], None), spec("pods", vec![], None)];
    let r = resolve(&catalog(), &specs);
    assert_eq!(r.len(), 2);
    assert_eq!(r[0].spec_index, 0);
    assert_eq!(r[0].descriptor.api_version, "apps/v1");
    assert_eq!(r[1].spec_index, 2);
    assert_eq!(r[1].descriptor.kind, "Pod");
}

#[test]
fn resolve_without_group_constraint_matches_every_group() {
    let specs = vec![spec("deployments", vec![], None)];
    let r = resolve(&catalog(), &specs);
    assert_eq!(r.len(), 2);
    assert_eq!(r[1].descriptor.api_version, "extensions/v1beta1");
}

#[test]
fn two_namespaces_give_two_selectors() {
    let specs = vec![spec("pods", vec!["a", "b"], None)];
    let r = resolve(&catalog(), &specs);
    let sels = expand(&r[0], &specs[0]);
    assert_eq!(sels.len(), 2);
    assert_eq!(sels[0].namespace.as_deref(), Some("a"));
    assert_eq!(sels[1].namespace.as_deref(), Some("b"));
    assert_eq!(sels[0].resource_url, "/api/v1/namespaces/a/pods");
    assert_eq!(sels[1].resource_url, "/api/v1/namespaces/b/pods");
    assert_eq!(sels[0].event_type, "acme.event");
    assert_eq!(sels[1].label_selectors, vec!["app=db", "tier=data"]);
}

#[test]
fn no_namespace_gives_one_cluster_wide_selector() {
    let specs = vec![spec("deployments", vec![], Some(vec!["apps"]))];
    let r = resolve(&catalog(), &specs);
    let sels = expand(&r[0], &specs[0]);
    assert_eq!(sels.len(), 1);
    assert!(sels[0].namespace.is_none());
    assert_eq!(sels[0].resource_url, "/apis/apps/v1/deployments");
}

fn obj(name: &str) -> ClusterObject {
    ClusterObject {
        name: name.to_string(),
        namespace: Some("a".to_string()),
        types: None,
        labels: None,
        annotations: KeyedStore::new(),
        managed_fields: vec![],
        creation_timestamp: None,
        data: "{}".to_string(),
    }
}

#[test]
fn events_translate_by_phase() {
    assert!(matches!(command_for(SubStream::Applied, RawEvent::Apply(obj("x"))), Some(WatchCommand::Add(_))));
    assert!(matches!(command_for(SubStream::Deleted, RawEvent::Delete(obj("x"))), Some(WatchCommand::Delete(_))));
    assert!(matches!(command_for(SubStream::Restarted, RawEvent::InitApply(obj("x"))), Some(WatchCommand::Add(_))));
    assert!(command_for(SubStream::Applied, RawEvent::Delete(obj("x"))).is_none());
    assert!(command_for(SubStream::Restarted, RawEvent::Init).is_none());
    assert!(command_for(SubStream::Deleted, RawEvent::InitDone).is_none());
}

#[test]
fn event_carries_selector_tag() {
    let specs = vec![spec("pods", vec!["a"], None)];
    let r = resolve(&catalog(), &specs);
    let sels = expand(&r[0], &specs[0]);
    let ev = event_for(&sels[0], &"1.30".to_string(), SubStream::Applied, RawEvent::Apply(obj("x"))).unwrap();
    assert_eq!(ev.event_type, "acme.event");
    assert_eq!(ev.resource_url, "/api/v1/namespaces/a/pods");
    assert_eq!(ev.k8s_version, "1.30");
    assert!(event_for(&sels[0], &"1.30".to_string(), SubStream::Deleted, RawEvent::Apply(obj("x"))).is_none());
}

#[test]
fn selector_lists_join_with_commas() {
    assert_eq!(selector_parameter(&vec!["a=b".to_string(), "c=d".to_string()]), Some("a=b,c=d".to_string()));
    assert_eq!(selector_parameter(&vec![]), None);
}
