use k8s_entity_provider::cluster::{ClusterObject, TypeMeta};
use k8s_entity_provider::configuration::{
    BackstageSettings, Cache, CorsSettings, KubeSettings, NatsProxy, RateLimitSettings,
    ServerSettings, Settings,
};
use k8s_entity_provider::entities::{
    system_for_cluster, BackstageEntity, Component, Domain, DomainSpec, Group, GroupSpec, K8sKinds,
    Metadata, Resource, ResourceSpec, System, SystemSpec, User, UserSpec,
};
use k8s_entity_provider::entities::{catalog_role, reports_status, CatalogRole};
use k8s_entity_provider::store::{KeyedStore, StringMap};

fn map(pairs: &[(&str, &str)]) -> StringMap {
    let mut m = KeyedStore::new();
    for (k, v) in pairs {
        m.insert(k.to_string(), v.to_string());
    }
    m
}

fn backstage(annotations: Option<StringMap>) -> BackstageSettings {
    let mut own = Metadata::new("devs".to_string());
    own.annotations = Some(map(&[("own", "x")]));
    BackstageSettings {
        name: "catalog".to_string(),
        annotations,
        groups: vec![Group {
            api_version: String::new(),
            kind: String::new(),
            metadata: own,
            spec: GroupSpec { group_type: "team".to_string(), profile: None, parent: None, children: vec![] },
        }],
        users: vec![
            User { api_version: String::new(), kind: String::new(), metadata: Metadata::new("ann".to_string()), spec: UserSpec { profile: None, member_of: vec!["devs".to_string()] } },
            User { api_version: String::new(), kind: String::new(), metadata: Metadata::new("bob".to_string()), spec: UserSpec { profile: None, member_of: vec![] } },
        ],
        domains: Some(vec![Domain {
            api_version: String::new(),
            kind: String::new(),
            metadata: Metadata::new("core".to_string()),
            spec: DomainSpec { owner: "devs".to_string(), subdomain_of: None, domain_type: None },
        }]),
    }
}

fn settings(annotations: Option<StringMap>) -> Settings {
    Settings {
        name: "p".to_string(),
        display: "P".to_string(),
        cluster: "cicd".to_string(),
        server: ServerSettings { port: 1, host: "h".to_string(), request_timeout: 1, rate_limit: RateLimitSettings::default(), cors: CorsSettings::default(), enable_request_id: true },
        backstage: backstage(annotations),
        nats: NatsProxy { proxy_url: "http://n".to_string() },
        kube: KubeSettings::default(),
        cache: Cache { def_channel_size: 1, poll_interval: 1, purge_cache_interval: 1 },
    }
}

fn object(kind: &str, name: &str, labels: Option<StringMap>, data: &str) -> ClusterObject {
    ClusterObject {
        name: name.to_string(),
        namespace: Some("tenant-smf".to_string()),
        types: Some(TypeMeta { api_version: "apps/v1".to_string(), kind: kind.to_string() }),
        labels,
        annotations: KeyedStore::new(),
        managed_fields: vec![],
        creation_timestamp: None,
        data: data.to_string(),
    }
}

#[test]
fn metadata_defaults_to_default_namespace() {
    let m = Metadata::default();
    assert_eq!(m.name, "");
    assert_eq!(m.namespace.as_deref(), Some("default"));
    assert!(m.annotations.is_none());
    let m = Metadata::from_annotations(&backstage(Some(map(&[("g", "1")]))), "n".to_string());
    assert_eq!(m.annotations.unwrap().get(&"g".to_string()), Some(&"1".to_string()));
}

#[test]
fn static_metadata_takes_global_annotations() {
    let b = backstage(Some(map(&[("g", "1")])));
    let mut md = Metadata::new("devs".to_string());
    md.annotations = Some(map(&[("own", "x")]));
    md.title = Some("Developers".to_string());
    md.namespace = None;
    let m = Metadata::from_static_config(&b, md);
    let anns = m.annotations.unwrap();
    assert_eq!(anns.get(&"g".to_string()), Some(&"1".to_string()));
    assert!(!anns.contains_key(&"own".to_string()));
    assert_eq!(m.title.as_deref(), Some("Developers"));
    assert_eq!(m.namespace.as_deref(), Some("default"));
    let m = Metadata::from_static_config(&backstage(None), Metadata::new("x".to_string()));
    assert!(m.annotations.unwrap().is_empty());
}

#[test]
fn configured_entities_keep_order_and_specs() {
    let groups = Group::groups_from_config(backstage(None));
    assert_eq!(groups.len(), 1);
    assert_eq!(groups[0].kind, "Group");
    assert_eq!(groups[0].api_version, "backstage.io/v1alpha1");
    assert_eq!(groups[0].spec.group_type, "team");
    let users = User::users_from_config(backstage(None));
    assert_eq!(users.iter().map(|u| u.metadata.name.clone()).collect::<Vec<_>>(), vec!["ann", "bob"]);
    assert_eq!(users[0].spec.member_of, vec!["devs"]);
    let domains = Domain::domains_from_config(backstage(None));
    assert_eq!(domains.len(), 1);
    assert_eq!(domains[0].kind, "Domain");
    let none = Domain::domains_from_config(BackstageSettings { domains: None, ..backstage(None) });
    assert!(none.is_empty());
}

#[test]
fn defaults_of_component_and_resource() {
    let c = Component::default();
    assert_eq!((c.kind.as_str(), c.spec.component_type.as_str(), c.spec.lifecycle.as_str()), ("Component", "service", "experimental"));
    let r = Resource::default();
    assert_eq!((r.kind.as_str(), r.spec.resource_type.as_str(), r.spec.owner.as_str()), ("Resource", "none", "platform"));
    assert_eq!(r.entity_type(), "Resource");
}

#[test]
fn system_from_params_keeps_parts() {
    let s = System::from_params(Metadata::new("s".to_string()), SystemSpec { owner: "o".to_string(), domain: None, system_type: None }).unwrap();
    assert_eq!(s.kind, "System");
    assert_eq!(s.metadata.name, "s");
    assert_eq!(s.spec.owner, "o");
    assert_eq!(s.entity_type(), "System");
}

#[test]
fn kinds_are_read_in_any_case() {
    assert!(matches!(K8sKinds::get_kind(&"StatefulSet".to_string()), K8sKinds::StatefulSet));
    assert!(matches!(K8sKinds::get_kind(&"POD".to_string()), K8sKinds::Pod));
    assert!(matches!(K8sKinds::get_kind(&"Deployment".to_string()), K8sKinds::Deployment));
    assert!(matches!(K8sKinds::get_kind(&"Service".to_string()), K8sKinds::Unknown));
}

#[test]
fn cluster_system_follows_name() {
    assert_eq!(system_for_cluster("tenant-upf-db", "cicd").as_deref(), Some("upf-postgres-cicd"));
    assert_eq!(system_for_cluster("smf-db", "cicd").as_deref(), Some("smf-postgres-cicd"));
    assert_eq!(system_for_cluster("other", "cicd"), None);
}

fn shard_resource(labels: Option<StringMap>) -> Resource {
    let mut md = Metadata::new("tenant-smf-db-0".to_string());
    md.labels = labels;
    Resource { api_version: String::new(), kind: String::new(), metadata: md, spec: ResourceSpec { resource_type: String::new(), owner: String::new(), system: None, depends_on: None, dependency_of: None } }
}

#[test]
fn cluster_from_shard_renames_and_links() {
    let labels = map(&[("postgres.acme.com/name", "Tenant-SMF-DB"), ("shard.acme.com/name", "shard-0"), ("app", "db")]);
    let c = Resource::postgres_cluster_from_shard(&settings(None), shard_resource(Some(labels))).unwrap();
    assert_eq!(c.metadata.name, "Tenant-SMF-DB");
    assert_eq!(c.spec.resource_type, "postgres-cluster");
    assert_eq!(c.spec.system.as_deref(), Some("smf-postgres-cicd"));
    assert_eq!(c.spec.depends_on, Some(vec!["resource:default/shard-0".to_string()]));
    let l = c.metadata.labels.unwrap();
    assert!(!l.contains_key(&"postgres.acme.com/name".to_string()));
    assert!(l.contains_key(&"app".to_string()));
}

#[test]
fn cluster_from_shard_without_labels_is_refused() {
    let e = Resource::postgres_cluster_from_shard(&settings(None), shard_resource(None)).err().unwrap();
    assert_eq!(e.message, "Resource lacks postgres labels");
    assert_eq!(e.name, "tenant-smf-db-0");
}

#[test]
fn system_from_stateful_set_uses_domain() {
    let o = object("StatefulSet", "db-0", Some(map(&[("postgres.acme.com/name", "tenant-smf")])), "{}");
    let s = System::from_stateful_set(&settings(None), &o).unwrap();
    assert_eq!(s.metadata.name, "smf-postgres-cicd");
    assert_eq!(s.spec.domain.as_deref(), Some("smf"));
    let o = object("Pod", "db-0", None, "{}");
    assert_eq!(System::from_stateful_set(&settings(None), &o).err().unwrap().message, "Resource is not a k8s StatefulSet");
    let o = object("StatefulSet", "db-0", Some(map(&[("postgres.acme.com/name", "other")])), "{}");
    assert_eq!(System::from_stateful_set(&settings(None), &o).err().unwrap().message, "postgres cluster label missing system");
}

#[test]
fn node_from_pod_depends_on_shard() {
    let o = object("Pod", "db-0-0", Some(map(&[("shard.acme.com/name", "db-0")])), "{}");
    let n = Resource::postgres_node_from_pod(&settings(None), &o).unwrap();
    assert_eq!(n.spec.resource_type, "postgres-cluster-node");
    assert_eq!(n.spec.dependency_of, Some(vec!["resource:default/db-0".to_string()]));
    let o = object("Pod", "db-0-0", None, "{}");
    assert_eq!(Resource::postgres_node_from_pod(&settings(None), &o).err().unwrap().message, "Resource lacks postgres labels");
}

#[test]
fn shard_from_stateful_set_annotates_status() {
    let labels = map(&[
        ("postgres.acme.com/name", "tenant-smf"),
        ("shard.acme.com/name", "db-0"),
        ("app.kubernetes.io/component", "postgres-cluster"),
    ]);
    let o = object("StatefulSet", "db-0", Some(labels), "{\"spec\":{},\"status\":{\"replicas\":3}}");
    let r = Resource::postgres_shard_from_statefulset(&settings(Some(map(&[("g", "1")]))), &o).unwrap();
    assert_eq!(r.spec.resource_type, "postgres-cluster-shard");
    assert_eq!(r.spec.dependency_of, Some(vec!["resource:default/tenant-smf".to_string()]));
    let a = r.metadata.annotations.unwrap();
    assert_eq!(a.get(&"backstage.acme.com/postgres-status".to_string()), Some(&"{\"replicas\":3}".to_string()));
    assert_eq!(a.get(&"backstage.io/kubernetes-label-selector".to_string()), Some(&"shard.acme.com/name=db-0".to_string()));
    assert_eq!(a.get(&"backstage.io/kubernetes-namespace".to_string()), Some(&"tenant-smf".to_string()));
    assert_eq!(a.get(&"acme.com/kubernetes-cluster".to_string()), Some(&"cicd".to_string()));
    assert_eq!(a.get(&"g".to_string()), Some(&"1".to_string()));
    assert_eq!(r.metadata.labels.unwrap().len(), 3);
}

#[test]
fn plain_stateful_set_has_no_status() {
    let o = object("StatefulSet", "web", Some(map(&[("app", "web")])), "{\"status\":{\"replicas\":1}}");
    let r = Resource::postgres_shard_from_statefulset(&settings(None), &o).unwrap();
    assert_eq!(r.spec.resource_type, "statefulset");
    let a = r.metadata.annotations.unwrap();
    assert!(!a.contains_key(&"backstage.acme.com/postgres-status".to_string()));
    assert!(r.spec.dependency_of.is_none());
}

#[test]
fn deployment_component_type_follows_label() {
    let o = object("Deployment", "api", Some(map(&[("app.kubernetes.io/component", "postgres-cluster")])), "{}");
    let c = Component::from_deployment(&backstage(None), &o).unwrap();
    assert_eq!(c.spec.component_type, "postgres-cluster");
    let o = object("Deployment", "api", None, "{}");
    let c = Component::from_deployment(&backstage(None), &o).unwrap();
    assert_eq!(c.spec.component_type, "deployment");
    assert!(c.metadata.labels.is_none());
    let o = object("Pod", "api", None, "{}");
    let e = Component::from_deployment(&backstage(None), &o).err().unwrap();
    assert_eq!((e.kind.as_str(), e.message.as_str()), ("Component", "Resource is not a k8s Deployment"));
}

#[test]
fn entity_error_text_names_kind_and_object() {
    let o = object("Pod", "db-0", None, "{}");
    let e = System::from_stateful_set(&settings(None), &o).err().unwrap();
    assert_eq!(e.text(), "kind: System name: db-0 err=Resource is not a k8s StatefulSet");
}

#[test]
fn catalog_role_follows_kind() {
    assert!(matches!(catalog_role(&object("StatefulSet", "s", None, "{}")), CatalogRole::Shard));
    assert!(matches!(catalog_role(&object("pod", "p", None, "{}")), CatalogRole::Node));
    assert!(matches!(catalog_role(&object("Deployment", "d", None, "{}")), CatalogRole::Skip));
    let mut untyped = object("Pod", "u", None, "{}");
    untyped.types = None;
    assert!(matches!(catalog_role(&untyped), CatalogRole::Skip));
    let redis = object("StatefulSet", "r", Some(map(&[("app.kubernetes.io/component", "redis-cluster")])), "{}");
    assert!(reports_status(&redis));
    let other = object("StatefulSet", "r", Some(map(&[("app.kubernetes.io/component", "postgres-cluster")])), "{}");
    assert!(!reports_status(&other));
    let pod = object("Pod", "r", Some(map(&[("app.kubernetes.io/component", "redis-cluster")])), "{}");
    assert!(!reports_status(&pod));
}

#[test]
fn status_annotation_needs_object_status() {
    let labels = map(&[("app.kubernetes.io/component", "postgres-cluster")]);
    let o = object("StatefulSet", "db-0", Some(labels), "{\"status\":3}");
    let r = Resource::postgres_shard_from_statefulset(&settings(None), &o).unwrap();
    assert!(!r.metadata.annotations.unwrap().contains_key(&"backstage.acme.com/postgres-status".to_string()));
}
