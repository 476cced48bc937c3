use k8s_entity_provider::cache::{IngestOutcome, LiveStatus, ObjectCache};
use k8s_entity_provider::cluster::{ClusterObject, TypeMeta, LAST_APPLIED_ANNOTATION};
use k8s_entity_provider::store::KeyedStore;
use k8s_entity_provider::watch_event::{WatchCommand, WatchEvent};

fn object(ns: Option<&str>, name: &str, kind: Option<(&str, &str)>, data: &str) -> ClusterObject {
    let mut annotations = KeyedStore::new();
    annotations.insert(LAST_APPLIED_ANNOTATION.to_string(), "{\"big\":true}".to_string());
    annotations.insert("team".to_string(), "core".to_string());
    ClusterObject {
        name: name.to_string(),
        namespace: ns.map(|s| s.to_string()),
        types: kind.map(|(v, k)| TypeMeta { api_version: v.to_string(), kind: k.to_string() }),
        labels: None,
        annotations,
        managed_fields: vec!["{\"manager\":\"kubectl\"}".to_string()],
        creation_timestamp: Some("2024-01-01T00:00:00Z".to_string()),
        data: data.to_string(),
    }
}

fn event(url: &str, command: WatchCommand) -> WatchEvent {
    WatchEvent {
        k8s_version: "1.30".to_string(),
        resource_url: url.to_string(),
        event_type: "tag".to_string(),
        command,
    }
}

fn data_of(cache: &ObjectCache, key: &str) -> Option<String> {
    cache.get(&key.to_string()).map(|o| o.data.clone())
}

#[test]
fn last_write_wins_for_one_key() {
    let mut cache = ObjectCache::new();
    let url = "/api/v1/namespaces/a/pods";
    assert!(matches!(cache.ingest(event(url, WatchCommand::Add(object(Some("a"), "p", None, "1")))), IngestOutcome::Stored));
    cache.ingest(event(url, WatchCommand::Update(object(Some("a"), "p", None, "2"))));
    cache.ingest(event(url, WatchCommand::Add(object(Some("a"), "p", None, "3"))));
    assert_eq!(cache.len(), 1);
    assert_eq!(data_of(&cache, "a/p"), Some("3".to_string()));
}

#[test]
fn applying_same_add_twice_is_idempotent() {
    let mut cache = ObjectCache::new();
    let url = "/api/v1/namespaces/a/pods";
    cache.ingest(event(url, WatchCommand::Add(object(Some("a"), "p", None, "1"))));
    cache.ingest(event(url, WatchCommand::Add(object(Some("a"), "p", None, "1"))));
    assert_eq!(cache.len(), 1);
    assert_eq!(data_of(&cache, "a/p"), Some("1".to_string()));
}

#[test]
fn added_object_gets_type_from_path_and_loses_noise() {
    let mut cache = ObjectCache::new();
    cache.ingest(event("/apis/apps/v1/namespaces/a/deployments", WatchCommand::Add(object(Some("a"), "d", None, "{}"))));
    let o = cache.get(&"a/d".to_string()).unwrap();
    let t = o.types.as_ref().unwrap();
    assert_eq!(t.api_version, "apps/v1");
    assert_eq!(t.kind, "Deployment");
    assert!(!o.annotations.contains_key(&LAST_APPLIED_ANNOTATION.to_string()));
    assert_eq!(o.annotations.get(&"team".to_string()), Some(&"core".to_string()));
    assert!(o.managed_fields.is_empty());
}

#[test]
fn own_type_is_kept() {
    let mut cache = ObjectCache::new();
    cache.ingest(event("/foo/bar", WatchCommand::Add(object(Some("a"), "x", Some(("v1", "ConfigMap")), "{}"))));
    let o = cache.get(&"a/x".to_string()).unwrap();
    assert_eq!(o.types.as_ref().unwrap().kind, "ConfigMap");
}

#[test]
fn object_without_namespace_is_keyed_under_none() {
    let mut cache = ObjectCache::new();
    cache.ingest(event("/api/v1/nodes", WatchCommand::Add(object(None, "n1", None, "{}"))));
    assert!(cache.get(&"none/n1".to_string()).is_some());
}

#[test]
fn unmatched_path_leaves_type_unknown() {
    let mut cache = ObjectCache::new();
    cache.ingest(event("/foo/bar", WatchCommand::Add(object(Some("a"), "x", None, "{}"))));
    assert!(cache.get(&"a/x".to_string()).unwrap().types.is_none());
}

#[test]
fn delete_absent_key_changes_nothing() {
    let mut cache = ObjectCache::new();
    let url = "/api/v1/namespaces/a/pods";
    cache.ingest(event(url, WatchCommand::Add(object(Some("a"), "p", None, "1"))));
    let out = cache.ingest(event(url, WatchCommand::Delete(object(Some("a"), "q", None, ""))));
    assert!(matches!(out, IngestOutcome::Absent));
    assert_eq!(cache.len(), 1);
    assert_eq!(data_of(&cache, "a/p"), Some("1".to_string()));
}

#[test]
fn delete_present_key_removes_only_it() {
    let mut cache = ObjectCache::new();
    let url = "/api/v1/namespaces/a/pods";
    cache.ingest(event(url, WatchCommand::Add(object(Some("a"), "p", None, "1"))));
    cache.ingest(event(url, WatchCommand::Add(object(Some("a"), "q", None, "2"))));
    let out = cache.ingest(event(url, WatchCommand::Delete(object(Some("a"), "p", None, ""))));
    assert!(matches!(out, IngestOutcome::Removed));
    assert_eq!(cache.len(), 1);
    assert!(cache.get(&"a/p".to_string()).is_none());
    assert_eq!(data_of(&cache, "a/q"), Some("2".to_string()));
}

#[test]
fn add_in_one_namespace_leaves_same_name_in_other() {
    let mut cache = ObjectCache::new();
    cache.ingest(event("/api/v1/namespaces/b/pods", WatchCommand::Add(object(Some("b"), "web", None, "b"))));
    cache.ingest(event("/api/v1/namespaces/a/pods", WatchCommand::Add(object(Some("a"), "web", None, "a"))));
    assert_eq!(data_of(&cache, "b/web"), Some("b".to_string()));
    assert_eq!(data_of(&cache, "a/web"), Some("a".to_string()));
}

#[test]
fn timer_commands_leave_cache_and_report() {
    let mut cache = ObjectCache::new();
    assert!(matches!(cache.ingest(WatchEvent::from_timer(WatchCommand::Purge)), IngestOutcome::PurgeDue));
    assert!(matches!(cache.ingest(WatchEvent::default()), IngestOutcome::SnapshotDue));
    assert!(matches!(cache.ingest(WatchEvent::from_timer(WatchCommand::Noop)), IngestOutcome::Idle));
    assert_eq!(cache.len(), 0);
}

#[test]
fn purge_removes_exactly_missing_keys() {
    let mut cache = ObjectCache::new();
    cache.ingest(event("/api/v1/namespaces/a/pods", WatchCommand::Add(object(Some("a"), "gone", None, "1"))));
    cache.ingest(event("/api/v1/namespaces/a/pods", WatchCommand::Add(object(Some("a"), "live", None, "2"))));
    cache.ingest(event("/api/v1/namespaces/a/pods", WatchCommand::Add(object(Some("a"), "err", None, "3"))));
    cache.ingest(event("/foo/bar", WatchCommand::Add(object(Some("a"), "untyped", None, "4"))));
    cache.ingest(event("/api/v1/nodes", WatchCommand::Add(object(None, "node", None, "5"))));
    let checks = cache.purge_checks();
    let keys: Vec<&str> = checks.iter().map(|c| c.key.as_str()).collect();
    assert_eq!(keys, vec!["a/err", "a/gone", "a/live"]);
    let outcomes: Vec<LiveStatus> = checks
        .iter()
        .map(|c| match c.name.as_str() {
            "gone" => LiveStatus::Missing,
            "live" => LiveStatus::Present,
            _ => LiveStatus::Failed,
        })
        .collect();
    cache.apply_purge(&checks, &outcomes);
    assert!(cache.get(&"a/gone".to_string()).is_none());
    assert!(cache.get(&"a/live".to_string()).is_some());
    assert!(cache.get(&"a/err".to_string()).is_some());
    assert!(cache.get(&"a/untyped".to_string()).is_some());
    assert!(cache.get(&"none/node".to_string()).is_some());
    assert_eq!(cache.len(), 4);
}

#[test]
fn purge_check_carries_coordinates() {
    let mut cache = ObjectCache::new();
    cache.ingest(event("/apis/apps/v1/namespaces/a/statefulsets", WatchCommand::Add(object(Some("a"), "db", None, "{}"))));
    cache.ingest(event("/x", WatchCommand::Add(object(Some("a"), "bad", Some(("a/b/c", "Thing")), "{}"))));
    let checks = cache.purge_checks();
    assert_eq!(checks.len(), 1);
    let c = &checks[0];
    assert_eq!(c.key, "a/db");
    assert_eq!(c.namespace, "a");
    assert_eq!(c.group, "apps");
    assert_eq!(c.version, "v1");
    assert_eq!(c.api_version, "apps/v1");
    assert_eq!(c.kind, "Statefulset");
    assert_eq!(c.plural, "statefulsets");
}

#[test]
fn snapshot_lists_every_entry() {
    let mut cache = ObjectCache::new();
    cache.ingest(event("/api/v1/namespaces/a/pods", WatchCommand::Add(object(Some("a"), "p", None, "1"))));
    cache.ingest(event("/api/v1/nodes", WatchCommand::Add(object(None, "n", None, "1"))));
    cache.ingest(event("/foo", WatchCommand::Add(object(Some("b"), "u", None, "1"))));
    let mut lines: Vec<(String, String, String)> =
        cache.snapshot().into_iter().map(|s| (s.kind, s.name, s.namespace)).collect();
    lines.sort();
    assert_eq!(
        lines,
        vec![
            ("Node".to_string(), "n".to_string(), "unknown".to_string()),
            ("Pod".to_string(), "p".to_string(), "a".to_string()),
            ("none".to_string(), "u".to_string(), "b".to_string()),
        ]
    );
}

#[test]
fn entries_come_in_key_order() {
    let mut cache = ObjectCache::new();
    for (ns, name) in [("b", "x"), ("a", "z"), ("a-b", "y"), ("a", "b")] {
        cache.ingest(event("/api/v1/namespaces/n/pods", WatchCommand::Add(object(Some(ns), name, None, "1"))));
    }
    let keys: Vec<String> = (0..cache.len()).map(|i| cache.entry_at(i).0.clone()).collect();
    assert_eq!(keys, vec!["a-b/y", "a/b", "a/z", "b/x"]);
}
