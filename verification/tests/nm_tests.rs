use quark::nm_cache::CacheKind;
use quark::nm_cache::CacheKindOf;
use quark::nm_cache::DeletedPodEvent;
use quark::nm_cache::EventType;
use quark::nm_cache::HoldsText;
use quark::nm_cache::NodeEvent;
use quark::nm_cache::NodeMgrCache;
use quark::nm_cache::NodeMgrCacheInner;
use quark::nm_cache::PodEventType;
use quark::nm_store::AttachData;
use quark::nm_store::BuildDataObject;
use quark::nm_store::DataObject;
use quark::nm_store::DataObjectInner;
use quark::nm_store::Labels;
use quark::nm_store::MetaData;
use quark::nm_store::MetaToDataObject;
use quark::nm_store::NodeFromJson;
use quark::nm_store::NodeToDataObject;
use quark::nm_store::PodFromJson;
use quark::nm_store::PodToDataObject;
use quark::nm_store::RevisionText;
use quark::nm_store::StoreError;
use std::collections::BTreeMap;

fn pair(a: &str, b: &str) -> (String, String) {
    (a.to_string(), b.to_string())
}

fn meta(version: Option<&str>) -> MetaData {
    MetaData {
        labels: Some(vec![pair("app", "web"), pair("tier", "front")]),
        annotations: None,
        resource_version: version.map(|v| v.to_string()),
        namespace: Some("default".to_string()),
        name: Some("n1".to_string()),
    }
}

fn obj(namespace: &str, name: &str) -> DataObject {
    DataObject(DataObjectInner {
        kind: "pod".to_string(),
        namespace: namespace.to_string(),
        name: name.to_string(),
        lables: Labels { pairs: Vec::new() },
        annotations: Labels { pairs: Vec::new() },
        reversion: 0,
        data: String::new(),
    })
}

fn pod(namespace: &str, name: &str, version: &str) -> k8s_openapi::api::core::v1::Pod {
    let mut p = k8s_openapi::api::core::v1::Pod::default();
    p.metadata.namespace = Some(namespace.to_string());
    p.metadata.name = Some(name.to_string());
    p.metadata.resource_version = Some(version.to_string());
    p
}

#[test]
fn meta_to_data_object_takes_the_metadata_over() {
    let inner = MetaToDataObject("node", &meta(Some("42"))).unwrap();
    assert_eq!(
        inner,
        DataObjectInner {
            kind: "node".to_string(),
            namespace: "default".to_string(),
            name: "n1".to_string(),
            lables: Labels { pairs: vec![pair("app", "web"), pair("tier", "front")] },
            annotations: Labels { pairs: Vec::new() },
            reversion: 42,
            data: String::new(),
        }
    );
}

#[test]
fn missing_fields_get_their_defaults() {
    let bare = MetaData {
        labels: None,
        annotations: Some(vec![pair("k", "v")]),
        resource_version: None,
        namespace: None,
        name: None,
    };
    assert_eq!(RevisionText(&bare), "0");
    let inner = MetaToDataObject("pod", &bare).unwrap();
    assert_eq!(inner.reversion, 0);
    assert_eq!(inner.namespace, "");
    assert_eq!(inner.name, "");
    assert!(inner.lables.pairs.is_empty());
    assert_eq!(inner.annotations.pairs, vec![pair("k", "v")]);
    assert_eq!(DataObject(inner).Key(), "/");
}

#[test]
fn revision_is_read_as_a_decimal_number() {
    assert_eq!(MetaToDataObject("pod", &meta(Some("-7"))).unwrap().reversion, -7);
    assert_eq!(MetaToDataObject("pod", &meta(Some("+15"))).unwrap().reversion, 15);
    assert_eq!(
        MetaToDataObject("pod", &meta(Some("9223372036854775807"))).unwrap().reversion,
        i64::MAX
    );
    for bad in ["", "abc", "12x", " 1", "9223372036854775808", "1.5"] {
        assert_eq!(MetaToDataObject("pod", &meta(Some(bad))), Err(StoreError::ParseIntError));
    }
    assert_eq!(RevisionText(&meta(Some("12x"))), "12x");
}

#[test]
fn build_data_object_goes_by_the_revision_it_is_handed() {
    assert_eq!(BuildDataObject("pod", &meta(None), None), Err(StoreError::ParseIntError));
    let inner = BuildDataObject("pod", &meta(Some("junk")), Some(5)).unwrap();
    assert_eq!(inner.reversion, 5);
    assert_eq!(inner.kind, "pod");
    assert_eq!(inner.name, "n1");
}

#[test]
fn attach_data_sets_the_json_text() {
    let inner = MetaToDataObject("pod", &meta(Some("1"))).unwrap();
    let with = AttachData(inner.clone(), Ok("{}".to_string())).unwrap();
    assert_eq!(with.0.data, "{}");
    assert_eq!(with.0.name, inner.name);
    let err = serde_json::from_str::<k8s_openapi::api::core::v1::Pod>("nonsense").unwrap_err();
    assert_eq!(AttachData(inner, Err(err)), Err(StoreError::SerdeJsonError));
}

#[test]
fn node_becomes_a_data_object_with_its_json() {
    let mut node = k8s_openapi::api::core::v1::Node::default();
    node.metadata.name = Some("worker-1".to_string());
    node.metadata.resource_version = Some("77".to_string());
    let mut labels = BTreeMap::new();
    labels.insert("zone".to_string(), "b".to_string());
    labels.insert("arch".to_string(), "x86".to_string());
    node.metadata.labels = Some(labels);
    let o = NodeToDataObject(&node).unwrap();
    assert_eq!(o.0.kind, "node");
    assert_eq!(o.0.namespace, "");
    assert_eq!(o.0.name, "worker-1");
    assert_eq!(o.0.reversion, 77);
    assert_eq!(o.0.lables.pairs, vec![pair("arch", "x86"), pair("zone", "b")]);
    assert!(o.0.annotations.pairs.is_empty());
    assert_eq!(o.Key(), "/worker-1");
    let back: k8s_openapi::api::core::v1::Node = serde_json::from_str(&o.0.data).unwrap();
    assert_eq!(back, node);
    let again = NodeFromJson(&o.0.data).unwrap();
    assert_eq!(again, o);
}

#[test]
fn pod_becomes_a_data_object_with_its_json() {
    let p = pod("ns", "podb", "3");
    let o = PodToDataObject(&p).unwrap();
    assert_eq!(o.0.kind, "pod");
    assert_eq!(o.Key(), "ns/podb");
    assert_eq!(o.0.reversion, 3);
    assert_eq!(serde_json::from_str::<k8s_openapi::api::core::v1::Pod>(&o.0.data).unwrap(), p);
    assert_eq!(PodFromJson(&o.0.data), Ok(o));
    assert_eq!(PodToDataObject(&pod("ns", "podb", "three")), Err(StoreError::ParseIntError));
    assert_eq!(PodFromJson("{ not json"), Err(StoreError::SerdeJsonError));
    assert_eq!(NodeFromJson("[1, 2]"), Err(StoreError::SerdeJsonError));
    let text = r#"{"metadata":{"name":"x","resourceVersion":"v9"}}"#;
    assert_eq!(PodFromJson(text), Err(StoreError::ParseIntError));
}

#[test]
fn refresh_records_the_pods_of_a_node() {
    let mut c = NodeMgrCacheInner::New();
    let n1 = obj("", "n1");
    let n2 = obj("", "n2");
    c.RecordNode(&n1, &vec![obj("a", "podb"), obj("a", "podc"), obj("a", "podb")]);
    c.RecordNode(&n2, &vec![obj("b", "podd")]);
    assert!(c.HasNode("/n1"));
    assert!(c.HasNode("/n2"));
    assert!(!c.HasNode("n1"));
    assert_eq!(c.nodePods[0].pods, vec!["a/podb".to_string(), "a/podc".to_string()]);
    assert!(c.HasPod("/n1", &"a/podc".to_string()));
    assert!(!c.HasPod("/n2", &"a/podc".to_string()));
    assert!(!c.HasPod("/n3", &"a/podc".to_string()));
    // a second report replaces the first
    c.RecordNode(&n1, &vec![obj("a", "podj")]);
    assert_eq!(c.nodePods.len(), 2);
    assert!(!c.HasPod("/n1", &"a/podb".to_string()));
    assert!(c.HasPod("/n1", &"a/podj".to_string()));
    assert!(c.HasPod("/n2", &"b/podd".to_string()));
    assert_eq!(c.FindNode(&"/n2".to_string()), Some(1));
    assert_eq!(c.FindNode(&"/n7".to_string()), None);
}

#[test]
fn pod_events_change_the_index_and_name_the_cache_event() {
    let mut c = NodeMgrCacheInner::New();
    c.RecordNode(&obj("", "n1"), &vec![obj("a", "podb")]);
    let podc = obj("a", "podc");
    assert!(c.PodEventIsSound("/n1", PodEventType::Add, &podc));
    assert!(!c.PodEventIsSound("/n1", PodEventType::Update, &podc));
    assert!(!c.PodEventIsSound("/n1", PodEventType::Delete, &podc));
    assert!(!c.PodEventIsSound("/n9", PodEventType::Add, &podc));
    assert!(!c.PodEventIsSound("/n1", PodEventType::Add, &obj("a", "podb")));
    let e = c.ProcessPodEvent("/n1", PodEventType::Add, podc.clone());
    assert_eq!((e.type_, &e.obj), (EventType::Added, &podc));
    assert!(c.HasPod("/n1", &"a/podc".to_string()));
    let e = c.ProcessPodEvent("/n1", PodEventType::Update, podc.clone());
    assert_eq!(e.type_, EventType::Modified);
    assert!(c.HasPod("/n1", &"a/podc".to_string()));
    let e = c.ProcessPodEvent("/n1", PodEventType::Delete, obj("a", "podb"));
    assert_eq!(e.type_, EventType::Deleted);
    assert!(!c.HasPod("/n1", &"a/podb".to_string()));
    assert!(c.HasPod("/n1", &"a/podc".to_string()));
}

#[test]
fn delete_node_returns_its_pods() {
    let mut c = NodeMgrCacheInner::New();
    c.RecordNode(&obj("", "n1"), &vec![obj("a", "podb"), obj("a", "podc")]);
    c.RecordNode(&obj("", "n2"), &vec![obj("b", "podd")]);
    assert_eq!(c.DeleteNode("/n7"), Vec::<String>::new());
    assert_eq!(c.DeleteNode("/n1"), vec!["a/podb".to_string(), "a/podc".to_string()]);
    assert!(!c.HasNode("/n1"));
    assert!(c.HasPod("/n2", &"b/podd".to_string()));
    assert_eq!(c.DeleteNode("/n1"), Vec::<String>::new());
    let found = obj("a", "podb");
    let e = DeletedPodEvent("/n1", Some(found.clone())).unwrap();
    assert_eq!((e.type_, e.obj), (EventType::Deleted, found));
    assert_eq!(
        DeletedPodEvent("/n1", None),
        Err(StoreError::CommonError(
            "NodeMgrCache::DeleteNode get inconsistent pods set for node /n1".to_string()
        ))
    );
}

#[test]
fn probation_ends_when_the_node_registers_again() {
    let mut c = NodeMgrCacheInner::New();
    c.probationNodes.push(("/n1".to_string(), 100));
    c.probationNodes.push(("/n2".to_string(), 200));
    c.probationNodes.push(("/n1".to_string(), 300));
    assert!(c.EndProbation("/n1"));
    assert_eq!(c.probationNodes, vec![("/n2".to_string(), 200)]);
    assert!(!c.EndProbation("/n1"));
    assert!(c.EndProbation("/n2"));
    assert!(c.probationNodes.is_empty());
}

#[test]
fn node_event_and_cache_kind_follow_their_tables() {
    let o = obj("", "n1");
    assert_eq!(NodeEvent(true, o.clone()).type_, EventType::Modified);
    assert_eq!(NodeEvent(false, o.clone()).type_, EventType::Added);
    assert_eq!(NodeEvent(false, o.clone()).obj, o);
    assert_eq!(CacheKindOf("pod"), Some(CacheKind::Pod));
    assert_eq!(CacheKindOf("node"), Some(CacheKind::Node));
    assert_eq!(CacheKindOf("Pod"), None);
    assert_eq!(CacheKindOf(""), None);
    let texts = vec!["a".to_string(), "b".to_string()];
    assert!(HoldsText(&texts, &"b".to_string()));
    assert!(!HoldsText(&texts, &"c".to_string()));
}

fn node(name: &str, version: &str) -> k8s_openapi::api::core::v1::Node {
    let mut n = k8s_openapi::api::core::v1::Node::default();
    n.metadata.name = Some(name.to_string());
    n.metadata.resource_version = Some(version.to_string());
    n
}

#[test]
fn refresh_node_takes_a_report_in() {
    let mut c = NodeMgrCacheInner::New();
    let report = c
        .RefreshNode(&node("w1", "5"), &[pod("ns", "web", "1"), pod("ns", "db", "2")])
        .unwrap();
    assert_eq!(report.node.Key(), "/w1");
    assert_eq!(report.node.0.kind, "node");
    assert_eq!(report.pods.len(), 2);
    assert_eq!(report.pods[1].Key(), "ns/db");
    assert!(c.HasPod("/w1", &"ns/web".to_string()));
    assert!(c.HasPod("/w1", &"ns/db".to_string()));
    // a report that cannot be taken over changes nothing
    assert_eq!(
        c.RefreshNode(&node("w1", "6"), &[pod("ns", "web", "x")]),
        Err(StoreError::ParseIntError)
    );
    assert_eq!(c.RefreshNode(&node("w2", "y"), &[]), Err(StoreError::ParseIntError));
    assert!(c.HasPod("/w1", &"ns/db".to_string()));
    assert!(!c.HasNode("/w2"));
}

#[test]
fn store_registers_updates_and_deletes_nodes() {
    let mut store = NodeMgrCache::New();
    store.inner.probationNodes.push(("/w1".to_string(), 7));
    store.inner.probationNodes.push(("/w2".to_string(), 8));
    let report = store.RegisterNodeAgentClient(&node("w1", "1"), &[pod("ns", "web", "1")]).unwrap();
    assert_eq!(report.pods.len(), 1);
    assert_eq!(store.inner.probationNodes, vec![("/w2".to_string(), 8)]);
    assert!(store.inner.HasPod("/w1", &"ns/web".to_string()));
    // the pods cannot be taken over: the probation has ended, the index is as it was
    assert_eq!(
        store.RegisterNodeAgentClient(&node("w2", "1"), &[pod("ns", "db", "")]),
        Err(StoreError::ParseIntError)
    );
    assert!(store.inner.probationNodes.is_empty());
    assert!(!store.inner.HasNode("/w2"));
    assert_eq!(store.GetCacher("pod"), Some(CacheKind::Pod));
    assert_eq!(store.GetCacher("nodes"), None);
    let db = PodToDataObject(&pod("ns", "db", "2")).unwrap();
    assert!(store.inner.PodEventIsSound("/w1", PodEventType::Add, &db));
    let e = store.ProcessPodEvent("/w1", PodEventType::Add, db.clone());
    assert_eq!((e.type_, e.obj), (EventType::Added, db));
    let text = serde_json::to_string(&node("w1", "9")).unwrap();
    let e = store.ProcessNodeUpdate(&text).unwrap();
    assert_eq!(e.type_, EventType::Modified);
    assert_eq!((e.obj.Key().as_str(), e.obj.0.reversion), ("/w1", 9));
    assert_eq!(store.ProcessNodeUpdate("{"), Err(StoreError::SerdeJsonError));
    assert_eq!(store.DeleteNode("/w1"), vec!["ns/web".to_string(), "ns/db".to_string()]);
    assert!(!store.inner.HasNode("/w1"));
}
