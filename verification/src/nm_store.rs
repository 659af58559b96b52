//! How the node manager turns what the cluster reports into the objects
//! that it keeps: nodes and pods become data objects with the metadata that
//! the manager reads and the whole object as JSON text.

use k8s_openapi::apimachinery::pkg::apis::meta::v1::ObjectMeta;
use vstd::prelude::*;
use vstd::string::StringExecFns;

verus! {

/// Why an object could not be taken over.
#[derive(Debug, Clone, PartialEq, Eq)]
pub enum StoreError {
    /// The resource version is no decimal 64-bit number.
    ParseIntError,
    /// The object could not be written as JSON or read from it.
    SerdeJsonError,
    /// Another error, with its message.
    CommonError(String),
}

/// Labels or annotations: pairs of a name and a value.
#[derive(Debug, Clone, PartialEq, Eq)]
pub struct Labels {
    pub pairs: Vec<(String, String)>,
}

/// What the node manager reads of an object's metadata.
#[derive(Debug, Clone, PartialEq, Eq)]
pub struct MetaData {
    pub labels: Option<Vec<(String, String)>>,
    pub annotations: Option<Vec<(String, String)>>,
    pub resource_version: Option<String>,
    pub namespace: Option<String>,
    pub name: Option<String>,
}

/// An object as the node manager keeps it.
#[derive(Debug, Clone, PartialEq, Eq)]
pub struct DataObjectInner {
    pub kind: String,
    pub namespace: String,
    pub name: String,
    pub lables: Labels,
    pub annotations: Labels,
    pub reversion: i64,
    /// The whole object as JSON text.
    pub data: String,
}

/// An object of the node manager, as it is handed to the caches.
#[derive(Debug, Clone, PartialEq, Eq)]
pub struct DataObject(pub DataObjectInner);

/// The metadata of a Kubernetes object, as `k8s_openapi` holds it. The
/// library only carries such a value to the functions that read it.
#[verifier::external_type_specification]
#[verifier::external_body]
pub struct ExObjectMeta(k8s_openapi::apimachinery::pkg::apis::meta::v1::ObjectMeta);

/// A Kubernetes node, as `k8s_openapi` holds it.
#[verifier::external_type_specification]
#[verifier::external_body]
pub struct ExNode(k8s_openapi::api::core::v1::Node);

/// A Kubernetes pod, as `k8s_openapi` holds it.
#[verifier::external_type_specification]
#[verifier::external_body]
pub struct ExPod(k8s_openapi::api::core::v1::Pod);

/// The error of `serde_json`.
#[verifier::external_type_specification]
#[verifier::external_body]
pub struct ExJsonError(serde_json::Error);

/// The number that `str::parse::<i64>` reads from a text, if it reads one.
pub uninterp spec fn parsed_i64(text: Seq<char>) -> Option<i64>;

/// `str::parse::<i64>`: reads a decimal 64-bit number. The contract names
/// the result and claims only that it depends on the text alone.
#[verifier::external_body]
fn parse_i64(text: &str) -> (r: Option<i64>)
    ensures
        r == parsed_i64(text@),
{
    match text.parse::<i64>() {
        Ok(n) => Some(n),
        Err(_) => None,
    }
}

/// Reads the fields of a `k8s_openapi` `ObjectMeta` that the node manager
/// uses, the maps as pairs in the order of their keys. Nothing is claimed of
/// the result.
#[verifier::external_body]
fn meta_of(meta: &ObjectMeta) -> MetaData {
    MetaData {
        labels: meta.labels.as_ref().map(
            |m| m.iter().map(|(k, v)| (k.clone(), v.clone())).collect(),
        ),
        annotations: meta.annotations.as_ref().map(
            |m| m.iter().map(|(k, v)| (k.clone(), v.clone())).collect(),
        ),
        resource_version: meta.resource_version.clone(),
        namespace: meta.namespace.clone(),
        name: meta.name.clone(),
    }
}

/// The `metadata` field of a `k8s_openapi` `Node`.
#[verifier::external_body]
fn node_meta(node: &k8s_openapi::api::core::v1::Node) -> &ObjectMeta {
    &node.metadata
}

/// The `metadata` field of a `k8s_openapi` `Pod`.
#[verifier::external_body]
fn pod_meta(pod: &k8s_openapi::api::core::v1::Pod) -> &ObjectMeta {
    &pod.metadata
}

/// `serde_json::to_string` on a node. Nothing is claimed of the result.
#[verifier::external_body]
fn node_to_json(node: &k8s_openapi::api::core::v1::Node) -> Result<String, serde_json::Error> {
    serde_json::to_string(node)
}

/// `serde_json::to_string` on a pod. Nothing is claimed of the result.
#[verifier::external_body]
fn pod_to_json(pod: &k8s_openapi::api::core::v1::Pod) -> Result<String, serde_json::Error> {
    serde_json::to_string(pod)
}

/// `serde_json::from_str` for a node. Nothing is claimed of the result.
#[verifier::external_body]
fn node_from_json(text: &str) -> Result<k8s_openapi::api::core::v1::Node, serde_json::Error> {
    serde_json::from_str(text)
}

/// `serde_json::from_str` for a pod. Nothing is claimed of the result.
#[verifier::external_body]
fn pod_from_json(text: &str) -> Result<k8s_openapi::api::core::v1::Pod, serde_json::Error> {
    serde_json::from_str(text)
}

/// The text of an optional field, or `default` where the field is absent.
pub open spec fn text_or(field: Option<String>, default: Seq<char>) -> Seq<char> {
    match field {
        Some(s) => s@,
        None => default,
    }
}

/// The pairs of an optional map, or none where the map is absent.
pub open spec fn pairs_or_none(field: Option<Vec<(String, String)>>) -> Seq<(String, String)> {
    match field {
        Some(v) => v@,
        None => Seq::empty(),
    }
}

/// The text from which the revision of an object is read: its resource
/// version, or "0" where it has none.
pub open spec fn revision_text(meta: MetaData) -> Seq<char> {
    text_or(meta.resource_version, "0"@)
}

/// Whether `inner` is the data object of kind `kind` for the metadata
/// `meta` at the revision `revision`: names and maps are taken over, an
/// absent namespace or name is empty, and no data is attached yet.
pub open spec fn built_from(
    kind: Seq<char>,
    meta: MetaData,
    revision: i64,
    inner: DataObjectInner,
) -> bool {
    &&& inner.kind@ == kind
    &&& inner.namespace@ == text_or(meta.namespace, Seq::empty())
    &&& inner.name@ == text_or(meta.name, Seq::empty())
    &&& inner.lables.pairs@ == pairs_or_none(meta.labels)
    &&& inner.annotations.pairs@ == pairs_or_none(meta.annotations)
    &&& inner.reversion == revision
    &&& inner.data@ == Seq::<char>::empty()
}

/// The key under which an object is kept: namespace, a slash, name.
pub open spec fn key_of(inner: DataObjectInner) -> Seq<char> {
    inner.namespace@ + "/"@ + inner.name@
}

fn copy_text(field: &Option<String>) -> (r: String)
    ensures
        r@ == text_or(*field, Seq::empty()),
{
    match field {
        Some(s) => s.clone(),
        None => String::new(),
    }
}

fn copy_pairs(field: &Option<Vec<(String, String)>>) -> (r: Labels)
    ensures
        r.pairs@ == pairs_or_none(*field),
{
    let mut pairs: Vec<(String, String)> = Vec::new();
    match field {
        None => {},
        Some(v) => {
            let n = v.len();
            let mut i: usize = 0;
            while i < n
                invariant
                    n == v@.len(),
                    i <= n,
                    pairs@ == v@.take(i as int),
                decreases n - i,
            {
                let pair = (v[i].0.clone(), v[i].1.clone());
                pairs.push(pair);
                assert(v@.take(i + 1) =~= v@.take(i as int).push(v@[i as int]));
                i = i + 1;
            }
            assert(v@.take(n as int) =~= v@);
        },
    }
    Labels { pairs }
}

/// The text from which the revision of an object is read.
pub fn RevisionText(meta: &MetaData) -> (r: String)
    ensures
        r@ == revision_text(*meta),
{
    match &meta.resource_version {
        Some(s) => s.clone(),
        None => "0".to_owned(),
    }
}

/// Builds the data object of kind `kind` from the metadata and from what
/// was read as the revision. Where no revision could be read, the object is
/// refused with `ParseIntError`.
pub fn BuildDataObject(kind: &str, meta: &MetaData, revision: Option<i64>) -> (r: Result<
    DataObjectInner,
    StoreError,
>)
    ensures
        match r {
            Ok(inner) => revision is Some && built_from(kind@, *meta, revision.unwrap(), inner),
            Err(e) => revision is None && e == StoreError::ParseIntError,
        },
{
    let lables = copy_pairs(&meta.labels);
    let annotations = copy_pairs(&meta.annotations);
    match revision {
        None => Err(StoreError::ParseIntError),
        Some(n) => Ok(
            DataObjectInner {
                kind: kind.to_owned(),
                namespace: copy_text(&meta.namespace),
                name: copy_text(&meta.name),
                lables,
                annotations,
                reversion: n,
                data: String::new(),
            },
        ),
    }
}

/// Builds the data object of kind `kind` from an object's metadata. The
/// revision is the resource version read as a decimal number; an object
/// whose resource version is no such number is refused.
pub fn MetaToDataObject(kind: &str, meta: &MetaData) -> (r: Result<DataObjectInner, StoreError>)
    ensures
        match r {
            Ok(inner) => parsed_i64(revision_text(*meta)) matches Some(n) && built_from(
                kind@,
                *meta,
                n,
                inner,
            ),
            Err(e) => parsed_i64(revision_text(*meta)) is None && e == StoreError::ParseIntError,
        },
{
    let text = RevisionText(meta);
    BuildDataObject(kind, meta, parse_i64(text.as_str()))
}

/// Attaches the JSON text of the whole object to its data object. Where the
/// object could not be written as JSON, `SerdeJsonError` comes back.
pub fn AttachData(inner: DataObjectInner, json: Result<String, serde_json::Error>) -> (r: Result<
    DataObject,
    StoreError,
>)
    ensures
        match r {
            Ok(obj) => json matches Ok(text) && obj.0 == (DataObjectInner { data: text, ..inner }),
            Err(e) => json is Err && e == StoreError::SerdeJsonError,
        },
{
    match json {
        Err(_) => Err(StoreError::SerdeJsonError),
        Ok(text) => {
            let mut inner = inner;
            inner.data = text;
            Ok(DataObject(inner))
        },
    }
}

/// The data object of a node: of kind "node", without data of its own but
/// the node as JSON text. An error says that the node's resource version is
/// no number, or that the node could not be written as JSON.
pub fn NodeToDataObject(node: &k8s_openapi::api::core::v1::Node) -> (r: Result<
    DataObject,
    StoreError,
>)
    ensures
        match r {
            Ok(obj) => obj.0.kind@ == "node"@,
            Err(e) => e == StoreError::ParseIntError || e == StoreError::SerdeJsonError,
        },
{
    let meta = meta_of(node_meta(node));
    match MetaToDataObject("node", &meta) {
        Err(e) => Err(e),
        Ok(inner) => AttachData(inner, node_to_json(node)),
    }
}

/// The data object of a pod: of kind "pod", with the pod as JSON text. An
/// error says that the pod's resource version is no number, or that the pod
/// could not be written as JSON.
pub fn PodToDataObject(pod: &k8s_openapi::api::core::v1::Pod) -> (r: Result<DataObject, StoreError>)
    ensures
        match r {
            Ok(obj) => obj.0.kind@ == "pod"@,
            Err(e) => e == StoreError::ParseIntError || e == StoreError::SerdeJsonError,
        },
{
    let meta = meta_of(pod_meta(pod));
    match MetaToDataObject("pod", &meta) {
        Err(e) => Err(e),
        Ok(inner) => AttachData(inner, pod_to_json(pod)),
    }
}

/// The data objects of the pods, in their order. The first pod that cannot
/// be taken over decides the error.
pub fn PodsToDataObjects(pods: &[k8s_openapi::api::core::v1::Pod]) -> (r: Result<
    Vec<DataObject>,
    StoreError,
>)
    ensures
        match r {
            Ok(objs) => objs@.len() == pods@.len() && forall|i: int|
                0 <= i < objs@.len() ==> (#[trigger] objs@[i]).0.kind@ == "pod"@,
            Err(e) => pods@.len() > 0 && (e == StoreError::ParseIntError || e
                == StoreError::SerdeJsonError),
        },
{
    let mut objs: Vec<DataObject> = Vec::new();
    let n = pods.len();
    let mut i: usize = 0;
    while i < n
        invariant
            n == pods@.len(),
            i <= n,
            objs@.len() == i,
            forall|k: int| 0 <= k < objs@.len() ==> (#[trigger] objs@[k]).0.kind@ == "pod"@,
        decreases n - i,
    {
        match PodToDataObject(&pods[i]) {
            Err(e) => {
                return Err(e);
            },
            Ok(obj) => {
                objs.push(obj);
            },
        }
        i = i + 1;
    }
    Ok(objs)
}

/// Reads a pod from JSON text and builds its data object. An error says
/// that the text is no pod, that the pod's resource version is no number,
/// or that the pod could not be written as JSON again.
pub fn PodFromJson(text: &str) -> (r: Result<DataObject, StoreError>)
    ensures
        match r {
            Ok(obj) => obj.0.kind@ == "pod"@,
            Err(e) => e == StoreError::ParseIntError || e == StoreError::SerdeJsonError,
        },
{
    match pod_from_json(text) {
        Err(_) => Err(StoreError::SerdeJsonError),
        Ok(pod) => PodToDataObject(&pod),
    }
}

/// Reads a node from JSON text and builds its data object. An error says
/// that the text is no node, that the node's resource version is no number,
/// or that the node could not be written as JSON again.
pub fn NodeFromJson(text: &str) -> (r: Result<DataObject, StoreError>)
    ensures
        match r {
            Ok(obj) => obj.0.kind@ == "node"@,
            Err(e) => e == StoreError::ParseIntError || e == StoreError::SerdeJsonError,
        },
{
    match node_from_json(text) {
        Err(_) => Err(StoreError::SerdeJsonError),
        Ok(node) => NodeToDataObject(&node),
    }
}

impl DataObject {
    /// The key under which the object is kept.
    pub fn Key(&self) -> (key: String)
        ensures
            key@ == key_of(self.0),
    {
        let key = self.0.namespace.clone();
        let key = key.concat("/");
        key.concat(self.0.name.as_str())
    }
}

} // verus!
