//! What the node manager knows of its nodes: which pods run on which node,
//! and which nodes are on probation after they lost their connection.
//!
//! The caches that hold the objects themselves belong to the embedding
//! program. The functions here keep the index and say which event goes to
//! which cache.

use crate::nm_store::key_of;
use crate::nm_store::DataObject;
use crate::nm_store::NodeFromJson;
use crate::nm_store::NodeToDataObject;
use crate::nm_store::PodsToDataObjects;
use crate::nm_store::StoreError;
use vstd::prelude::*;
use vstd::string::StringExecFns;

verus! {

/// What happened to an object.
#[derive(Debug, Clone, Copy, PartialEq, Eq)]
pub enum EventType {
    Added,
    Modified,
    Deleted,
}

/// An event for a cache.
#[derive(Debug, Clone, PartialEq, Eq)]
pub struct WatchEvent {
    pub type_: EventType,
    pub obj: DataObject,
}

/// What a node reports of one of its pods.
#[derive(Debug, Clone, Copy, PartialEq, Eq)]
pub enum PodEventType {
    Add,
    Update,
    Delete,
}

/// The caches of the node manager.
#[derive(Debug, Clone, Copy, PartialEq, Eq)]
pub enum CacheKind {
    Pod,
    Node,
}

/// The pods of one node, by their keys.
#[derive(Debug, Clone, PartialEq, Eq)]
pub struct NodePods {
    pub node: String,
    pub pods: Vec<String>,
}

/// Whether `texts` holds the text `t`.
pub open spec fn holds_text(texts: Seq<String>, t: Seq<char>) -> bool {
    exists|j: int| 0 <= j < texts.len() && (#[trigger] texts[j])@ == t
}

/// Whether no text occurs twice in `texts`.
pub open spec fn distinct_texts(texts: Seq<String>) -> bool {
    forall|i: int, j: int|
        0 <= i < j < texts.len() ==> (#[trigger] texts[i])@ != (#[trigger] texts[j])@
}

/// Whether the `i`-th entry is the one of the node `node`.
pub open spec fn node_at(entries: Seq<NodePods>, node: Seq<char>, i: int) -> bool {
    0 <= i < entries.len() && entries[i].node@ == node
}

/// Whether the node `node` is known.
pub open spec fn has_node(entries: Seq<NodePods>, node: Seq<char>) -> bool {
    exists|i: int| #[trigger] node_at(entries, node, i)
}

/// Whether the pod `pod` is recorded for the node `node`.
pub open spec fn pod_on(entries: Seq<NodePods>, node: Seq<char>, pod: Seq<char>) -> bool {
    exists|i: int| #[trigger] node_at(entries, node, i) && holds_text(entries[i].pods@, pod)
}

/// Whether every node has one entry and every pod of a node one record.
pub open spec fn index_wf(entries: Seq<NodePods>) -> bool {
    &&& forall|i: int, j: int|
        0 <= i < j < entries.len() ==> (#[trigger] entries[i]).node@ != (
        #[trigger] entries[j]).node@
    &&& forall|i: int| 0 <= i < entries.len() ==> distinct_texts((#[trigger] entries[i]).pods@)
}

/// Whether one of the objects has the key `key`.
pub open spec fn among_keys(objs: Seq<DataObject>, key: Seq<char>) -> bool {
    exists|j: int| 0 <= j < objs.len() && key_of((#[trigger] objs[j]).0) == key
}

/// Whether `texts` holds `t`.
pub fn HoldsText(texts: &Vec<String>, t: &String) -> (b: bool)
    ensures
        b == holds_text(texts@, t@),
{
    let n = texts.len();
    let mut j: usize = 0;
    while j < n
        invariant
            n == texts@.len(),
            j <= n,
            forall|k: int| 0 <= k < j ==> (#[trigger] texts@[k])@ != t@,
        decreases n - j,
    {
        if texts[j] == *t {
            return true;
        }
        j = j + 1;
    }
    false
}

/// The cache that keeps objects of the type `objType`: "pod" or "node".
pub fn CacheKindOf(objType: &str) -> (r: Option<CacheKind>)
    ensures
        r == (if objType@ == "pod"@ {
            Some(CacheKind::Pod)
        } else if objType@ == "node"@ {
            Some(CacheKind::Node)
        } else {
            None
        }),
{
    let name = objType.to_owned();
    if name == "pod".to_owned() {
        Some(CacheKind::Pod)
    } else if name == "node".to_owned() {
        Some(CacheKind::Node)
    } else {
        None
    }
}

/// The event for the cache of nodes when a node reports itself: the node is
/// modified if the cache knows it, and added if not.
pub fn NodeEvent(known: bool, obj: DataObject) -> (e: WatchEvent)
    ensures
        e.obj == obj,
        e.type_ == (if known {
            EventType::Modified
        } else {
            EventType::Added
        }),
{
    WatchEvent {
        type_: if known {
            EventType::Modified
        } else {
            EventType::Added
        },
        obj,
    }
}

/// The text of the error for a pod that a node is recorded to run but that
/// the cache of pods does not hold.
pub open spec fn inconsistent_text(nodeKey: Seq<char>) -> Seq<char> {
    "NodeMgrCache::DeleteNode get inconsistent pods set for node "@ + nodeKey
}

/// The event for the cache of pods when the node of a pod is deleted:
/// `found` is what the cache holds under the pod's key. A pod that the
/// cache does not hold shows that index and cache disagree, which is an
/// error.
pub fn DeletedPodEvent(nodeKey: &str, found: Option<DataObject>) -> (r: Result<
    WatchEvent,
    StoreError,
>)
    ensures
        match r {
            Ok(e) => found == Some(e.obj) && e.type_ == EventType::Deleted,
            Err(e) => found is None && (e matches StoreError::CommonError(text) && text@
                == inconsistent_text(nodeKey@)),
        },
{
    match found {
        Some(obj) => Ok(WatchEvent { type_: EventType::Deleted, obj }),
        None => {
            let text = "NodeMgrCache::DeleteNode get inconsistent pods set for node ".to_owned();
            Err(StoreError::CommonError(text.concat(nodeKey)))
        },
    }
}

/// Whether a report about the pod `pod` of the node `node` fits the index:
/// the node is known, a pod that is added is not recorded yet, and a pod
/// that is updated or deleted is recorded.
pub open spec fn pod_event_sound(
    entries: Seq<NodePods>,
    node: Seq<char>,
    eventType: PodEventType,
    pod: Seq<char>,
) -> bool {
    has_node(entries, node) && (pod_on(entries, node, pod) <==> !(eventType is Add))
}

/// The event for the cache of pods that belongs to a report.
pub open spec fn cache_event(eventType: PodEventType) -> EventType {
    match eventType {
        PodEventType::Add => EventType::Added,
        PodEventType::Update => EventType::Modified,
        PodEventType::Delete => EventType::Deleted,
    }
}

/// Whether the pod `pod` is recorded for the node `node` after the report
/// `eventType` about the pod `about` of the node `at`.
pub open spec fn pod_on_after(
    entries: Seq<NodePods>,
    at: Seq<char>,
    eventType: PodEventType,
    about: Seq<char>,
    node: Seq<char>,
    pod: Seq<char>,
) -> bool {
    let hit = node == at && pod == about;
    match eventType {
        PodEventType::Add => pod_on(entries, node, pod) || hit,
        PodEventType::Update => pod_on(entries, node, pod),
        PodEventType::Delete => pod_on(entries, node, pod) && !hit,
    }
}

/// Whether `after` is the index `before` with the report of a node taken
/// in: the node is known, its pods are exactly the pods of the report, and
/// the other nodes and their pods are as they were.
pub open spec fn recorded(
    before: Seq<NodePods>,
    after: Seq<NodePods>,
    nodeObj: DataObject,
    podObjs: Seq<DataObject>,
) -> bool {
    &&& forall|node: Seq<char>|
        has_node(after, node) <==> has_node(before, node) || node == key_of(nodeObj.0)
    &&& forall|pod: Seq<char>|
        pod_on(after, key_of(nodeObj.0), pod) <==> among_keys(podObjs, pod)
    &&& forall|node: Seq<char>, pod: Seq<char>|
        node != key_of(nodeObj.0) ==> (pod_on(after, node, pod) <==> pod_on(before, node, pod))
}

/// What a node reported, as data objects.
#[derive(Debug, Clone, PartialEq, Eq)]
pub struct NodeReport {
    pub node: DataObject,
    pub pods: Vec<DataObject>,
}

/// The index of the node manager.
pub struct NodeMgrCacheInner {
    /// The pods of each node.
    pub nodePods: Vec<NodePods>,
    /// The nodes that lost their connection, each with the time at which its
    /// probation began.
    pub probationNodes: Vec<(String, u64)>,
}

impl NodeMgrCacheInner {
    /// The representation invariant of the index.
    pub open spec fn wf(&self) -> bool {
        index_wf(self.nodePods@)
    }

    /// The index without any node.
    pub fn New() -> (c: Self)
        ensures
            c.wf(),
            c.nodePods@.len() == 0,
            c.probationNodes@.len() == 0,
    {
        NodeMgrCacheInner { nodePods: Vec::new(), probationNodes: Vec::new() }
    }

    /// The position of the entry of the node `nodeKey`.
    pub fn FindNode(&self, nodeKey: &String) -> (r: Option<usize>)
        ensures
            match r {
                Some(i) => node_at(self.nodePods@, nodeKey@, i as int),
                None => !has_node(self.nodePods@, nodeKey@),
            },
    {
        let n = self.nodePods.len();
        let mut i: usize = 0;
        while i < n
            invariant
                n == self.nodePods@.len(),
                i <= n,
                forall|k: int| 0 <= k < i ==> !#[trigger] node_at(self.nodePods@, nodeKey@, k),
            decreases n - i,
        {
            if self.nodePods[i].node == *nodeKey {
                return Some(i);
            }
            i = i + 1;
        }
        None
    }

    /// Whether the node `nodeKey` is known.
    pub fn HasNode(&self, nodeKey: &str) -> (b: bool)
        ensures
            b == has_node(self.nodePods@, nodeKey@),
    {
        let key = nodeKey.to_owned();
        self.FindNode(&key).is_some()
    }

    /// Whether the pod `podKey` is recorded for the node `nodeKey`.
    pub fn HasPod(&self, nodeKey: &str, podKey: &String) -> (b: bool)
        requires
            self.wf(),
        ensures
            b == pod_on(self.nodePods@, nodeKey@, podKey@),
    {
        let key = nodeKey.to_owned();
        match self.FindNode(&key) {
            None => false,
            Some(i) => {
                let b = HoldsText(&self.nodePods[i].pods, podKey);
                proof {
                    let entries = self.nodePods@;
                    if pod_on(entries, nodeKey@, podKey@) {
                        let k = choose|k: int| #[trigger]
                            node_at(entries, nodeKey@, k) && holds_text(entries[k].pods@, podKey@);
                        assert(k == i);
                    }
                    if b {
                        assert(node_at(entries, nodeKey@, i as int));
                    }
                }
                b
            },
        }
    }

    /// Whether a report about a pod fits the index.
    pub fn PodEventIsSound(
        &self,
        nodeKey: &str,
        eventType: PodEventType,
        podObj: &DataObject,
    ) -> (b: bool)
        requires
            self.wf(),
        ensures
            b == pod_event_sound(self.nodePods@, nodeKey@, eventType, key_of(podObj.0)),
    {
        if !self.HasNode(nodeKey) {
            return false;
        }
        let recorded = self.HasPod(nodeKey, &podObj.Key());
        match eventType {
            PodEventType::Add => !recorded,
            _ => recorded,
        }
    }

    /// Takes a report about a pod of the node `nodeKey` into the index and
    /// returns the event for the cache of pods.
    ///
    /// A pod that is added is recorded for the node, a pod that is deleted is
    /// struck off, and an update leaves the index as it is. The report has
    /// to fit the index, which `PodEventIsSound` tests.
    pub fn ProcessPodEvent(
        &mut self,
        nodeKey: &str,
        eventType: PodEventType,
        podObj: DataObject,
    ) -> (e: WatchEvent)
        requires
            old(self).wf(),
            pod_event_sound(old(self).nodePods@, nodeKey@, eventType, key_of(podObj.0)),
        ensures
            final(self).wf(),
            e.obj == podObj,
            e.type_ == cache_event(eventType),
            final(self).probationNodes == old(self).probationNodes,
            eventType is Update ==> *final(self) == *old(self),
            forall|node: Seq<char>|
                has_node(final(self).nodePods@, node) <==> has_node(old(self).nodePods@, node),
            forall|node: Seq<char>, pod: Seq<char>|
                pod_on(final(self).nodePods@, node, pod) <==> pod_on_after(
                    old(self).nodePods@,
                    nodeKey@,
                    eventType,
                    key_of(podObj.0),
                    node,
                    pod,
                ),
    {
        let ghost before = self.nodePods@;
        let ghost about = key_of(podObj.0);
        let node = nodeKey.to_owned();
        match eventType {
            PodEventType::Update => {
                return WatchEvent { type_: EventType::Modified, obj: podObj };
            },
            _ => {},
        }
        let found = self.FindNode(&node);
        let i = found.unwrap();
        let key = podObj.Key();
        proof {
            if holds_text(before[i as int].pods@, about) {
                assert(node_at(before, nodeKey@, i as int));
            }
            if pod_on(before, nodeKey@, about) {
                let k = choose|k: int| #[trigger]
                    node_at(before, nodeKey@, k) && holds_text(before[k].pods@, about);
                assert(k == i);
            }
        }
        match eventType {
            PodEventType::Add => {
                self.nodePods[i].pods.push(key);
                proof {
                    let after = self.nodePods@;
                    lemma_entry_changed(before, after, i as int);
                    assert(after[i as int].pods@ == before[i as int].pods@.push(key));
                    assert forall|pod: Seq<char>|
                        holds_text(after[i as int].pods@, pod) <==> holds_text(
                            before[i as int].pods@,
                            pod,
                        ) || pod == about by {
                        lemma_pushed_text(before[i as int].pods@, key, pod);
                    }
                    assert(distinct_texts(after[i as int].pods@)) by {
                        lemma_pushed_distinct(before[i as int].pods@, key);
                    }
                    lemma_pods_replaced(before, after, i as int);
                    assert forall|n: Seq<char>, pod: Seq<char>|
                        pod_on(after, n, pod) <==> pod_on_after(
                            before,
                            nodeKey@,
                            eventType,
                            about,
                            n,
                            pod,
                        ) by {
                        lemma_pod_on_entry(before, nodeKey@, i as int, pod);
                        lemma_pod_on_entry(after, nodeKey@, i as int, pod);
                    }
                }
                WatchEvent { type_: EventType::Added, obj: podObj }
            },
            _ => {
                let j = find_text(&self.nodePods[i].pods, &key);
                self.nodePods[i].pods.remove(j);
                proof {
                    let after = self.nodePods@;
                    lemma_entry_changed(before, after, i as int);
                    assert(after[i as int].pods@ == before[i as int].pods@.remove(j as int));
                    assert forall|pod: Seq<char>|
                        holds_text(after[i as int].pods@, pod) <==> holds_text(
                            before[i as int].pods@,
                            pod,
                        ) && pod != about by {
                        lemma_removed_text(before[i as int].pods@, j as int, pod);
                    }
                    assert(distinct_texts(after[i as int].pods@)) by {
                        lemma_removed_distinct(before[i as int].pods@, j as int);
                    }
                    lemma_pods_replaced(before, after, i as int);
                    assert forall|n: Seq<char>, pod: Seq<char>|
                        pod_on(after, n, pod) <==> pod_on_after(
                            before,
                            nodeKey@,
                            eventType,
                            about,
                            n,
                            pod,
                        ) by {
                        lemma_pod_on_entry(before, nodeKey@, i as int, pod);
                        lemma_pod_on_entry(after, nodeKey@, i as int, pod);
                    }
                }
                WatchEvent { type_: EventType::Deleted, obj: podObj }
            },
        }
    }
}

/// Whether the node `node` is on probation since the time `since`.
pub open spec fn on_probation(list: Seq<(String, u64)>, node: Seq<char>, since: u64) -> bool {
    exists|i: int| 0 <= i < list.len() && (#[trigger] list[i]).0@ == node && list[i].1 == since
}

/// The keys of the objects, each once, in the order in which they first
/// occur.
fn distinct_keys(objs: &Vec<DataObject>) -> (keys: Vec<String>)
    ensures
        distinct_texts(keys@),
        forall|key: Seq<char>| holds_text(keys@, key) <==> among_keys(objs@, key),
{
    let mut keys: Vec<String> = Vec::new();
    let n = objs.len();
    let mut j: usize = 0;
    while j < n
        invariant
            n == objs@.len(),
            j <= n,
            distinct_texts(keys@),
            forall|key: Seq<char>|
                holds_text(keys@, key) <==> among_keys(objs@.take(j as int), key),
        decreases n - j,
    {
        let key = objs[j].Key();
        let ghost before = keys@;
        let ghost seen = objs@.take(j as int);
        let ghost next = objs@.take(j + 1);
        proof {
            assert forall|k: Seq<char>| among_keys(next, k) <==> among_keys(seen, k) || k
                == key@ by {
                if among_keys(next, k) {
                    let t = choose|t: int|
                        0 <= t < next.len() && key_of((#[trigger] next[t]).0) == k;
                    if t < j {
                        assert(key_of(seen[t].0) == k);
                    }
                }
                if among_keys(seen, k) {
                    let t = choose|t: int|
                        0 <= t < seen.len() && key_of((#[trigger] seen[t]).0) == k;
                    assert(key_of(next[t].0) == k);
                }
                if k == key@ {
                    assert(key_of(next[j as int].0) == k);
                }
            }
        }
        if !HoldsText(&keys, &key) {
            keys.push(key);
            proof {
                lemma_pushed_distinct(before, key);
                assert forall|k: Seq<char>| holds_text(keys@, k) <==> among_keys(next, k) by {
                    lemma_pushed_text(before, key, k);
                }
            }
        }
        j = j + 1;
    }
    assert(objs@.take(n as int) =~= objs@);
    keys
}

impl NodeMgrCacheInner {
    /// Records what a node reports of itself: the node is known from now
    /// on, and its pods are exactly the pods of the report.
    ///
    /// The pods of the other nodes stay as they are.
    pub fn RecordNode(&mut self, nodeObj: &DataObject, podObjs: &Vec<DataObject>)
        requires
            old(self).wf(),
        ensures
            final(self).wf(),
            final(self).probationNodes == old(self).probationNodes,
            recorded(old(self).nodePods@, final(self).nodePods@, *nodeObj, podObjs@),
    {
        let ghost before = self.nodePods@;
        let ghost at = key_of(nodeObj.0);
        let keys = distinct_keys(podObjs);
        let nodeKey = nodeObj.Key();
        match self.FindNode(&nodeKey) {
            Some(i) => {
                self.nodePods[i].pods = keys;
                proof {
                    let after = self.nodePods@;
                    lemma_entry_changed(before, after, i as int);
                    lemma_pods_replaced(before, after, i as int);
                    assert(node_at(before, at, i as int));
                    assert forall|pod: Seq<char>|
                        pod_on(after, at, pod) <==> among_keys(podObjs@, pod) by {
                        lemma_pod_on_entry(after, at, i as int, pod);
                    }
                }
            },
            None => {
                self.nodePods.push(NodePods { node: nodeKey, pods: keys });
                proof {
                    let after = self.nodePods@;
                    let last = before.len() as int;
                    assert(after[last].node@ == at);
                    assert forall|k: int| 0 <= k < last implies #[trigger] after[k]
                        == before[k] by {}
                    assert forall|a: int, b: int| 0 <= a < b < after.len() implies (
                    #[trigger] after[a]).node@ != (#[trigger] after[b]).node@ by {
                        if b < last {
                            assert(before[a].node@ != before[b].node@);
                        } else {
                            assert(!node_at(before, at, a));
                        }
                    }
                    assert forall|k: int| 0 <= k < after.len() implies distinct_texts(
                        (#[trigger] after[k]).pods@,
                    ) by {
                        if k < last {
                            assert(distinct_texts(before[k].pods@));
                        }
                    }
                    assert forall|node: Seq<char>|
                        has_node(after, node) <==> has_node(before, node) || node == at by {
                        if has_node(after, node) {
                            let k = choose|k: int| #[trigger] node_at(after, node, k);
                            if k < last {
                                assert(node_at(before, node, k));
                            }
                        }
                        if has_node(before, node) {
                            let k = choose|k: int| #[trigger] node_at(before, node, k);
                            assert(node_at(after, node, k));
                        }
                        if node == at {
                            assert(node_at(after, node, last));
                        }
                    }
                    assert(node_at(after, at, last));
                    assert forall|pod: Seq<char>|
                        pod_on(after, at, pod) <==> among_keys(podObjs@, pod) by {
                        lemma_pod_on_entry(after, at, last, pod);
                    }
                    assert forall|node: Seq<char>, pod: Seq<char>| node != at implies (pod_on(
                        after,
                        node,
                        pod,
                    ) <==> pod_on(before, node, pod)) by {
                        if pod_on(after, node, pod) {
                            let k = choose|k: int| #[trigger]
                                node_at(after, node, k) && holds_text(after[k].pods@, pod);
                            assert(k < last);
                            assert(node_at(before, node, k));
                        }
                        if pod_on(before, node, pod) {
                            let k = choose|k: int| #[trigger]
                                node_at(before, node, k) && holds_text(before[k].pods@, pod);
                            assert(node_at(after, node, k));
                        }
                    }
                }
            },
        }
    }

    /// Forgets the node `nodeKey` and returns the keys of the pods that were
    /// recorded for it, so that each of them can be deleted from the cache
    /// of pods. For a node that is not known nothing is returned and
    /// nothing changes.
    pub fn DeleteNode(&mut self, nodeKey: &str) -> (pods: Vec<String>)
        requires
            old(self).wf(),
        ensures
            final(self).wf(),
            final(self).probationNodes == old(self).probationNodes,
            distinct_texts(pods@),
            forall|pod: Seq<char>|
                holds_text(pods@, pod) <==> pod_on(old(self).nodePods@, nodeKey@, pod),
            forall|node: Seq<char>|
                has_node(final(self).nodePods@, node) <==> has_node(old(self).nodePods@, node)
                    && node != nodeKey@,
            forall|node: Seq<char>, pod: Seq<char>|
                pod_on(final(self).nodePods@, node, pod) <==> pod_on(
                    old(self).nodePods@,
                    node,
                    pod,
                ) && node != nodeKey@,
    {
        let ghost before = self.nodePods@;
        let key = nodeKey.to_owned();
        match self.FindNode(&key) {
            None => {
                let pods: Vec<String> = Vec::new();
                proof {
                    assert forall|node: Seq<char>, pod: Seq<char>|
                        pod_on(before, node, pod) implies node != nodeKey@ by {
                        let k = choose|k: int| #[trigger]
                            node_at(before, node, k) && holds_text(before[k].pods@, pod);
                        assert(has_node(before, node));
                    }
                }
                pods
            },
            Some(i) => {
                let entry = self.nodePods.remove(i);
                proof {
                    let after = self.nodePods@;
                    let src = |k: int|
                        if k < i {
                            k
                        } else {
                            k + 1
                        };
                    assert forall|k: int| 0 <= k < after.len() implies #[trigger] after[k]
                        == before[src(k)] by {}
                    assert forall|a: int, b: int| 0 <= a < b < after.len() implies (
                    #[trigger] after[a]).node@ != (#[trigger] after[b]).node@ by {
                        assert(before[src(a)].node@ != before[src(b)].node@);
                    }
                    assert forall|k: int| 0 <= k < after.len() implies distinct_texts(
                        (#[trigger] after[k]).pods@,
                    ) by {
                        assert(distinct_texts(before[src(k)].pods@));
                    }
                    assert(distinct_texts(before[i as int].pods@));
                    assert forall|pod: Seq<char>|
                        holds_text(entry.pods@, pod) <==> pod_on(before, nodeKey@, pod) by {
                        lemma_pod_on_entry(before, nodeKey@, i as int, pod);
                    }
                    assert forall|node: Seq<char>, k: int| #[trigger]
                        node_at(before, node, k) && k != i implies node != nodeKey@ by {
                        if k < i {
                            assert(before[k].node@ != before[i as int].node@);
                        } else {
                            assert(before[i as int].node@ != before[k].node@);
                        }
                    }
                    assert forall|node: Seq<char>|
                        has_node(after, node) <==> has_node(before, node) && node != nodeKey@ by {
                        if has_node(after, node) {
                            let k = choose|k: int| #[trigger] node_at(after, node, k);
                            assert(node_at(before, node, src(k)));
                        }
                        if has_node(before, node) && node != nodeKey@ {
                            let k = choose|k: int| #[trigger] node_at(before, node, k);
                            let dst = if k < i {
                                k
                            } else {
                                k - 1
                            };
                            assert(after[dst] == before[src(dst)]);
                            assert(node_at(after, node, dst));
                        }
                    }
                    assert forall|node: Seq<char>, pod: Seq<char>|
                        pod_on(after, node, pod) <==> pod_on(before, node, pod) && node
                            != nodeKey@ by {
                        if pod_on(after, node, pod) {
                            let k = choose|k: int| #[trigger]
                                node_at(after, node, k) && holds_text(after[k].pods@, pod);
                            assert(node_at(before, node, src(k)));
                        }
                        if pod_on(before, node, pod) && node != nodeKey@ {
                            let k = choose|k: int| #[trigger]
                                node_at(before, node, k) && holds_text(before[k].pods@, pod);
                            let dst = if k < i {
                                k
                            } else {
                                k - 1
                            };
                            assert(after[dst] == before[src(dst)]);
                            assert(node_at(after, node, dst));
                        }
                    }
                }
                entry.pods
            },
        }
    }

    /// Ends the probation of the node `nodeKey`, which has connected again.
    /// Returns whether the node was on probation; the other nodes stay on
    /// probation as they were.
    pub fn EndProbation(&mut self, nodeKey: &str) -> (ended: bool)
        ensures
            final(self).nodePods == old(self).nodePods,
            ended == exists|since: u64| on_probation(old(self).probationNodes@, nodeKey@, since),
            forall|node: Seq<char>, since: u64|
                on_probation(final(self).probationNodes@, node, since) <==> on_probation(
                    old(self).probationNodes@,
                    node,
                    since,
                ) && node != nodeKey@,
    {
        let key = nodeKey.to_owned();
        let ghost before = self.probationNodes@;
        let mut kept: Vec<(String, u64)> = Vec::new();
        let mut ended = false;
        let n = self.probationNodes.len();
        let mut i: usize = 0;
        while i < n
            invariant
                n == before.len(),
                self.probationNodes@ == before,
                self.nodePods == old(self).nodePods,
                key@ == nodeKey@,
                i <= n,
                ended == exists|k: int| 0 <= k < i && (#[trigger] before[k]).0@ == nodeKey@,
                forall|node: Seq<char>, since: u64|
                    on_probation(kept@, node, since) <==> on_probation(
                        before.take(i as int),
                        node,
                        since,
                    ) && node != nodeKey@,
            decreases n - i,
        {
            let ghost seen = before.take(i as int);
            let ghost next = before.take(i + 1);
            let ghost had = kept@;
            let hit = self.probationNodes[i].0 == key;
            if hit {
                ended = true;
            } else {
                kept.push((self.probationNodes[i].0.clone(), self.probationNodes[i].1));
            }
            proof {
                let cur = before[i as int];
                assert forall|node: Seq<char>, since: u64|
                    on_probation(kept@, node, since) <==> on_probation(next, node, since) && node
                        != nodeKey@ by {
                    if on_probation(kept@, node, since) {
                        let k = choose|k: int|
                            0 <= k < kept@.len() && (#[trigger] kept@[k]).0@ == node && kept@[k].1
                                == since;
                        if k < had.len() {
                            assert(had[k].0@ == node);
                            assert(on_probation(had, node, since));
                            let t = choose|t: int|
                                0 <= t < seen.len() && (#[trigger] seen[t]).0@ == node && seen[t].1
                                    == since;
                            assert(next[t].0@ == node);
                        } else {
                            assert(next[i as int].0@ == node);
                        }
                    }
                    if on_probation(next, node, since) && node != nodeKey@ {
                        let t = choose|t: int|
                            0 <= t < next.len() && (#[trigger] next[t]).0@ == node && next[t].1
                                == since;
                        if t < i {
                            assert(seen[t].0@ == node);
                            assert(on_probation(seen, node, since));
                            assert(on_probation(had, node, since));
                            let k = choose|k: int|
                                0 <= k < had.len() && (#[trigger] had[k]).0@ == node && had[k].1
                                    == since;
                            assert(kept@[k].0@ == node);
                        } else {
                            assert(!hit);
                            assert(kept@[had.len() as int].0@ == node);
                        }
                    }
                }
                if hit {
                    assert(before[i as int].0@ == nodeKey@);
                }
            }
            i = i + 1;
        }
        proof {
            assert(before.take(n as int) =~= before);
            if ended {
                let k = choose|k: int| 0 <= k < n && (#[trigger] before[k]).0@ == nodeKey@;
                assert(on_probation(before, nodeKey@, before[k].1));
            }
            if exists|since: u64| on_probation(before, nodeKey@, since) {
                let since = choose|since: u64| on_probation(before, nodeKey@, since);
                let k = choose|k: int|
                    0 <= k < before.len() && (#[trigger] before[k]).0@ == nodeKey@ && before[k].1
                        == since;
                assert(before[k].0@ == nodeKey@);
            }
        }
        self.probationNodes = kept;
        ended
    }
}

impl NodeMgrCacheInner {
    /// Takes in what a node reports of itself and of its pods, and returns
    /// the report as data objects for the caches.
    ///
    /// An error says that the node or one of the pods could not be taken
    /// over; the index then stays as it is.
    pub fn RefreshNode(
        &mut self,
        node: &k8s_openapi::api::core::v1::Node,
        pods: &[k8s_openapi::api::core::v1::Pod],
    ) -> (r: Result<NodeReport, StoreError>)
        requires
            old(self).wf(),
        ensures
            final(self).wf(),
            final(self).probationNodes == old(self).probationNodes,
            match r {
                Ok(report) => {
                    &&& recorded(
                        old(self).nodePods@,
                        final(self).nodePods@,
                        report.node,
                        report.pods@,
                    )
                    &&& report.node.0.kind@ == "node"@
                    &&& report.pods@.len() == pods@.len()
                },
                Err(e) => *final(self) == *old(self) && (e == StoreError::ParseIntError || e
                    == StoreError::SerdeJsonError),
            },
    {
        let nodeObj = match NodeToDataObject(node) {
            Err(e) => {
                return Err(e);
            },
            Ok(obj) => obj,
        };
        let podObjs = match PodsToDataObjects(pods) {
            Err(e) => {
                return Err(e);
            },
            Ok(objs) => objs,
        };
        self.RecordNode(&nodeObj, &podObjs);
        Ok(NodeReport { node: nodeObj, pods: podObjs })
    }
}

/// The store of the node manager.
pub struct NodeMgrCache {
    pub inner: NodeMgrCacheInner,
}

impl NodeMgrCache {
    /// The representation invariant of the store.
    pub open spec fn wf(&self) -> bool {
        self.inner.wf()
    }

    /// The store without any node.
    pub fn New() -> (c: Self)
        ensures
            c.wf(),
            c.inner.nodePods@.len() == 0,
            c.inner.probationNodes@.len() == 0,
    {
        NodeMgrCache { inner: NodeMgrCacheInner::New() }
    }

    /// The cache that keeps objects of the type `objType`.
    pub fn GetCacher(&self, objType: &str) -> (r: Option<CacheKind>)
        ensures
            r == (if objType@ == "pod"@ {
                Some(CacheKind::Pod)
            } else if objType@ == "node"@ {
                Some(CacheKind::Node)
            } else {
                None
            }),
    {
        CacheKindOf(objType)
    }

    /// Takes in a node whose agent has connected: the probation of the node
    /// ends, and what it reports of itself and of its pods is recorded. The
    /// report comes back as data objects for the caches.
    ///
    /// An error says that the node or one of the pods could not be taken
    /// over. The index then stays as it is, and no node is put on
    /// probation.
    pub fn RegisterNodeAgentClient(
        &mut self,
        node: &k8s_openapi::api::core::v1::Node,
        pods: &[k8s_openapi::api::core::v1::Pod],
    ) -> (r: Result<NodeReport, StoreError>)
        requires
            old(self).wf(),
        ensures
            final(self).wf(),
            match r {
                Ok(report) => {
                    &&& recorded(
                        old(self).inner.nodePods@,
                        final(self).inner.nodePods@,
                        report.node,
                        report.pods@,
                    )
                    &&& forall|n: Seq<char>, since: u64|
                        on_probation(final(self).inner.probationNodes@, n, since) <==> on_probation(
                            old(self).inner.probationNodes@,
                            n,
                            since,
                        ) && n != key_of(report.node.0)
                },
                Err(e) => {
                    &&& final(self).inner.nodePods == old(self).inner.nodePods
                    &&& forall|n: Seq<char>, since: u64|
                        on_probation(final(self).inner.probationNodes@, n, since) ==> on_probation(
                            old(self).inner.probationNodes@,
                            n,
                            since,
                        )
                    &&& e == StoreError::ParseIntError || e == StoreError::SerdeJsonError
                },
            },
    {
        let nodeObj = match NodeToDataObject(node) {
            Err(e) => {
                return Err(e);
            },
            Ok(obj) => obj,
        };
        let nodeKey = nodeObj.Key();
        self.inner.EndProbation(nodeKey.as_str());
        let podObjs = match PodsToDataObjects(pods) {
            Err(e) => {
                return Err(e);
            },
            Ok(objs) => objs,
        };
        self.inner.RecordNode(&nodeObj, &podObjs);
        Ok(NodeReport { node: nodeObj, pods: podObjs })
    }

    /// Takes a report about a pod of the node `nodeKey` into the index and
    /// returns the event for the cache of pods.
    pub fn ProcessPodEvent(
        &mut self,
        nodeKey: &str,
        eventType: PodEventType,
        podObj: DataObject,
    ) -> (e: WatchEvent)
        requires
            old(self).wf(),
            pod_event_sound(old(self).inner.nodePods@, nodeKey@, eventType, key_of(podObj.0)),
        ensures
            final(self).wf(),
            e.obj == podObj,
            e.type_ == cache_event(eventType),
            final(self).inner.probationNodes == old(self).inner.probationNodes,
            forall|node: Seq<char>|
                has_node(final(self).inner.nodePods@, node) <==> has_node(
                    old(self).inner.nodePods@,
                    node,
                ),
            forall|node: Seq<char>, pod: Seq<char>|
                pod_on(final(self).inner.nodePods@, node, pod) <==> pod_on_after(
                    old(self).inner.nodePods@,
                    nodeKey@,
                    eventType,
                    key_of(podObj.0),
                    node,
                    pod,
                ),
    {
        self.inner.ProcessPodEvent(nodeKey, eventType, podObj)
    }

    /// Reads the new state of a node from JSON text and returns the event
    /// for the cache of nodes, which knows the node: the node is modified.
    pub fn ProcessNodeUpdate(&self, node: &str) -> (r: Result<WatchEvent, StoreError>)
        ensures
            match r {
                Ok(e) => e.type_ == EventType::Modified && e.obj.0.kind@ == "node"@,
                Err(e) => e == StoreError::ParseIntError || e == StoreError::SerdeJsonError,
            },
    {
        match NodeFromJson(node) {
            Err(e) => Err(e),
            Ok(obj) => Ok(NodeEvent(true, obj)),
        }
    }

    /// Forgets the node `nodeKey` and returns the keys of its pods, each of
    /// which is to be deleted from the cache of pods.
    pub fn DeleteNode(&mut self, nodeKey: &str) -> (pods: Vec<String>)
        requires
            old(self).wf(),
        ensures
            final(self).wf(),
            final(self).inner.probationNodes == old(self).inner.probationNodes,
            distinct_texts(pods@),
            forall|pod: Seq<char>|
                holds_text(pods@, pod) <==> pod_on(old(self).inner.nodePods@, nodeKey@, pod),
            forall|node: Seq<char>|
                has_node(final(self).inner.nodePods@, node) <==> has_node(
                    old(self).inner.nodePods@,
                    node,
                ) && node != nodeKey@,
            forall|node: Seq<char>, pod: Seq<char>|
                pod_on(final(self).inner.nodePods@, node, pod) <==> pod_on(
                    old(self).inner.nodePods@,
                    node,
                    pod,
                ) && node != nodeKey@,
    {
        self.inner.DeleteNode(nodeKey)
    }
}

/// The position of the text `t` in `texts`, which holds it.
fn find_text(texts: &Vec<String>, t: &String) -> (j: usize)
    requires
        holds_text(texts@, t@),
    ensures
        j < texts@.len(),
        texts@[j as int]@ == t@,
{
    let n = texts.len();
    let mut j: usize = 0;
    while j < n
        invariant
            n == texts@.len(),
            j <= n,
            holds_text(texts@, t@),
            forall|k: int| 0 <= k < j ==> (#[trigger] texts@[k])@ != t@,
        decreases n - j,
    {
        if texts[j] == *t {
            return j;
        }
        j = j + 1;
    }
    proof {
        let k = choose|k: int| 0 <= k < texts@.len() && (#[trigger] texts@[k])@ == t@;
        assert(false);
    }
    0
}

/// Whether `after` differs from `before` at most in the pods of the entry
/// `i`.
spec fn same_but_pods(before: Seq<NodePods>, after: Seq<NodePods>, i: int) -> bool {
    &&& after.len() == before.len()
    &&& 0 <= i < before.len()
    &&& after[i].node == before[i].node
    &&& forall|k: int| 0 <= k < before.len() && k != i ==> #[trigger] after[k] == before[k]
}

proof fn lemma_entry_changed(before: Seq<NodePods>, after: Seq<NodePods>, i: int)
    requires
        same_but_pods(before, after, i),
    ensures
        forall|node: Seq<char>, k: int| #[trigger]
            node_at(after, node, k) <==> node_at(before, node, k),
        forall|node: Seq<char>| has_node(after, node) <==> has_node(before, node),
{
    assert forall|node: Seq<char>, k: int| #[trigger]
        node_at(after, node, k) <==> node_at(before, node, k) by {
        if 0 <= k < before.len() && k != i {
            assert(after[k] == before[k]);
        }
    }
    assert forall|node: Seq<char>| has_node(after, node) <==> has_node(before, node) by {
        if has_node(after, node) {
            let k = choose|k: int| #[trigger] node_at(after, node, k);
            assert(node_at(before, node, k));
        }
        if has_node(before, node) {
            let k = choose|k: int| #[trigger] node_at(before, node, k);
            assert(node_at(after, node, k));
        }
    }
}

/// In a well-formed index the pods of a node are those of its one entry.
proof fn lemma_pod_on_entry(entries: Seq<NodePods>, node: Seq<char>, i: int, pod: Seq<char>)
    requires
        index_wf(entries),
        node_at(entries, node, i),
    ensures
        pod_on(entries, node, pod) <==> holds_text(entries[i].pods@, pod),
{
    if pod_on(entries, node, pod) {
        let k = choose|k: int| #[trigger]
            node_at(entries, node, k) && holds_text(entries[k].pods@, pod);
        assert(k == i);
    }
}

/// A change of the pods of one entry leaves the pods of the other nodes as
/// they were and keeps the index well formed, if the new pods are distinct.
proof fn lemma_pods_replaced(before: Seq<NodePods>, after: Seq<NodePods>, i: int)
    requires
        index_wf(before),
        same_but_pods(before, after, i),
        distinct_texts(after[i].pods@),
    ensures
        index_wf(after),
        forall|node: Seq<char>, pod: Seq<char>|
            node != before[i].node@ ==> (pod_on(after, node, pod) <==> pod_on(before, node, pod)),
{
    lemma_entry_changed(before, after, i);
    assert forall|a: int, b: int| 0 <= a < b < after.len() implies (#[trigger] after[a]).node@ != (
    #[trigger] after[b]).node@ by {
        assert(before[a].node@ != before[b].node@);
        if a != i {
            assert(after[a] == before[a]);
        }
        if b != i {
            assert(after[b] == before[b]);
        }
    }
    assert forall|k: int| 0 <= k < after.len() implies distinct_texts(
        (#[trigger] after[k]).pods@,
    ) by {
        if k != i {
            assert(after[k] == before[k]);
            assert(distinct_texts(before[k].pods@));
        }
    }
    assert forall|node: Seq<char>, pod: Seq<char>| node != before[i].node@ implies (pod_on(
        after,
        node,
        pod,
    ) <==> pod_on(before, node, pod)) by {
        if pod_on(after, node, pod) {
            let k = choose|k: int| #[trigger]
                node_at(after, node, k) && holds_text(after[k].pods@, pod);
            assert(k != i);
            assert(after[k] == before[k]);
            assert(node_at(before, node, k));
        }
        if pod_on(before, node, pod) {
            let k = choose|k: int| #[trigger]
                node_at(before, node, k) && holds_text(before[k].pods@, pod);
            assert(k != i);
            assert(after[k] == before[k]);
            assert(node_at(after, node, k));
        }
    }
}

proof fn lemma_pushed_text(texts: Seq<String>, t: String, pod: Seq<char>)
    ensures
        holds_text(texts.push(t), pod) <==> holds_text(texts, pod) || pod == t@,
{
    let after = texts.push(t);
    if holds_text(after, pod) {
        let j = choose|j: int| 0 <= j < after.len() && (#[trigger] after[j])@ == pod;
        if j < texts.len() {
            assert(texts[j]@ == pod);
        }
    }
    if holds_text(texts, pod) {
        let j = choose|j: int| 0 <= j < texts.len() && (#[trigger] texts[j])@ == pod;
        assert(after[j]@ == pod);
    }
    if pod == t@ {
        assert(after[texts.len() as int]@ == pod);
    }
}

proof fn lemma_pushed_distinct(texts: Seq<String>, t: String)
    requires
        distinct_texts(texts),
        !holds_text(texts, t@),
    ensures
        distinct_texts(texts.push(t)),
{
    let after = texts.push(t);
    assert forall|a: int, b: int| 0 <= a < b < after.len() implies (#[trigger] after[a])@ != (
    #[trigger] after[b])@ by {
        if b < texts.len() {
            assert(texts[a]@ != texts[b]@);
        } else {
            assert(texts[a]@ != t@);
        }
    }
}

proof fn lemma_removed_text(texts: Seq<String>, j: int, pod: Seq<char>)
    requires
        distinct_texts(texts),
        0 <= j < texts.len(),
    ensures
        holds_text(texts.remove(j), pod) <==> holds_text(texts, pod) && pod != texts[j]@,
{
    let after = texts.remove(j);
    if holds_text(after, pod) {
        let k = choose|k: int| 0 <= k < after.len() && (#[trigger] after[k])@ == pod;
        let src = if k < j {
            k
        } else {
            k + 1
        };
        assert(texts[src]@ == pod);
        if src < j {
            assert(texts[src]@ != texts[j]@);
        } else {
            assert(texts[j]@ != texts[src]@);
        }
    }
    if holds_text(texts, pod) && pod != texts[j]@ {
        let k = choose|k: int| 0 <= k < texts.len() && (#[trigger] texts[k])@ == pod;
        let dst = if k < j {
            k
        } else {
            k - 1
        };
        assert(after[dst]@ == pod);
    }
}

proof fn lemma_removed_distinct(texts: Seq<String>, j: int)
    requires
        distinct_texts(texts),
        0 <= j < texts.len(),
    ensures
        distinct_texts(texts.remove(j)),
{
    let after = texts.remove(j);
    assert forall|a: int, b: int| 0 <= a < b < after.len() implies (#[trigger] after[a])@ != (
    #[trigger] after[b])@ by {
        let sa = if a < j {
            a
        } else {
            a + 1
        };
        let sb = if b < j {
            b
        } else {
            b + 1
        };
        assert(texts[sa]@ != texts[sb]@);
    }
}

} // verus!
