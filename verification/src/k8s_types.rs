//! The types through which the node agent talks to the container runtime.

use std::collections::BTreeMap;
use vstd::prelude::*;

verus! {

/// An image and its annotations.
pub struct ImageSpec {
    /// ID of the image.
    pub image: String,
    /// The annotations for the image.
    pub annotations: Vec<Annotation>,
}

/// Basic information about a container image.
pub struct Image {
    /// ID of the image.
    pub id: String,
    /// Other names by which this image is known.
    pub repoTags: Vec<String>,
    /// Digests by which this image is known.
    pub repoDigests: Vec<String>,
    /// The size of the image in bytes.
    pub size: i64,
    /// The spec of the image, which includes its annotations.
    pub spec: ImageSpec,
    /// Whether the image is kept from garbage collection.
    pub pinned: bool,
}

/// An environment variable.
pub struct EnvVar {
    pub name: String,
    pub value: String,
}

/// An annotation.
pub struct Annotation {
    pub name: String,
    pub value: String,
}

/// How mounts propagate between the host and a container.
#[derive(Debug, PartialEq, Eq, Clone, Copy)]
pub enum MountPropagation {
    PropagationPrivate,
    PropagationHostToContainer,
    PropagationBidirectional,
}

/// A volume mount.
pub struct Mount {
    /// Name of the volume.
    pub name: String,
    /// Path of the mount within the container.
    pub containerPath: String,
    /// Path of the mount on the host.
    pub hostPath: String,
    pub readOnly: bool,
    /// Whether the mount needs SELinux relabeling.
    pub SELinuxRelabel: bool,
    pub Propagation: MountPropagation,
}

/// The network protocols of container ports.
#[derive(Debug, PartialEq, Eq, Clone, Copy)]
pub enum ProtocolType {
    TCP,
    UDP,
    SCTP,
}

/// A mapping of a container port to a host port.
pub struct PortMapping {
    pub Protocol: ProtocolType,
    /// The port number within the container.
    pub containerPort: i32,
    /// The port number on the host.
    pub hostPort: i32,
    pub hostIP: String,
}

/// A device of the host that is mapped into a container.
pub struct DeviceInfo {
    /// Path on the host.
    pub pathOnHost: String,
    /// Path in the container.
    pub pathInContainer: String,
    /// Cgroup permissions.
    pub permissions: String,
}

/// The options that are needed to run a container.
pub struct RunContainerOptions {
    pub envs: Vec<EnvVar>,
    pub mounts: Vec<Mount>,
    pub devices: Vec<DeviceInfo>,
    /// Annotations that other components made, not the user.
    pub annotations: Vec<Annotation>,
    /// The directory in which the container's termination log is created.
    pub podContainerDir: String,
    /// Whether the root file system is read-only.
    pub readOnly: bool,
    pub hostname: String,
    /// Whether the container joins the host's user namespace.
    pub enableHostUserNamespace: bool,
}

/// What is known of a volume.
pub struct VolumeInfo {
    /// Whether the pod's SELinux label was applied to the volume.
    pub SELinuxLabeled: bool,
    pub readOnly: bool,
    /// The name of the persistent volume if there is one, else the name of
    /// the volume spec.
    pub innerVolumeSpecName: String,
}

/// The volumes of a pod, by their names.
pub type VolumeMap = BTreeMap<String, VolumeInfo>;

/// The conditions that a runtime has to meet.
#[derive(Debug, PartialEq, Eq, Clone, Copy, Structural)]
pub enum RuntimeConditionType {
    /// The runtime is up and takes basic containers.
    RuntimeReady,
    /// The runtime's network is up and takes containers that need it.
    NetworkReady,
}

/// What is known of one condition of the runtime.
#[derive(Debug, Clone)]
pub struct RuntimeCondition {
    pub type_: RuntimeConditionType,
    pub status: bool,
    /// Brief reason for the condition's last transition.
    pub reason: String,
    /// Details about the last transition, for a human reader.
    pub massage: String,
}

impl RuntimeCondition {
    /// A copy of the condition.
    pub fn Copy(&self) -> (c: Self)
        ensures
            c == *self,
    {
        Self {
            type_: self.type_,
            status: self.status,
            reason: self.reason.clone(),
            massage: self.massage.clone(),
        }
    }
}

/// Whether `i` is the first condition of type `t` in `conditions`.
pub open spec fn is_first_of_type(
    conditions: Seq<RuntimeCondition>,
    t: RuntimeConditionType,
    i: int,
) -> bool {
    &&& 0 <= i < conditions.len()
    &&& conditions[i].type_ == t
    &&& forall|k: int| 0 <= k < i ==> (#[trigger] conditions[k]).type_ != t
}

/// The status of the runtime.
pub struct RuntimeStatus {
    /// The conditions that were observed.
    pub conditions: Vec<RuntimeCondition>,
}

impl RuntimeStatus {
    /// The first condition of type `t`, or `None` when there is none of
    /// that type.
    pub fn GetRuntimeCondition(&self, t: RuntimeConditionType) -> (r: Option<RuntimeCondition>)
        ensures
            match r {
                Some(c) => exists|i: int|
                    is_first_of_type(self.conditions@, t, i) && c == self.conditions@[i],
                None => forall|i: int|
                    0 <= i < self.conditions@.len() ==> (#[trigger] self.conditions@[i]).type_
                        != t,
            },
    {
        let n = self.conditions.len();
        let mut i: usize = 0;
        while i < n
            invariant
                n == self.conditions@.len(),
                i <= n,
                forall|k: int| 0 <= k < i ==> (#[trigger] self.conditions@[k]).type_ != t,
            decreases n - i,
        {
            if self.conditions[i].type_ == t {
                assert(is_first_of_type(self.conditions@, t, i as int));
                return Some(self.conditions[i].Copy());
            }
            i = i + 1;
        }
        None
    }
}

} // verus!
