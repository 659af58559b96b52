//! The methods of the gRPC services and the paths under which they are
//! called. A server finds the method of a request by its path; a request
//! for a path that names no method is answered with the status
//! "unimplemented".

use vstd::prelude::*;

verus! {

/// The gRPC status "unimplemented".
pub const GRPC_STATUS_UNIMPLEMENTED: u32 = 12;

/// The methods of the service of a function agent.
#[derive(Clone, Copy, Debug, PartialEq, Eq)]
pub enum FuncAgentMethod {
    StreamProcess,
}

/// The methods of the function service.
#[derive(Clone, Copy, Debug, PartialEq, Eq)]
pub enum FuncSvcMethod {
    StreamProcess,
}

/// The methods of the service of a node agent.
#[derive(Clone, Copy, Debug, PartialEq, Eq)]
pub enum NodeAgentMethod {
    GetMessage,
    PutMessage,
    StreamMsg,
}

/// The path under which a method of a function agent is called.
pub open spec fn func_agent_path(m: FuncAgentMethod) -> Seq<char> {
    match m {
        FuncAgentMethod::StreamProcess => "/func.FuncAgentService/StreamProcess"@,
    }
}

/// The path under which a method of the function service is called.
pub open spec fn func_svc_path(m: FuncSvcMethod) -> Seq<char> {
    match m {
        FuncSvcMethod::StreamProcess => "/func.FuncSvcService/StreamProcess"@,
    }
}

/// The path under which a method of a node agent is called.
pub open spec fn node_agent_path(m: NodeAgentMethod) -> Seq<char> {
    match m {
        NodeAgentMethod::GetMessage => "/node_mgr_pb.NodeAgentService/getMessage"@,
        NodeAgentMethod::PutMessage => "/node_mgr_pb.NodeAgentService/putMessage"@,
        NodeAgentMethod::StreamMsg => "/node_mgr_pb.NodeAgentService/StreamMsg"@,
    }
}

/// The path under which a method of a function agent is called.
pub fn FuncAgentPath(m: FuncAgentMethod) -> (path: &'static str)
    ensures
        path@ == func_agent_path(m),
{
    match m {
        FuncAgentMethod::StreamProcess => "/func.FuncAgentService/StreamProcess",
    }
}

/// The path under which a method of the function service is called.
pub fn FuncSvcPath(m: FuncSvcMethod) -> (path: &'static str)
    ensures
        path@ == func_svc_path(m),
{
    match m {
        FuncSvcMethod::StreamProcess => "/func.FuncSvcService/StreamProcess",
    }
}

/// The path under which a method of a node agent is called.
pub fn NodeAgentPath(m: NodeAgentMethod) -> (path: &'static str)
    ensures
        path@ == node_agent_path(m),
{
    match m {
        NodeAgentMethod::GetMessage => "/node_mgr_pb.NodeAgentService/getMessage",
        NodeAgentMethod::PutMessage => "/node_mgr_pb.NodeAgentService/putMessage",
        NodeAgentMethod::StreamMsg => "/node_mgr_pb.NodeAgentService/StreamMsg",
    }
}

/// The method of a function agent that is called under `path`, or `None`
/// when the path names none.
pub fn FuncAgentMethodOf(path: &str) -> (r: Option<FuncAgentMethod>)
    ensures
        match r {
            Some(m) => path@ == func_agent_path(m),
            None => forall|m: FuncAgentMethod| path@ != func_agent_path(m),
        },
{
    if path.to_owned() == "/func.FuncAgentService/StreamProcess".to_owned() {
        Some(FuncAgentMethod::StreamProcess)
    } else {
        None
    }
}

/// The method of the function service that is called under `path`, or
/// `None` when the path names none.
pub fn FuncSvcMethodOf(path: &str) -> (r: Option<FuncSvcMethod>)
    ensures
        match r {
            Some(m) => path@ == func_svc_path(m),
            None => forall|m: FuncSvcMethod| path@ != func_svc_path(m),
        },
{
    if path.to_owned() == "/func.FuncSvcService/StreamProcess".to_owned() {
        Some(FuncSvcMethod::StreamProcess)
    } else {
        None
    }
}

/// The method of a node agent that is called under `path`, or `None` when
/// the path names none.
pub fn NodeAgentMethodOf(path: &str) -> (r: Option<NodeAgentMethod>)
    ensures
        match r {
            Some(m) => path@ == node_agent_path(m),
            None => forall|m: NodeAgentMethod| path@ != node_agent_path(m),
        },
{
    let name = path.to_owned();
    if name == "/node_mgr_pb.NodeAgentService/getMessage".to_owned() {
        Some(NodeAgentMethod::GetMessage)
    } else if name == "/node_mgr_pb.NodeAgentService/putMessage".to_owned() {
        Some(NodeAgentMethod::PutMessage)
    } else if name == "/node_mgr_pb.NodeAgentService/StreamMsg".to_owned() {
        Some(NodeAgentMethod::StreamMsg)
    } else {
        None
    }
}

/// The paths of a node agent's methods differ from each other, so a path
/// names at most one method, and the method that is found for the path of a
/// method is that method.
pub proof fn law_node_agent_paths_differ(a: NodeAgentMethod, b: NodeAgentMethod)
    ensures
        node_agent_path(a) == node_agent_path(b) ==> a == b,
{
    reveal_strlit("/node_mgr_pb.NodeAgentService/getMessage");
    reveal_strlit("/node_mgr_pb.NodeAgentService/putMessage");
    reveal_strlit("/node_mgr_pb.NodeAgentService/StreamMsg");
    let g = "/node_mgr_pb.NodeAgentService/getMessage"@;
    let p = "/node_mgr_pb.NodeAgentService/putMessage"@;
    let s = "/node_mgr_pb.NodeAgentService/StreamMsg"@;
    assert(g[30] == 'g' && p[30] == 'p' && s[30] == 'S');
}

} // verus!
