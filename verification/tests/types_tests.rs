use quark::grpc_route::FuncAgentMethod;
use quark::grpc_route::FuncAgentMethodOf;
use quark::grpc_route::FuncAgentPath;
use quark::grpc_route::FuncSvcMethod;
use quark::grpc_route::FuncSvcMethodOf;
use quark::grpc_route::FuncSvcPath;
use quark::grpc_route::NodeAgentMethod;
use quark::grpc_route::NodeAgentMethodOf;
use quark::grpc_route::NodeAgentPath;
use quark::grpc_route::GRPC_STATUS_UNIMPLEMENTED;
use quark::k8s_types::RuntimeCondition;
use quark::k8s_types::RuntimeConditionType;
use quark::k8s_types::RuntimeStatus;
use quark::loader::Process;
use quark::pod_state::State;

fn cond(t: RuntimeConditionType, status: bool, reason: &str) -> RuntimeCondition {
    RuntimeCondition {
        type_: t,
        status,
        reason: reason.to_string(),
        massage: format!("{} message", reason),
    }
}

#[test]
fn copy_keeps_every_field() {
    let c = cond(RuntimeConditionType::NetworkReady, true, "up");
    let d = c.Copy();
    assert_eq!(d.type_, RuntimeConditionType::NetworkReady);
    assert!(d.status);
    assert_eq!(d.reason, "up");
    assert_eq!(d.massage, "up message");
    assert_eq!(c.reason, "up");
}

#[test]
fn get_runtime_condition_returns_the_first_of_its_type() {
    let s = RuntimeStatus {
        conditions: vec![
            cond(RuntimeConditionType::NetworkReady, false, "n1"),
            cond(RuntimeConditionType::RuntimeReady, true, "r1"),
            cond(RuntimeConditionType::RuntimeReady, false, "r2"),
            cond(RuntimeConditionType::NetworkReady, true, "n2"),
        ],
    };
    let r = s.GetRuntimeCondition(RuntimeConditionType::RuntimeReady).unwrap();
    assert_eq!((r.reason.as_str(), r.status), ("r1", true));
    let n = s.GetRuntimeCondition(RuntimeConditionType::NetworkReady).unwrap();
    assert_eq!((n.reason.as_str(), n.status), ("n1", false));
    let only = RuntimeStatus { conditions: vec![cond(RuntimeConditionType::NetworkReady, true, "n")] };
    assert!(only.GetRuntimeCondition(RuntimeConditionType::RuntimeReady).is_none());
    let none = RuntimeStatus { conditions: Vec::new() };
    assert!(none.GetRuntimeCondition(RuntimeConditionType::NetworkReady).is_none());
}

#[test]
fn state_names_round_trip() {
    let all = [
        (State::Creating, "Creating", 0),
        (State::Standby, "Standby", 10),
        (State::Activating, "Activating", 20),
        (State::Running, "Running", 30),
        (State::Evacuating, "Evacuating", 40),
        (State::Terminating, "Terminating", 50),
        (State::Terminated, "Terminated", 60),
    ];
    for (s, name, number) in all {
        assert_eq!(s.as_str_name(), name);
        assert_eq!(State::from_str_name(name), Some(s));
        assert_eq!(s.Number(), number);
        assert_eq!(State::FromNumber(number), Some(s));
    }
    assert_eq!(State::from_str_name("creating"), None);
    assert_eq!(State::from_str_name(""), None);
    assert_eq!(State::from_str_name("Terminated "), None);
    assert_eq!(State::FromNumber(5), None);
    assert_eq!(State::FromNumber(-10), None);
    assert_eq!(State::FromNumber(70), None);
}

#[test]
fn pod_states_only_move_forward() {
    let order = [
        State::Creating,
        State::Standby,
        State::Activating,
        State::Running,
        State::Evacuating,
        State::Terminating,
        State::Terminated,
    ];
    for (i, a) in order.iter().enumerate() {
        for (j, b) in order.iter().enumerate() {
            assert_eq!(a.MayFollow(b), i <= j);
        }
    }
}

#[test]
fn default_process_is_empty() {
    let p = Process::default();
    assert_eq!(p.UID, 0);
    assert!(p.Args.is_empty());
    assert_eq!(p.Stdiofds, [0, 0, 0]);
    assert_eq!(p.ExecId, None);
    assert!(p.limitSet.data.is_empty());
    assert_eq!(p, p.clone());
}

#[test]
fn grpc_paths_lead_to_their_methods() {
    let all = [
        (NodeAgentMethod::GetMessage, "/node_mgr_pb.NodeAgentService/getMessage"),
        (NodeAgentMethod::PutMessage, "/node_mgr_pb.NodeAgentService/putMessage"),
        (NodeAgentMethod::StreamMsg, "/node_mgr_pb.NodeAgentService/StreamMsg"),
    ];
    for (m, path) in all {
        assert_eq!(NodeAgentPath(m), path);
        assert_eq!(NodeAgentMethodOf(path), Some(m));
    }
    assert_eq!(NodeAgentMethodOf("/node_mgr_pb.NodeAgentService/GetMessage"), None);
    assert_eq!(NodeAgentMethodOf("/node_mgr_pb.NodeAgentService/"), None);
    assert_eq!(NodeAgentMethodOf(""), None);
    assert_eq!(FuncAgentPath(FuncAgentMethod::StreamProcess), "/func.FuncAgentService/StreamProcess");
    assert_eq!(FuncSvcPath(FuncSvcMethod::StreamProcess), "/func.FuncSvcService/StreamProcess");
    assert_eq!(
        FuncAgentMethodOf("/func.FuncAgentService/StreamProcess"),
        Some(FuncAgentMethod::StreamProcess)
    );
    assert_eq!(FuncAgentMethodOf("/func.FuncSvcService/StreamProcess"), None);
    assert_eq!(
        FuncSvcMethodOf("/func.FuncSvcService/StreamProcess"),
        Some(FuncSvcMethod::StreamProcess)
    );
    assert_eq!(FuncSvcMethodOf("/func.FuncAgentService/StreamProcess"), None);
    assert_eq!(GRPC_STATUS_UNIMPLEMENTED, 12);
}
