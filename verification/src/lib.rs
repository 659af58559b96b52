#![allow(non_snake_case)]
#![allow(non_camel_case_types)]
#![allow(non_upper_case_globals)]

pub mod fileinfo;
pub mod grpc_route;
pub mod heap_alloc;
pub mod k8s_types;
pub mod loader;
pub mod mapping;
pub mod mem;
pub mod memory_def;
pub mod nm_cache;
pub mod nm_store;
pub mod pod_state;
pub mod rdma_dispatch;
pub mod rdma_share;
pub mod rdma_svc_cli;
pub mod ring;
