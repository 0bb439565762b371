//! Kubeconfig synchronisation against a Rancher-style cluster directory, plus the small
//! pure helpers of the developer command-line tool around it.

pub mod busybox;
pub mod common_docker;
pub mod config;
pub mod doctor;
pub mod dotnet;
pub mod kube_config;
pub mod kubernetes;
pub mod mongo_db;
pub mod rancher;
pub mod search;
pub mod sql;
pub mod text;
