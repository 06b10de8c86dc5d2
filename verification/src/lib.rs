//! Planning and coordination core of a distributed RTL simulation runtime.

pub mod accept_laws;
pub mod autotune;
pub mod autotune_run;
pub mod bundle;
pub mod checkpoint_run;
pub mod cli_laws;
pub mod collect;
pub mod communication;
pub mod conservation;
pub mod cost;
pub mod counter_laws;
pub mod deployment;
pub mod documents;
pub mod error;
pub mod finding_laws;
pub mod hierarchy;
pub mod ids;
pub mod launch;
pub mod launch_laws;
pub mod legal_laws;
pub mod legality;
pub mod limbs;
pub mod load_laws;
pub mod loopback;
pub mod model;
pub mod operations;
pub mod order;
pub mod order_laws;
pub mod partitions;
pub mod pipeline;
pub mod placement;
pub mod placement_laws;
pub mod plan_laws;
pub mod port_laws;
pub mod recovery;
pub mod region_laws;
pub mod regions;
pub mod remote_session;
pub mod responses;
pub mod run_laws;
pub mod runtime;
pub mod runtime_actions;
pub mod runtime_lanes;
pub mod runtime_laws;
pub mod runtime_storage;
pub mod script_run;
pub mod seqs;
pub mod service;
pub mod service_laws;
pub mod session;
pub mod session_actions;
pub mod session_laws;
pub mod session_routes;
pub mod session_script;
pub mod shard_client;
pub mod slices;
pub mod step_laws;
pub mod supervisor;
pub mod supervisor_laws;
pub mod surrogate;
pub mod surrogate_laws;
pub mod surrogate_report;
pub mod sv_gpu;
pub mod text;
pub mod topology;
pub mod traffic_laws;
pub mod transport;
pub mod value_laws;
pub mod versions;
pub mod words;
pub mod worker_cli;
pub mod worker_laws;
pub mod worker_process;
