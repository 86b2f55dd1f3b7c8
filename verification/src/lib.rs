//! Control plane for reinforcement-learning training jobs: job specifications,
//! GPU placement, the job lifecycle, job stores with snapshots, and the request
//! handlers of the control-plane API.
pub mod api;
pub mod clock;
pub mod file_store;
pub mod ids;
pub mod laws;
pub mod lifecycle;
pub mod scheduler;
pub mod orchestrator;
pub mod registry;
pub mod run;
pub mod server;
pub mod state_store;
pub mod text;
pub mod worker_client;
