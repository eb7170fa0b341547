//! Core of a parallel parametric build-and-run orchestrator.
//!
//! The library decides; the application acts. It holds the configuration
//! and the input queue, plans the provisioning and the run, drives each
//! worker as a state machine, aggregates what the workers gathered, and
//! plans checkpoints and resumption. Spawning threads and processes and
//! touching the filesystem is left to the application.

pub mod checkpoint;
pub mod command;
pub mod cuda_utils;
pub mod error;
pub mod filesystem_utils;
pub mod gather;
pub mod json;
pub mod laws;
pub mod parabuilder;
pub mod paths;
pub mod run_func;
pub mod run_method;
pub mod template;
pub mod text;
pub mod worker;

pub use cuda_utils::{get_cuda_device_uuid, get_cuda_mig_device_uuids};
pub use error::{Error, ErrorKind};
pub use json::{Json, Number};
pub use parabuilder::Parabuilder;
pub use run_func::{
    RunFunc, RunOutput, IGNORE_ON_ERROR_DEFAULT_RUN_FUNC, PANIC_ON_ERROR_DEFAULT_RUN_FUNC,
};
pub use run_method::{CompliationErrorHandlingMethod, RunMethod};
pub use worker::{Worker, WorkerAction, WorkerOutput};
