//! Compilation orchestration pipeline for parameterized smart-contract
//! templates: template rendering, compiler invocation, artifact extraction,
//! error classification, and durable artifact storage planning.

pub mod artifact_manager;
pub mod artifact_storage;
pub mod calendar;
pub mod deploy_engine;
pub mod kyc;
pub mod pipeline;
pub mod sol_template_engine;
pub mod chars;
pub mod jsonrec;
