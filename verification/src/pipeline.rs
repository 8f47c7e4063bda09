//! The pipeline coordinator: each request walks the stages
//! `Received -> Rendered -> Compiled -> Stored -> Deployed`, every stage
//! attempted exactly once. A render or compile failure is fatal to the
//! request; a storage failure is downgraded to a non-fatal warning, since
//! the compiled artifact is already of value to the caller; a deployment
//! failure is fatal. The host performs each stage's outside work and hands
//! the outcome back as an event; this module decides the next state and
//! shapes the outbound response, with fields of unreached stages left
//! empty.

use vstd::prelude::*;
use vstd::string::StrSliceExecFns;
use vstd::string::StringExecFns;
use crate::chars::str_eq;
use crate::deploy_engine::CompilationOutput;
use crate::deploy_engine::DeployError;
use crate::sol_template_engine::TemplateError;

verus! {

/// The stage at which a failed request stopped. The store stage does not
/// appear: its failures are downgraded to warnings and never end a
/// request.
pub enum Stage {
    Render,
    Compile,
    Deploy,
}

/// The per-request state machine of the coordinator.
pub enum PipelineState {
    /// The request has arrived; nothing has been attempted.
    Received,
    /// The template rendered into contract source text.
    Rendered { source: String },
    /// The source compiled into an artifact at the given timestamp.
    Compiled { artifact: CompilationOutput, compiled_at: u64 },
    /// The store stage finished: either the artifact's path, or the
    /// warning kept from a failed store. Never a failure state.
    Stored {
        artifact: CompilationOutput,
        compiled_at: u64,
        artifact_path: Option<String>,
        store_warning: Option<String>,
    },
    /// The deployment collaborator answered with an address.
    Deployed {
        artifact: CompilationOutput,
        compiled_at: u64,
        artifact_path: Option<String>,
        store_warning: Option<String>,
        address: String,
    },
    /// A fatal stage failure; terminal. Carries the derived logical
    /// contract name when the failing stage already knew it: absent for a
    /// render failure, present for a compile or deploy failure.
    Failed { stage: Stage, message: String, contract_name: Option<String> },
}

/// One stage outcome, handed back by the host.
pub enum PipelineEvent {
    RenderDone(Result<String, TemplateError>),
    /// The compile outcome, the timestamp assigned to this compilation,
    /// and the logical name the coordinator derived before compiling (so a
    /// failure can still report which contract it was about).
    CompileDone {
        outcome: Result<CompilationOutput, DeployError>,
        compiled_at: u64,
        logical_name: String,
    },
    /// The stored record's path, or the diagnostic of the failed store.
    StoreDone(Result<String, String>),
    DeployDone(Result<String, DeployError>),
}

/// The outcome handed to the transport collaborator.
pub struct PipelineResponse {
    pub success: bool,
    pub message: String,
    pub contract_name: Option<String>,
    pub contract_address: Option<String>,
    pub abi: Option<String>,
    pub bytecode: Option<String>,
    pub compilation_timestamp: Option<u64>,
    pub artifact_path: Option<String>,
    pub store_warning: Option<String>,
}

/// The logical contract name: the template identifier with the fixed
/// `.sol.tera` template suffix stripped, when present.
pub open spec fn logical_name_spec(t: Seq<char>) -> Seq<char> {
    if t.len() >= 9 && t.subrange(t.len() - 9, t.len() as int) == ".sol.tera"@ {
        t.subrange(0, t.len() - 9)
    } else {
        t
    }
}

pub fn logical_contract_name(template_id: &str) -> (r: String)
    ensures
        r@ == logical_name_spec(template_id@),
{
    let n: usize = template_id.unicode_len();
    if n >= 9 {
        let tail = template_id.substring_char(n - 9, n);
        if str_eq(tail, ".sol.tera") {
            let head = template_id.substring_char(0, n - 9);
            return String::from_str(head);
        }
    }
    String::from_str(template_id)
}

/// The diagnostic text of a render-stage error.
pub open spec fn template_error_text(e: TemplateError) -> Seq<char> {
    match e {
        TemplateError::InitError(m) => "failed to initialize template engine: "@ + m@,
        TemplateError::TemplateNotFound(n) => "template not found: "@ + n@,
        TemplateError::RenderError(m) => "template rendering failed: "@ + m@,
    }
}

pub fn describe_template_error(e: &TemplateError) -> (r: String)
    ensures
        r@ == template_error_text(*e),
{
    match e {
        TemplateError::InitError(m) => {
            let mut s = String::from_str("failed to initialize template engine: ");
            s.append(m.as_str());
            s
        },
        TemplateError::TemplateNotFound(n) => {
            let mut s = String::from_str("template not found: ");
            s.append(n.as_str());
            s
        },
        TemplateError::RenderError(m) => {
            let mut s = String::from_str("template rendering failed: ");
            s.append(m.as_str());
            s
        },
    }
}

/// The diagnostic text of a compile- or deploy-stage error.
pub open spec fn deploy_error_text(e: DeployError) -> Seq<char> {
    match e {
        DeployError::SpawnFailed(m) => "compiler could not be started: "@ + m@,
        DeployError::CompilerError { status, stdout, stderr } => {
            "Solidity compilation failed: solc failed with status: "@ + status@ + "\nstdout: "@
                + stdout@ + "\nstderr: "@ + stderr@
        },
        DeployError::TimedOut => "compiler timed out"@,
        DeployError::InterfaceNotFound(m) => "ABI file not found after compilation: "@ + m@,
        DeployError::BytecodeNotFound(m) => "Bytecode file not found after compilation: "@ + m@,
        DeployError::InterfaceParseError(m) => "interface description was not valid JSON: "@ + m@,
    }
}

pub fn describe_deploy_error(e: &DeployError) -> (r: String)
    ensures
        r@ == deploy_error_text(*e),
{
    match e {
        DeployError::SpawnFailed(m) => {
            let mut s = String::from_str("compiler could not be started: ");
            s.append(m.as_str());
            s
        },
        DeployError::CompilerError { status, stdout, stderr } => {
            let mut s = String::from_str("Solidity compilation failed: solc failed with status: ");
            s.append(status.as_str());
            s.append("\nstdout: ");
            s.append(stdout.as_str());
            s.append("\nstderr: ");
            s.append(stderr.as_str());
            s
        },
        DeployError::TimedOut => String::from_str("compiler timed out"),
        DeployError::InterfaceNotFound(m) => {
            let mut s = String::from_str("ABI file not found after compilation: ");
            s.append(m.as_str());
            s
        },
        DeployError::BytecodeNotFound(m) => {
            let mut s = String::from_str("Bytecode file not found after compilation: ");
            s.append(m.as_str());
            s
        },
        DeployError::InterfaceParseError(m) => {
            let mut s = String::from_str("interface description was not valid JSON: ");
            s.append(m.as_str());
            s
        },
    }
}

/// Advances the state machine by one stage outcome. Render and compile
/// failures are fatal; a store failure keeps the pipeline successful and
/// records the warning; a deploy failure is fatal. An event that does not
/// belong to the current stage changes nothing.
pub fn pipeline_step(st: PipelineState, ev: PipelineEvent) -> (st2: PipelineState)
    ensures
        (match (st, ev) {
            (PipelineState::Received, PipelineEvent::RenderDone(out)) => match out {
                Ok(src) => st2 matches PipelineState::Rendered { source } && source == src,
                Err(e) => st2 matches PipelineState::Failed { stage, message, contract_name }
                    && stage is Render && message@ == template_error_text(e) && contract_name
                    is None,
            },
            (
                PipelineState::Rendered { .. },
                PipelineEvent::CompileDone { outcome, compiled_at: ts, logical_name },
            ) => match outcome {
                Ok(a) => st2 matches PipelineState::Compiled { artifact, compiled_at } && artifact
                    == a && compiled_at == ts,
                Err(e) => st2 matches PipelineState::Failed { stage, message, contract_name }
                    && stage is Compile && message@ == deploy_error_text(e) && contract_name
                    == Some(logical_name),
            },
            (PipelineState::Compiled { artifact, compiled_at }, PipelineEvent::StoreDone(out)) => {
                match out {
                    Ok(path) => st2 == (PipelineState::Stored {
                        artifact,
                        compiled_at,
                        artifact_path: Some(path),
                        store_warning: None,
                    }),
                    Err(w) => st2 == (PipelineState::Stored {
                        artifact,
                        compiled_at,
                        artifact_path: None,
                        store_warning: Some(w),
                    }),
                }
            },
            (
                PipelineState::Stored { artifact, compiled_at, artifact_path, store_warning },
                PipelineEvent::DeployDone(out),
            ) => match out {
                Ok(addr) => st2 == (PipelineState::Deployed {
                    artifact,
                    compiled_at,
                    artifact_path,
                    store_warning,
                    address: addr,
                }),
                Err(e) => st2 matches PipelineState::Failed { stage, message, contract_name }
                    && stage is Deploy && message@ == deploy_error_text(e) && contract_name
                    == Some(artifact.contract_name),
            },
            (prev, _) => st2 == prev,
        }),
{
    match (st, ev) {
        (PipelineState::Received, PipelineEvent::RenderDone(out)) => match out {
            Ok(src) => PipelineState::Rendered { source: src },
            Err(e) => PipelineState::Failed {
                stage: Stage::Render,
                message: describe_template_error(&e),
                contract_name: None,
            },
        },
        (
            PipelineState::Rendered { .. },
            PipelineEvent::CompileDone { outcome, compiled_at: ts, logical_name },
        ) => match outcome {
            Ok(a) => PipelineState::Compiled { artifact: a, compiled_at: ts },
            Err(e) => PipelineState::Failed {
                stage: Stage::Compile,
                message: describe_deploy_error(&e),
                contract_name: Some(logical_name),
            },
        },
        (PipelineState::Compiled { artifact, compiled_at }, PipelineEvent::StoreDone(out)) => {
            match out {
                Ok(path) => PipelineState::Stored {
                    artifact,
                    compiled_at,
                    artifact_path: Some(path),
                    store_warning: None,
                },
                Err(w) => PipelineState::Stored {
                    artifact,
                    compiled_at,
                    artifact_path: None,
                    store_warning: Some(w),
                },
            }
        },
        (
            PipelineState::Stored { artifact, compiled_at, artifact_path, store_warning },
            PipelineEvent::DeployDone(out),
        ) => match out {
            Ok(addr) => PipelineState::Deployed {
                artifact,
                compiled_at,
                artifact_path,
                store_warning,
                address: addr,
            },
            Err(e) => PipelineState::Failed {
                stage: Stage::Deploy,
                message: describe_deploy_error(&e),
                contract_name: Some(artifact.contract_name),
            },
        },
        (prev, _) => prev,
    }
}

/// The success message of a request that compiled but whose store stage
/// has not run.
pub open spec fn compiled_message_spec(name: Seq<char>) -> Seq<char> {
    "Contract '"@ + name + "' compiled successfully."@
}

fn compiled_message(name: &str) -> (r: String)
    ensures
        r@ == compiled_message_spec(name@),
{
    let mut s = String::from_str("Contract '");
    s.append(name);
    s.append("' compiled successfully.");
    s
}

/// The success message of a compiled request, echoing whether the artifact
/// could also be archived.
pub open spec fn success_message_spec(name: Seq<char>, warning: Option<String>) -> Seq<char> {
    match warning {
        Option::None => "Contract '"@ + name + "' compiled successfully. Artifact saved."@,
        Option::Some(w) => "Contract '"@ + name
            + "' compiled successfully, but failed to save artifact: "@ + w@,
    }
}

fn success_message(name: &str, warning: &Option<String>) -> (r: String)
    ensures
        r@ == success_message_spec(name@, *warning),
{
    let mut s = String::from_str("Contract '");
    s.append(name);
    match warning {
        Option::None => {
            s.append("' compiled successfully. Artifact saved.");
        },
        Option::Some(w) => {
            s.append("' compiled successfully, but failed to save artifact: ");
            s.append(w.as_str());
        },
    }
    s
}

/// Shapes the outbound response for a state. Fields of stages that were
/// not reached stay empty; a request that reached the store stage reports
/// success even when the store itself failed, carrying the warning
/// instead of a path.
pub fn response_of(st: &PipelineState) -> (r: PipelineResponse)
    ensures
        (match st {
            PipelineState::Received => !r.success && r.contract_name is None && r.abi is None
                && r.bytecode is None && r.compilation_timestamp is None && r.artifact_path is None
                && r.contract_address is None && r.store_warning is None,
            PipelineState::Rendered { .. } => !r.success && r.contract_name is None && r.abi is None
                && r.bytecode is None && r.compilation_timestamp is None && r.artifact_path is None
                && r.contract_address is None && r.store_warning is None,
            PipelineState::Compiled { artifact, compiled_at } => r.success && r.contract_name
                == Some(artifact.contract_name) && r.abi == Some(artifact.abi) && r.bytecode
                == Some(artifact.bytecode) && r.compilation_timestamp == Some(*compiled_at)
                && r.artifact_path is None && r.contract_address is None && r.store_warning is None
                && r.message@ == compiled_message_spec(artifact.contract_name@),
            PipelineState::Stored { artifact, compiled_at, artifact_path, store_warning } => {
                r.success && r.contract_name == Some(artifact.contract_name) && r.abi == Some(
                    artifact.abi,
                ) && r.bytecode == Some(artifact.bytecode) && r.compilation_timestamp == Some(
                    *compiled_at,
                ) && r.artifact_path == *artifact_path && r.store_warning == *store_warning
                    && r.contract_address is None && r.message@ == success_message_spec(
                    artifact.contract_name@,
                    *store_warning,
                )
            },
            PipelineState::Deployed {
                artifact,
                compiled_at,
                artifact_path,
                store_warning,
                address,
            } => {
                r.success && r.contract_name == Some(artifact.contract_name) && r.abi == Some(
                    artifact.abi,
                ) && r.bytecode == Some(artifact.bytecode) && r.compilation_timestamp == Some(
                    *compiled_at,
                ) && r.artifact_path == *artifact_path && r.store_warning == *store_warning
                    && r.contract_address == Some(*address) && r.message@ == success_message_spec(
                    artifact.contract_name@,
                    *store_warning,
                )
            },
            PipelineState::Failed { stage, message, contract_name } => !r.success && r.message
                == *message && r.contract_name == *contract_name && r.abi is None && r.bytecode
                is None && r.compilation_timestamp is None && r.artifact_path is None
                && r.contract_address is None && r.store_warning is None,
        }),
{
    match st {
        PipelineState::Received => PipelineResponse {
            success: false,
            message: String::from_str("request not processed"),
            contract_name: None,
            contract_address: None,
            abi: None,
            bytecode: None,
            compilation_timestamp: None,
            artifact_path: None,
            store_warning: None,
        },
        PipelineState::Rendered { .. } => PipelineResponse {
            success: false,
            message: String::from_str("request not processed"),
            contract_name: None,
            contract_address: None,
            abi: None,
            bytecode: None,
            compilation_timestamp: None,
            artifact_path: None,
            store_warning: None,
        },
        PipelineState::Compiled { artifact, compiled_at } => PipelineResponse {
            success: true,
            message: compiled_message(artifact.contract_name.as_str()),
            contract_name: Some(artifact.contract_name.clone()),
            contract_address: None,
            abi: Some(artifact.abi.clone()),
            bytecode: Some(artifact.bytecode.clone()),
            compilation_timestamp: Some(*compiled_at),
            artifact_path: None,
            store_warning: None,
        },
        PipelineState::Stored { artifact, compiled_at, artifact_path, store_warning } => {
            PipelineResponse {
                success: true,
                message: success_message(artifact.contract_name.as_str(), store_warning),
                contract_name: Some(artifact.contract_name.clone()),
                contract_address: None,
                abi: Some(artifact.abi.clone()),
                bytecode: Some(artifact.bytecode.clone()),
                compilation_timestamp: Some(*compiled_at),
                artifact_path: artifact_path.clone(),
                store_warning: store_warning.clone(),
            }
        },
        PipelineState::Deployed { artifact, compiled_at, artifact_path, store_warning, address } => {
            PipelineResponse {
                success: true,
                message: success_message(artifact.contract_name.as_str(), store_warning),
                contract_name: Some(artifact.contract_name.clone()),
                contract_address: Some(address.clone()),
                abi: Some(artifact.abi.clone()),
                bytecode: Some(artifact.bytecode.clone()),
                compilation_timestamp: Some(*compiled_at),
                artifact_path: artifact_path.clone(),
                store_warning: store_warning.clone(),
            }
        },
        PipelineState::Failed { stage: _, message, contract_name } => PipelineResponse {
            success: false,
            message: message.clone(),
            contract_name: contract_name.clone(),
            contract_address: None,
            abi: None,
            bytecode: None,
            compilation_timestamp: None,
            artifact_path: None,
            store_warning: None,
        },
    }
}

} // verus!
