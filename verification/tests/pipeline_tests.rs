use xet_composer_backend::deploy_engine::{
    CompilationOutput, CompilerFiles, CompilerRun, DeployEngine, DeployError,
};
use xet_composer_backend::pipeline::{
    logical_contract_name, pipeline_step, response_of, PipelineEvent, PipelineState,
};
use xet_composer_backend::sol_template_engine::{
    ParamValue, SolTemplateEngine, TemplateError, TemplateParam,
};

fn artifact() -> CompilationOutput {
    CompilationOutput {
        contract_name: "Vesting".to_string(),
        abi: "[]".to_string(),
        bytecode: "608060".to_string(),
    }
}

#[test]
fn logical_name_strips_template_suffix() {
    assert_eq!(logical_contract_name("TokenVesting.sol.tera"), "TokenVesting");
    assert_eq!(logical_contract_name("Vesting.sol.tera"), "Vesting");
    assert_eq!(logical_contract_name("Vesting"), "Vesting");
    assert_eq!(logical_contract_name("Vesting.sol"), "Vesting.sol");
    // Only the trailing suffix is stripped, never an inner occurrence.
    assert_eq!(
        logical_contract_name("A.sol.teraB.sol.tera"),
        "A.sol.teraB"
    );
}

#[test]
fn full_success_path() {
    let st = PipelineState::Received;
    let st = pipeline_step(st, PipelineEvent::RenderDone(Ok("contract Vesting {}".to_string())));
    let st = pipeline_step(
        st,
        PipelineEvent::CompileDone {
            outcome: Ok(artifact()),
            compiled_at: 1700000000,
            logical_name: "Vesting".to_string(),
        },
    );
    let st = pipeline_step(
        st,
        PipelineEvent::StoreDone(Ok("deployments/2023-11-14/Vesting-1700000000.json".to_string())),
    );
    let st = pipeline_step(
        st,
        PipelineEvent::DeployDone(Ok("0xSIMULATED_DEPLOYED_ADDRESS".to_string())),
    );
    let r = response_of(&st);
    assert!(r.success);
    assert_eq!(r.contract_name.as_deref(), Some("Vesting"));
    assert_eq!(r.bytecode.as_deref(), Some("608060"));
    assert_eq!(r.abi.as_deref(), Some("[]"));
    assert_eq!(r.compilation_timestamp, Some(1700000000));
    assert_eq!(
        r.artifact_path.as_deref(),
        Some("deployments/2023-11-14/Vesting-1700000000.json")
    );
    assert_eq!(r.contract_address.as_deref(), Some("0xSIMULATED_DEPLOYED_ADDRESS"));
    assert!(r.store_warning.is_none());
    assert_eq!(
        r.message,
        "Contract 'Vesting' compiled successfully. Artifact saved."
    );
}

#[test]
fn render_failure_is_fatal_with_empty_later_fields() {
    let st = PipelineState::Received;
    let st = pipeline_step(
        st,
        PipelineEvent::RenderDone(Err(TemplateError::TemplateNotFound(
            "Missing.sol.tera".to_string(),
        ))),
    );
    assert!(matches!(st, PipelineState::Failed { .. }));
    let r = response_of(&st);
    assert!(!r.success);
    assert_eq!(r.message, "template not found: Missing.sol.tera");
    assert!(r.contract_name.is_none());
    assert!(r.abi.is_none());
    assert!(r.bytecode.is_none());
    assert!(r.compilation_timestamp.is_none());
    assert!(r.artifact_path.is_none());
    assert!(r.contract_address.is_none());
}

#[test]
fn compile_failure_carries_exact_stderr() {
    let st = PipelineState::Received;
    let st = pipeline_step(st, PipelineEvent::RenderDone(Ok("contract {}".to_string())));
    let st = pipeline_step(
        st,
        PipelineEvent::CompileDone {
            outcome: Err(DeployError::CompilerError {
                status: "exit status: 1".to_string(),
                stdout: "".to_string(),
                stderr: "ParserError: Expected identifier".to_string(),
            }),
            compiled_at: 1700000000,
            logical_name: "Vesting".to_string(),
        },
    );
    let r = response_of(&st);
    assert!(!r.success);
    assert!(r.message.contains("ParserError: Expected identifier"));
    // The compile stage was reached, so the response still names the
    // contract it was about.
    assert_eq!(r.contract_name.as_deref(), Some("Vesting"));
    assert!(r.bytecode.is_none());
    assert!(r.compilation_timestamp.is_none());
}

#[test]
fn store_failure_still_reports_success() {
    // A forced storage failure after a successful compile: the response
    // still reports success and carries the artifact, with the warning
    // kept and no artifact path.
    let st = PipelineState::Received;
    let st = pipeline_step(st, PipelineEvent::RenderDone(Ok("contract Vesting {}".to_string())));
    let st = pipeline_step(
        st,
        PipelineEvent::CompileDone {
            outcome: Ok(artifact()),
            compiled_at: 1700000000,
            logical_name: "Vesting".to_string(),
        },
    );
    let st = pipeline_step(
        st,
        PipelineEvent::StoreDone(Err("Permission denied (os error 13)".to_string())),
    );
    assert!(matches!(st, PipelineState::Stored { .. }));
    let r = response_of(&st);
    assert!(r.success);
    assert_eq!(r.contract_name.as_deref(), Some("Vesting"));
    assert_eq!(r.bytecode.as_deref(), Some("608060"));
    assert_eq!(r.compilation_timestamp, Some(1700000000));
    assert!(r.artifact_path.is_none());
    assert_eq!(r.store_warning.as_deref(), Some("Permission denied (os error 13)"));
    assert_eq!(
        r.message,
        "Contract 'Vesting' compiled successfully, but failed to save artifact: Permission denied (os error 13)"
    );
}

#[test]
fn deploy_failure_is_fatal() {
    let st = PipelineState::Received;
    let st = pipeline_step(st, PipelineEvent::RenderDone(Ok("contract Vesting {}".to_string())));
    let st = pipeline_step(
        st,
        PipelineEvent::CompileDone {
            outcome: Ok(artifact()),
            compiled_at: 1700000000,
            logical_name: "Vesting".to_string(),
        },
    );
    let st = pipeline_step(st, PipelineEvent::StoreDone(Ok("p.json".to_string())));
    let st = pipeline_step(
        st,
        PipelineEvent::DeployDone(Err(DeployError::SpawnFailed("chain unreachable".to_string()))),
    );
    let r = response_of(&st);
    assert!(!r.success);
    assert!(r.message.contains("chain unreachable"));
    assert_eq!(r.contract_name.as_deref(), Some("Vesting"));
}

#[test]
fn vesting_scenario_renders_then_compiles() {
    // Render the "Vesting" template with concrete parameters, then classify
    // a successful run of a (faked) compiler over the rendered source.
    let templates = vec![(
        "Vesting.sol.tera".to_string(),
        "contract Vesting { address b = {{ beneficiary }}; uint s = {{ start }}; }".to_string(),
    )];
    let engine = SolTemplateEngine::new(templates).ok().unwrap();
    let params = vec![
        TemplateParam {
            key: "beneficiary".to_string(),
            value: ParamValue::Text("0xabc0000000000000000000000000000000000001".to_string()),
        },
        TemplateParam {
            key: "start".to_string(),
            value: ParamValue::UInt(1700000000),
        },
    ];
    let rendered = engine.render_template("Vesting.sol.tera", &params).ok().unwrap();
    assert!(rendered.contains("0xabc0000000000000000000000000000000000001"));
    assert!(rendered.contains("1700000000"));

    let logical = logical_contract_name("Vesting.sol.tera");
    assert_eq!(logical, "Vesting");
    let run = CompilerRun::Exited {
        success: true,
        status: "exit status: 0".to_string(),
        stdout: "".to_string(),
        stderr: "".to_string(),
    };
    let files = CompilerFiles {
        abi: Ok("[]".to_string()),
        bin: Ok("608060405234801561001057600080fd5b50\n".to_string()),
    };
    let artifact: CompilationOutput =
        DeployEngine::compile_outcome(&logical, run, files).ok().unwrap();
    assert_eq!(artifact.contract_name, "Vesting");
    assert_eq!(artifact.bytecode, "608060405234801561001057600080fd5b50");

    // The same rendered source against a compiler that rejects it: the
    // error carries the compiler's stderr exactly.
    let bad_run = CompilerRun::Exited {
        success: false,
        status: "exit status: 1".to_string(),
        stdout: "".to_string(),
        stderr: "ParserError: Source file requires different compiler version".to_string(),
    };
    let bad_files = CompilerFiles {
        abi: Err("unread".to_string()),
        bin: Err("unread".to_string()),
    };
    match DeployEngine::compile_outcome(&logical, bad_run, bad_files) {
        Err(DeployError::CompilerError { stderr, .. }) => {
            assert_eq!(stderr, "ParserError: Source file requires different compiler version");
        }
        _ => panic!("expected CompilerError"),
    }
}

#[test]
fn out_of_order_event_changes_nothing() {
    let st = PipelineState::Received;
    let st = pipeline_step(st, PipelineEvent::StoreDone(Ok("p.json".to_string())));
    assert!(matches!(st, PipelineState::Received));
}
