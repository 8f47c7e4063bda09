use xet_composer_backend::deploy_engine::{
    CompilationOutput, CompilerFiles, CompilerRun, DeployEngine, DeployError,
};

fn successful_run() -> CompilerRun {
    CompilerRun::Exited {
        success: true,
        status: "exit status: 0".to_string(),
        stdout: "".to_string(),
        stderr: "".to_string(),
    }
}

#[test]
fn compiler_args_exact_order() {
    let engine = DeployEngine::new("solc".to_string());
    let remappings = vec!["@openzeppelin/contracts/=lib/openzeppelin-repo/contracts/".to_string()];
    let args = engine.compiler_args("/tmp/in.sol", "/tmp/out", "/work/contracts", &remappings);
    assert_eq!(
        args,
        vec![
            "--abi".to_string(),
            "--bin".to_string(),
            "--optimize".to_string(),
            "--overwrite".to_string(),
            "-o".to_string(),
            "/tmp/out".to_string(),
            "--base-path".to_string(),
            "/work/contracts".to_string(),
            "/tmp/in.sol".to_string(),
            "@openzeppelin/contracts/=lib/openzeppelin-repo/contracts/".to_string(),
        ]
    );
}

#[test]
fn successful_compile_yields_artifact() {
    let files = CompilerFiles {
        abi: Ok("[{\"type\":\"function\"}]".to_string()),
        bin: Ok("  608060405234  \n".to_string()),
    };
    let r = DeployEngine::compile_outcome("Vesting", successful_run(), files);
    let out: CompilationOutput = r.ok().expect("successful run with both files must succeed");
    assert_eq!(out.contract_name, "Vesting");
    assert_eq!(out.abi, "[{\"type\":\"function\"}]");
    assert_eq!(out.bytecode, "608060405234");
}

#[test]
fn nonzero_exit_is_compiler_error_with_exact_stderr() {
    let run = CompilerRun::Exited {
        success: false,
        status: "exit status: 1".to_string(),
        stdout: "".to_string(),
        stderr: "ParserError: Expected ';' but got '}'".to_string(),
    };
    let files = CompilerFiles {
        abi: Err("unread".to_string()),
        bin: Err("unread".to_string()),
    };
    let r = DeployEngine::compile_outcome("Vesting", run, files);
    match r {
        Err(DeployError::CompilerError { status, stdout, stderr }) => {
            assert_eq!(status, "exit status: 1");
            assert_eq!(stdout, "");
            assert_eq!(stderr, "ParserError: Expected ';' but got '}'");
        }
        _ => panic!("expected CompilerError"),
    }
}

#[test]
fn missing_interface_file_is_interface_not_found() {
    // The compiler succeeded but never emitted Foo.abi: the logical name
    // matches no contract defined in the source.
    let files = CompilerFiles {
        abi: Err("Could not read ABI file /tmp/out/Foo.abi: No such file or directory".to_string()),
        bin: Ok("608060".to_string()),
    };
    let r = DeployEngine::compile_outcome("Foo", successful_run(), files);
    match r {
        Err(DeployError::InterfaceNotFound(m)) => {
            assert_eq!(
                m,
                "Could not read ABI file /tmp/out/Foo.abi: No such file or directory"
            );
        }
        _ => panic!("expected InterfaceNotFound"),
    }
}

#[test]
fn missing_bytecode_file_is_bytecode_not_found() {
    let files = CompilerFiles {
        abi: Ok("[]".to_string()),
        bin: Err("Could not read BIN file /tmp/out/Foo.bin".to_string()),
    };
    let r = DeployEngine::compile_outcome("Foo", successful_run(), files);
    assert!(matches!(r, Err(DeployError::BytecodeNotFound(_))));
}

#[test]
fn malformed_interface_is_parse_error() {
    let files = CompilerFiles {
        abi: Ok("this is not json".to_string()),
        bin: Ok("608060".to_string()),
    };
    let r = DeployEngine::compile_outcome("Vesting", successful_run(), files);
    assert!(matches!(r, Err(DeployError::InterfaceParseError(_))));
}

#[test]
fn spawn_failure_and_timeout_are_distinct() {
    let files = CompilerFiles {
        abi: Err("unread".to_string()),
        bin: Err("unread".to_string()),
    };
    let r = DeployEngine::compile_outcome(
        "V",
        CompilerRun::SpawnFailed("No such file or directory".to_string()),
        files,
    );
    assert!(matches!(r, Err(DeployError::SpawnFailed(_))));
    let files2 = CompilerFiles {
        abi: Err("unread".to_string()),
        bin: Err("unread".to_string()),
    };
    let r2 = DeployEngine::compile_outcome("V", CompilerRun::TimedOut, files2);
    assert!(matches!(r2, Err(DeployError::TimedOut)));
}

#[test]
fn deploy_stub_returns_simulated_address() {
    let engine = DeployEngine::new("solc".to_string());
    let r = engine.deploy_contract("[]", "608060", None);
    assert_eq!(r.ok().unwrap(), "0xSIMULATED_DEPLOYED_ADDRESS");
}
