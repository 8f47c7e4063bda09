//! The compiler invoker's decision core: the exact argument list handed to
//! the external compiler, and the classification of a finished run into a
//! compiled artifact or one of the documented error kinds. The subprocess
//! itself and the temporary files live with the host; this module receives
//! the run's outcome and the output files as plain values.

use vstd::prelude::*;
use vstd::string::StringExecFns;
use crate::chars::string_views;
use crate::chars::lemma_string_views_push;
use crate::chars::trim;
use crate::chars::trim_spec;

verus! {

/// Verdict of one run of the external compiler, as the host observed it.
pub enum CompilerRun {
    /// The compiler binary could not be started: missing or not executable.
    SpawnFailed(String),
    /// The compiler ran past its time allowance.
    TimedOut,
    /// The compiler ran to completion, with its exit status and captured
    /// output streams.
    Exited { success: bool, status: String, stdout: String, stderr: String },
}

/// The two files the compiler is expected to leave behind, as read back by
/// the host: the content of each, or the diagnostic text of the failed
/// read.
pub struct CompilerFiles {
    pub abi: Result<String, String>,
    pub bin: Result<String, String>,
}

/// Error taxonomy of the compile stage.
pub enum DeployError {
    /// The compiler binary was missing or could not be executed; distinct
    /// from a compiler that ran and rejected the source.
    SpawnFailed(String),
    /// The compiler exited with a non-zero status; carries the status and
    /// the captured standard output and standard error verbatim.
    CompilerError { status: String, stdout: String, stderr: String },
    /// The compiler did not finish within its time allowance.
    TimedOut,
    /// The interface description file was not found after a successful run;
    /// usually the logical name matches no contract in the source.
    InterfaceNotFound(String),
    /// The bytecode file was not found after a successful run.
    BytecodeNotFound(String),
    /// The interface description file did not hold well-formed JSON.
    InterfaceParseError(String),
}

/// Every compile-stage failure is one of the documented error kinds; there
/// is no unclassified error. Together with the classification contract,
/// which makes a successful outcome carry `logical_name` as its contract
/// name, this pins the whole render-then-compile outcome shape.
pub proof fn lemma_compile_error_classified(e: DeployError)
    ensures
        e is SpawnFailed || e is CompilerError || e is TimedOut || e is InterfaceNotFound
            || e is BytecodeNotFound || e is InterfaceParseError,
{
}

/// One successful compilation: the logical contract name, the interface
/// description as JSON text, and the bytecode with surrounding whitespace
/// trimmed.
pub struct CompilationOutput {
    pub contract_name: String,
    pub abi: String,
    pub bytecode: String,
}

#[verifier::external_type_specification]
#[verifier::external_body]
pub struct ExJsonValue(serde_json::Value);

#[verifier::external_type_specification]
#[verifier::external_body]
pub struct ExJsonError(serde_json::Error);

/// Whether serde_json accepts `s` as a JSON document; the verdict depends
/// on the text alone.
pub uninterp spec fn json_ok(s: Seq<char>) -> bool;

/// Relies on serde_json's `from_str::<Value>`: parses a JSON document; its
/// verdict is a function of the text alone, named `json_ok`.
#[verifier::external_body]
fn parse_json_value(s: &str) -> (r: Result<serde_json::Value, serde_json::Error>)
    ensures
        r is Ok <==> json_ok(s@),
{
    serde_json::from_str::<serde_json::Value>(s)
}

/// Relies on serde_json's `Error` Display implementation for its
/// diagnostic text.
#[verifier::external_body]
fn json_error_text(e: &serde_json::Error) -> String {
    format!("{}", e)
}

/// Drives the external compiler. Holds only the configured executable
/// name; each compilation's staging and classification is per call.
pub struct DeployEngine {
    solc_executable: String,
}

impl DeployEngine {
    /// The configured compiler executable name.
    pub closed spec fn executable(&self) -> Seq<char> {
        self.solc_executable@
    }

    pub fn new(solc_executable: String) -> (r: DeployEngine)
        ensures
            r.executable() == solc_executable@,
    {
        DeployEngine { solc_executable }
    }

    /// The configured compiler executable name, for the host to spawn.
    pub fn executable_name(&self) -> (r: &str)
        ensures
            r@ == self.executable(),
    {
        self.solc_executable.as_str()
    }

    /// The exact argument list of one compiler invocation: interface and
    /// bytecode output requested, optimization on, overwriting allowed, the
    /// output directory and base import path set, the staged input file,
    /// and the remapping directives appended verbatim.
    pub open spec fn compiler_args_spec(
        input_path: Seq<char>,
        out_dir: Seq<char>,
        base_path: Seq<char>,
        remappings: Seq<Seq<char>>,
    ) -> Seq<Seq<char>> {
        seq![
            "--abi"@,
            "--bin"@,
            "--optimize"@,
            "--overwrite"@,
            "-o"@,
            out_dir,
            "--base-path"@,
            base_path,
            input_path,
        ] + remappings
    }

    pub fn compiler_args(
        &self,
        input_path: &str,
        out_dir: &str,
        base_path: &str,
        remappings: &Vec<String>,
    ) -> (args: Vec<String>)
        ensures
            string_views(args@) == Self::compiler_args_spec(
                input_path@,
                out_dir@,
                base_path@,
                string_views(remappings@),
            ),
    {
        let mut args: Vec<String> = Vec::new();
        args.push(String::from_str("--abi"));
        args.push(String::from_str("--bin"));
        args.push(String::from_str("--optimize"));
        args.push(String::from_str("--overwrite"));
        args.push(String::from_str("-o"));
        args.push(String::from_str(out_dir));
        args.push(String::from_str("--base-path"));
        args.push(String::from_str(base_path));
        args.push(String::from_str(input_path));
        proof {
            assert(string_views(args@) =~= Self::compiler_args_spec(
                input_path@,
                out_dir@,
                base_path@,
                string_views(remappings@.subrange(0, 0)),
            ));
        }
        let mut i: usize = 0;
        while i < remappings.len()
            invariant
                0 <= i <= remappings@.len(),
                args@.len() == 9 + i,
                string_views(args@) == Self::compiler_args_spec(
                    input_path@,
                    out_dir@,
                    base_path@,
                    string_views(remappings@.subrange(0, i as int)),
                ),
            decreases remappings@.len() - i,
        {
            let ghost pre = args@;
            let next = remappings[i].clone();
            args.push(next);
            proof {
                lemma_string_views_push(remappings@.subrange(0, i as int), remappings@[i as int]);
                assert(remappings@.subrange(0, i + 1) =~= remappings@.subrange(0, i as int).push(
                    remappings@[i as int],
                ));
                lemma_string_views_push(pre, remappings@[i as int]);
                assert(args@ == pre.push(remappings@[i as int]));
                assert(string_views(args@) =~= Self::compiler_args_spec(
                    input_path@,
                    out_dir@,
                    base_path@,
                    string_views(remappings@.subrange(0, i + 1)),
                ));
            }
            i = i + 1;
        }
        proof {
            assert(remappings@.subrange(0, remappings@.len() as int) =~= remappings@);
        }
        args
    }

    /// Classifies one finished compiler run. A run that could not start, or
    /// timed out, or exited unsuccessfully is the corresponding error with
    /// its diagnostics verbatim; after a successful exit, a missing
    /// interface file, a missing bytecode file, and a malformed interface
    /// file are each their own error; otherwise the compiled artifact, with
    /// the contract name set to `logical_name` as passed in and the
    /// bytecode trimmed of surrounding whitespace.
    pub fn compile_outcome(logical_name: &str, run: CompilerRun, files: CompilerFiles) -> (r:
        Result<CompilationOutput, DeployError>)
        ensures
            (match run {
                CompilerRun::SpawnFailed(m) => r == Err::<CompilationOutput, DeployError>(
                    DeployError::SpawnFailed(m),
                ),
                CompilerRun::TimedOut => r == Err::<CompilationOutput, DeployError>(
                    DeployError::TimedOut,
                ),
                CompilerRun::Exited { success, status, stdout, stderr } => {
                    if !success {
                        r == Err::<CompilationOutput, DeployError>(
                            DeployError::CompilerError { status, stdout, stderr },
                        )
                    } else {
                        match files.abi {
                            Err(m) => r == Err::<CompilationOutput, DeployError>(
                                DeployError::InterfaceNotFound(m),
                            ),
                            Ok(a) => match files.bin {
                                Err(m) => r == Err::<CompilationOutput, DeployError>(
                                    DeployError::BytecodeNotFound(m),
                                ),
                                Ok(b) => {
                                    if json_ok(a@) {
                                        r matches Ok(out) && out.contract_name@ == logical_name@
                                            && out.abi == a && out.bytecode@ == trim_spec(b@)
                                    } else {
                                        r matches Err(DeployError::InterfaceParseError(_))
                                    }
                                },
                            },
                        }
                    }
                },
            }),
    {
        match run {
            CompilerRun::SpawnFailed(m) => Err(DeployError::SpawnFailed(m)),
            CompilerRun::TimedOut => Err(DeployError::TimedOut),
            CompilerRun::Exited { success, status, stdout, stderr } => {
                if !success {
                    return Err(DeployError::CompilerError { status, stdout, stderr });
                }
                let abi = match files.abi {
                    Ok(a) => a,
                    Err(m) => {
                        return Err(DeployError::InterfaceNotFound(m));
                    },
                };
                let bin = match files.bin {
                    Ok(b) => b,
                    Err(m) => {
                        return Err(DeployError::BytecodeNotFound(m));
                    },
                };
                match parse_json_value(abi.as_str()) {
                    Ok(_) => {},
                    Err(e) => {
                        return Err(DeployError::InterfaceParseError(json_error_text(&e)));
                    },
                }
                Ok(
                    CompilationOutput {
                        contract_name: String::from_str(logical_name),
                        abi,
                        bytecode: trim(bin.as_str()),
                    },
                )
            },
        }
    }

    /// Placeholder for deploying a compiled contract; deployment is an
    /// external collaborator and this stub yields a fixed simulated
    /// address.
    pub fn deploy_contract(&self, _abi: &str, _bytecode: &str, _constructor_args: Option<&str>) -> (
        r: Result<String, DeployError>)
        ensures
            r matches Ok(a) && a@ == "0xSIMULATED_DEPLOYED_ADDRESS"@,
    {
        Ok(String::from_str("0xSIMULATED_DEPLOYED_ADDRESS"))
    }
}

} // verus!
