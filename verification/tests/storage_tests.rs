use xet_composer_backend::artifact_manager::save_artifact;
use xet_composer_backend::artifact_storage::store_artifact;
use xet_composer_backend::calendar::date_bucket;
use xet_composer_backend::deploy_engine::CompilationOutput;

#[test]
fn date_bucket_known_values() {
    assert_eq!(date_bucket(0), "1970-01-01");
    assert_eq!(date_bucket(86399), "1970-01-01");
    assert_eq!(date_bucket(86400), "1970-01-02");
    assert_eq!(date_bucket(951782400), "2000-02-29");
    assert_eq!(date_bucket(1700000000), "2023-11-14");
    assert_eq!(date_bucket(1704067199), "2023-12-31");
    assert_eq!(date_bucket(1704067200), "2024-01-01");
}

#[test]
fn date_bucket_is_deterministic() {
    assert_eq!(date_bucket(1700000000), date_bucket(1700000000));
}

#[test]
fn save_artifact_plans_time_bucketed_path() {
    let artifact = CompilationOutput {
        contract_name: "Vesting".to_string(),
        abi: "[]".to_string(),
        bytecode: "608060".to_string(),
    };
    let p = save_artifact(&artifact, "/var/deployments", 1700000000);
    assert_eq!(p.directory, "/var/deployments/2023-11-14");
    assert_eq!(
        p.file_path,
        "/var/deployments/2023-11-14/Vesting-1700000000.json"
    );
    assert_eq!(
        p.record,
        "{\"contractName\":\"Vesting\",\"abi\":\"[]\",\"bytecode\":\"608060\",\"compilationTimestamp\":1700000000}"
    );
}

#[test]
fn save_artifact_same_timestamp_same_key() {
    let artifact = CompilationOutput {
        contract_name: "A".to_string(),
        abi: "[]".to_string(),
        bytecode: "00".to_string(),
    };
    let p1 = save_artifact(&artifact, "root", 1234567890);
    let p2 = save_artifact(&artifact, "root", 1234567890);
    assert_eq!(p1.directory, p2.directory);
    assert_eq!(p1.file_path, p2.file_path);
}

#[test]
fn store_artifact_plans_address_keyed_path() {
    let artifact = CompilationOutput {
        contract_name: "Vesting".to_string(),
        abi: "[]".to_string(),
        bytecode: "608060".to_string(),
    };
    let p = store_artifact(
        &artifact,
        "0x1234567890abcdef1234567890abcdef12345678",
        1700000000,
        "deployments",
    );
    assert_eq!(p.directory, "deployments");
    assert_eq!(
        p.file_path,
        "deployments/Vesting-0x1234567890abcdef1234567890abcdef12345678.json"
    );
    assert_eq!(
        p.record,
        "{\"contract_name\":\"Vesting\",\"abi\":\"[]\",\"bytecode\":\"608060\",\"address\":\"0x1234567890abcdef1234567890abcdef12345678\",\"deployed_at\":1700000000}"
    );
}
