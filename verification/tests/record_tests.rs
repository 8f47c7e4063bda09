use xet_composer_backend::artifact_manager::{parse_saved_record, render_saved_record, StoredArtifact};
use xet_composer_backend::artifact_storage::{
    parse_stored_record, render_stored_record, StorableArtifactData,
};

#[test]
fn saved_record_is_exact_json() {
    let a = StoredArtifact {
        contract_name: "Vesting".to_string(),
        abi: "[]".to_string(),
        bytecode: "608060".to_string(),
        compilation_timestamp: 1700000000,
    };
    let r = render_saved_record(&a);
    assert_eq!(
        r,
        "{\"contractName\":\"Vesting\",\"abi\":\"[]\",\"bytecode\":\"608060\",\"compilationTimestamp\":1700000000}"
    );
}

#[test]
fn saved_record_parses_as_real_json() {
    let a = StoredArtifact {
        contract_name: "My \"odd\" name\\with specials\n".to_string(),
        abi: "[{\"name\":\"f\"}]".to_string(),
        bytecode: "  608060  ".to_string(),
        compilation_timestamp: 42,
    };
    let r = render_saved_record(&a);
    let v: serde_json::Value = serde_json::from_str(&r).expect("record must be valid JSON");
    assert_eq!(
        v.get("contractName").unwrap().as_str().unwrap(),
        "My \"odd\" name\\with specials\n"
    );
    assert_eq!(v.get("abi").unwrap().as_str().unwrap(), "[{\"name\":\"f\"}]");
    assert_eq!(v.get("bytecode").unwrap().as_str().unwrap(), "  608060  ");
    assert_eq!(v.get("compilationTimestamp").unwrap().as_u64().unwrap(), 42);
}

#[test]
fn saved_record_round_trips() {
    let a = StoredArtifact {
        contract_name: "Token\\\"Vesting\"".to_string(),
        abi: "[{\"inputs\":[]}]".to_string(),
        bytecode: "608060405234801561001057600080fd5b50".to_string(),
        compilation_timestamp: u64::MAX,
    };
    let text = render_saved_record(&a);
    let back = parse_saved_record(&text).expect("canonical record must parse");
    assert_eq!(back.contract_name, a.contract_name);
    assert_eq!(back.abi, a.abi);
    assert_eq!(back.bytecode, a.bytecode);
    assert_eq!(back.compilation_timestamp, a.compilation_timestamp);
}

#[test]
fn saved_record_escapes_control_characters() {
    let a = StoredArtifact {
        contract_name: "a\u{1}b\tc".to_string(),
        abi: "[]".to_string(),
        bytecode: "00".to_string(),
        compilation_timestamp: 1,
    };
    let text = render_saved_record(&a);
    assert!(text.contains("\\u0001"));
    assert!(text.contains("\\u0009"));
    let v: serde_json::Value = serde_json::from_str(&text).expect("record must be valid JSON");
    assert_eq!(v.get("contractName").unwrap().as_str().unwrap(), "a\u{1}b\tc");
    let back = parse_saved_record(&text).expect("canonical record must parse");
    assert_eq!(back.contract_name, "a\u{1}b\tc");
}

#[test]
fn saved_record_parse_rejects_garbage() {
    assert!(parse_saved_record("").is_none());
    assert!(parse_saved_record("{}").is_none());
    assert!(parse_saved_record("{\"contractName\":\"A\"").is_none());
    assert!(parse_saved_record(
        "{\"contractName\":\"A\",\"abi\":\"[]\",\"bytecode\":\"00\",\"compilationTimestamp\":99999999999999999999999}"
    )
    .is_none());
}

#[test]
fn stored_record_round_trips() {
    let a = StorableArtifactData {
        contract_name: "Vesting".to_string(),
        abi: "[]".to_string(),
        bytecode: "608060".to_string(),
        address: "0x1234567890abcdef1234567890abcdef12345678".to_string(),
        deployed_at: -12345,
    };
    let text = render_stored_record(&a);
    let back = parse_stored_record(&text).expect("canonical record must parse");
    assert_eq!(back.contract_name, a.contract_name);
    assert_eq!(back.abi, a.abi);
    assert_eq!(back.bytecode, a.bytecode);
    assert_eq!(back.address, a.address);
    assert_eq!(back.deployed_at, a.deployed_at);
}

#[test]
fn stored_record_is_exact_json() {
    let a = StorableArtifactData {
        contract_name: "C".to_string(),
        abi: "[]".to_string(),
        bytecode: "00".to_string(),
        address: "0xabc".to_string(),
        deployed_at: 7,
    };
    let r = render_stored_record(&a);
    assert_eq!(
        r,
        "{\"contract_name\":\"C\",\"abi\":\"[]\",\"bytecode\":\"00\",\"address\":\"0xabc\",\"deployed_at\":7}"
    );
    let v: serde_json::Value = serde_json::from_str(&r).expect("record must be valid JSON");
    assert_eq!(v.get("deployed_at").unwrap().as_i64().unwrap(), 7);
}
