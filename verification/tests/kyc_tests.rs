use xet_composer_backend::kyc::simulate_kyc_validation;

#[test]
fn test_kyc_validation_success() {
    assert_eq!(
        simulate_kyc_validation(
            "Alice Wonderland",
            "0x1234567890abcdef1234567890abcdef12345678",
            "some_signature_hash"
        ),
        Ok(())
    );
}

#[test]
fn test_kyc_empty_legal_name() {
    assert_eq!(
        simulate_kyc_validation(
            " ",
            "0x1234567890abcdef1234567890abcdef12345678",
            "some_signature_hash"
        ),
        Err("Legal name cannot be empty.".to_string())
    );
}

#[test]
fn test_kyc_empty_wallet_address() {
    assert_eq!(
        simulate_kyc_validation("Bob The Builder", "  ", "some_signature_hash"),
        Err("Wallet address cannot be empty.".to_string())
    );
}

#[test]
fn test_kyc_empty_signature_hash() {
    assert_eq!(
        simulate_kyc_validation(
            "Charlie Brown",
            "0x1234567890abcdef1234567890abcdef12345678",
            ""
        ),
        Err("Signature or hash cannot be empty.".to_string())
    );
}

#[test]
fn test_kyc_invalid_wallet_address_prefix() {
    assert_eq!(
        simulate_kyc_validation(
            "David Copperfield",
            "1x1234567890abcdef1234567890abcdef12345678",
            "some_signature_hash"
        ),
        Err("Invalid wallet address format. Expected '0x' prefix and 42 characters total.".to_string())
    );
}

#[test]
fn test_kyc_invalid_wallet_address_length_short() {
    assert_eq!(
        simulate_kyc_validation("Eve Online", "0x12345", "some_signature_hash"),
        Err("Invalid wallet address format. Expected '0x' prefix and 42 characters total.".to_string())
    );
}

#[test]
fn test_kyc_invalid_wallet_address_length_long() {
    assert_eq!(
        simulate_kyc_validation(
            "Frank Herbert",
            "0x1234567890abcdef1234567890abcdef1234567890ab",
            "some_signature_hash"
        ),
        Err("Invalid wallet address format. Expected '0x' prefix and 42 characters total.".to_string())
    );
}
