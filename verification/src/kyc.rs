//! A basic KYC validation check: plain string validation with no internal
//! state. Inputs are rejected when blank, and the wallet address must carry
//! a `0x` prefix and be 42 characters long.

use vstd::prelude::*;
use vstd::string::StrSliceExecFns;
use vstd::string::StringExecFns;
use crate::chars::all_space;
use crate::chars::is_blank;

verus! {

/// Whether a string holds nothing but whitespace.
pub open spec fn blank(s: Seq<char>) -> bool {
    all_space(s)
}

/// Whether a wallet address is well-formed: a `0x` prefix and 42 characters
/// in total.
pub open spec fn wallet_ok(w: Seq<char>) -> bool {
    w.len() == 42 && w[0] == '0' && w[1] == 'x'
}

/// Simulates a basic KYC validation check over the legal name, the wallet
/// address, and a signature or hash representing consent. Returns `Ok(())`
/// exactly when no field is blank and the wallet address is well-formed;
/// otherwise the error message for the first check that failed.
pub fn simulate_kyc_validation(
    legal_name: &str,
    wallet_address: &str,
    signature_hash: &str,
) -> (r: Result<(), String>)
    ensures
        blank(legal_name@) ==> (r matches Err(m) && m@ == "Legal name cannot be empty."@),
        !blank(legal_name@) && blank(wallet_address@) ==> (r matches Err(m) && m@
            == "Wallet address cannot be empty."@),
        !blank(legal_name@) && !blank(wallet_address@) && blank(signature_hash@) ==> (r matches Err(
            m,
        ) && m@ == "Signature or hash cannot be empty."@),
        !blank(legal_name@) && !blank(wallet_address@) && !blank(signature_hash@) && !wallet_ok(
            wallet_address@,
        ) ==> (r matches Err(m) && m@
            == "Invalid wallet address format. Expected '0x' prefix and 42 characters total."@),
        !blank(legal_name@) && !blank(wallet_address@) && !blank(signature_hash@) && wallet_ok(
            wallet_address@,
        ) ==> r is Ok,
{
    if is_blank(legal_name) {
        return Err(String::from_str("Legal name cannot be empty."));
    }
    if is_blank(wallet_address) {
        return Err(String::from_str("Wallet address cannot be empty."));
    }
    if is_blank(signature_hash) {
        return Err(String::from_str("Signature or hash cannot be empty."));
    }
    let n: usize = wallet_address.unicode_len();
    let well_formed = n == 42 && wallet_address.get_char(0) == '0' && wallet_address.get_char(1)
        == 'x';
    if !well_formed {
        return Err(
            String::from_str(
                "Invalid wallet address format. Expected '0x' prefix and 42 characters total.",
            ),
        );
    }
    Ok(())
}

} // verus!
