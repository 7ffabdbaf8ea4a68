//! Secret slots: one-time deposit boxes through which a user hands a secret
//! to the agent without it passing through the chat.

use vstd::prelude::*;
use vstd::string::*;

use crate::errors::ApiError;
use crate::text::owned;

verus! {

/// Seconds a pending slot stays open.
pub const SLOT_TTL_SECONDS: i64 = 300;

/// A request to open a slot.
pub struct CreateSlotRequest {
    pub purpose: String,
    pub provider: Option<String>,
}

/// A deposit into a slot.
pub struct DepositRequest {
    pub value: String,
}

/// Check a deposit before storing it: the value must not be empty.
pub fn check_deposit(req: &DepositRequest) -> (r: Result<(), ApiError>)
    ensures
        req.value@.len() == 0 ==> (r matches Err(ApiError::BadRequest(m)) && m@
            == "Secret value cannot be empty"@),
        req.value@.len() != 0 ==> r is Ok,
{
    if req.value.as_str().is_empty() {
        return Err(ApiError::BadRequest(owned("Secret value cannot be empty")));
    }
    Ok(())
}

/// The answer when no pending, unexpired slot took the deposit.
pub fn deposit_outcome(rows_affected: u64) -> (r: Result<(), ApiError>)
    ensures
        rows_affected == 0 ==> (r matches Err(ApiError::Gone(m)) && m@
            == "Slot has already been used or has expired"@),
        rows_affected != 0 ==> r is Ok,
{
    if rows_affected == 0 {
        return Err(ApiError::Gone(owned("Slot has already been used or has expired")));
    }
    Ok(())
}

} // verus!
