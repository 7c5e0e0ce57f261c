use vstd::prelude::*;
use crate::ids::{fresh_id, signature_for, signature_text, uuid_text, uuid_text_of};

verus! {

/// Simulated settlement of loans on a public chain.
pub struct BlockchainService;

impl BlockchainService {
    /// Simulates recording a new loan on chain and returns the transaction
    /// signature.
    pub fn log_loan_initialization(loan_id: u128, amount: u64, borrower: &str) -> (r: Result<String, String>)
        ensures
            r matches Ok(s) && exists|id: u128| s@ == signature_text(id),
    {
        Ok(signature_for(fresh_id()))
    }

    /// Simulates recording a repayment (or a funding) of a loan on chain.
    pub fn log_loan_repayment(loan_id: u128, signature: &str) -> (r: Result<(), String>)
        ensures
            r is Ok,
    {
        Ok(())
    }
}

/// Simulated mobile-money payment gateway.
pub struct MpesaService;

/// The gateway's answer to a payment request.
#[derive(Debug)]
pub struct MpesaResponse {
    pub checkout_request_id: String,
    pub response_code: String,
    pub customer_message: String,
}

impl MpesaService {
    /// Simulates pushing a payment prompt of `amount` cents to `phone_number`;
    /// the request is always accepted.
    pub fn initiate_stk_push(phone_number: &str, amount: u64) -> (r: Result<MpesaResponse, String>)
        ensures
            r matches Ok(resp) && {
                &&& exists|id: u128| resp.checkout_request_id@ == uuid_text_of(id)
                &&& resp.response_code@ == "0"@
                &&& resp.customer_message@ == "Success. Request accepted for processing"@
            },
    {
        Ok(
            MpesaResponse {
                checkout_request_id: uuid_text(fresh_id()),
                response_code: String::from_str("0"),
                customer_message: String::from_str("Success. Request accepted for processing"),
            },
        )
    }

    /// Simulates checking a payment's outcome; every payment succeeds.
    pub fn verify_payment(checkout_request_id: &str) -> (r: Result<bool, String>)
        ensures
            r == Ok::<bool, String>(true),
    {
        Ok(true)
    }
}

/// Side calls whose failure must not fail the operation that makes them: the
/// outcome is looked at and dropped.
pub fn attempt_side_call<T>(outcome: Result<T, String>) {
    match outcome {
        Ok(_) => {},
        Err(_) => {},
    }
}

} // verus!
