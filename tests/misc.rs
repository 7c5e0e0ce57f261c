use microfund::chain::{initialize_loan, repay_loan, same_key, LoanError};
use microfund::error::AppError;
use microfund::i18n::{t, translations, Language};
use microfund::ids::signature_for;
use microfund::services::{BlockchainService, MpesaService};

#[test]
fn error_status_codes_and_messages() {
    let cases = [
        (AppError::InternalServerError, 500, "Internal Server Error"),
        (AppError::BadRequest("bad amount".to_string()), 400, "bad amount"),
        (AppError::Unauthorized, 401, "Unauthorized"),
        (AppError::NotFound, 404, "Resource Not Found"),
        (AppError::Conflict("taken".to_string()), 409, "taken"),
    ];
    for (e, code, msg) in cases {
        assert_eq!(e.status_code(), code);
        assert_eq!(e.error_message(), msg);
    }
}

#[test]
fn translations_in_both_languages() {
    assert_eq!(t("welcome", &Language::English), "Financial Freedom for Everyone");
    assert_eq!(t("welcome", &Language::Swahili), "Uhuru wa Kifedha kwa Kila Mtu");
    assert_eq!(t("fund", &Language::Swahili), "Gharamia");
    assert_eq!(t("logout", &Language::English), "Logout");
}

#[test]
fn unknown_key_is_shown_as_is() {
    assert_eq!(t("no_such_key", &Language::English), "no_such_key");
    assert_eq!(t("", &Language::Swahili), "");
    assert_eq!(translations().len(), 16);
}

#[test]
fn signature_has_prefix_and_eight_characters_of_the_uuid() {
    let id = 0x1234_5678_9abc_def0_1234_5678_9abc_def0u128;
    assert_eq!(signature_for(id), "5tZ...12345678");
}

#[test]
fn simulated_chain_and_payment_calls() {
    let sig = BlockchainService::log_loan_initialization(1, 500, "alice").unwrap();
    assert!(sig.starts_with("5tZ..."));
    assert_eq!(sig.len(), 14);
    assert!(BlockchainService::log_loan_repayment(1, "FUNDING_SIG").is_ok());
    let resp = MpesaService::initiate_stk_push("+254700000000", 1_000).unwrap();
    assert_eq!(resp.response_code, "0");
    assert_eq!(resp.customer_message, "Success. Request accepted for processing");
    assert!(uuid::Uuid::parse_str(&resp.checkout_request_id).is_ok());
    assert_eq!(MpesaService::verify_payment(&resp.checkout_request_id), Ok(true));
}

#[test]
fn chain_loan_is_repaid_once_by_its_borrower() {
    let borrower = [7u8; 32];
    let mut loan = initialize_loan(borrower, 5_000, "Seeds".to_string(), 100);
    assert!(!loan.repaid);
    assert_eq!(loan.created_at, 100);
    assert_eq!(repay_loan(&mut loan, [8u8; 32], 150), Err(LoanError::NotBorrower));
    assert!(!loan.repaid);
    assert_eq!(repay_loan(&mut loan, borrower, 200), Ok(()));
    assert!(loan.repaid);
    assert_eq!(loan.repaid_at, 200);
    assert_eq!(repay_loan(&mut loan, borrower, 300), Err(LoanError::AlreadyRepaid));
    assert_eq!(loan.repaid_at, 200);
}

#[test]
fn keys_compare_bytewise() {
    let a = [1u8; 32];
    let mut b = [1u8; 32];
    assert!(same_key(&a, &b));
    b[31] = 2;
    assert!(!same_key(&a, &b));
}

#[test]
fn identity_text_is_hyphenated_lower_hex() {
    let id = 0x0123_4567_89ab_cdef_fedc_ba98_7654_3210u128;
    assert_eq!(uuid::Uuid::from_u128(id).to_string(), "01234567-89ab-cdef-fedc-ba9876543210");
    assert_eq!(signature_for(id), "5tZ...01234567");
    assert_eq!(signature_for(0xabcdef12u128 << 96), "5tZ...abcdef12");
}
