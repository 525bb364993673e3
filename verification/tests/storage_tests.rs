use crambo_desktop::storage::{
    delete_token, get_token, invalid_code_error, keyring_error, normalize_code, save_token,
    CredentialError, ACCOUNT_NAME, CODE_EXCHANGE_URL, SERVICE_NAME,
};

#[test]
fn token_lookup_outcomes() {
    assert_eq!(get_token(Ok("jwt".to_string())), Ok(Some("jwt".to_string())));
    assert_eq!(get_token(Err(CredentialError::NoEntry)), Ok(None));
    assert_eq!(
        get_token(Err(CredentialError::Other("locked".to_string()))),
        Err("Failed to get token: locked".to_string())
    );
}

#[test]
fn token_delete_and_save_outcomes() {
    assert_eq!(delete_token(Ok(())), Ok(()));
    assert_eq!(delete_token(Err(CredentialError::NoEntry)), Ok(()));
    assert_eq!(
        delete_token(Err(CredentialError::Other("denied".to_string()))),
        Err("Failed to delete token: denied".to_string())
    );
    assert_eq!(save_token(Ok(())), Ok(()));
    assert_eq!(save_token(Err("full".to_string())), Err("Failed to save token: full".to_string()));
    assert_eq!(keyring_error("no backend"), "Keyring error: no backend");
}

#[test]
fn sign_in_codes_are_trimmed_and_upper_cased() {
    assert_eq!(normalize_code("  ab12cd \n"), Ok("AB12CD".to_string()));
    assert_eq!(normalize_code("XYZ"), Ok("XYZ".to_string()));
    assert_eq!(normalize_code("   "), Err("Code cannot be empty".to_string()));
    assert_eq!(normalize_code(""), Err("Code cannot be empty".to_string()));
    assert_eq!(invalid_code_error("404 Not Found", "no such code"), "Invalid code (404 Not Found): no such code");
}

#[test]
fn credential_store_names() {
    assert_eq!(SERVICE_NAME, "com.crambo.desktop");
    assert_eq!(ACCOUNT_NAME, "auth_token");
    assert_eq!(CODE_EXCHANGE_URL, "https://crambo.app/api/desktop/exchange-code");
}
