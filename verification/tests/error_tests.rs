use usda_ledger::errors::AppError;

#[test]
fn test_database_error_response() {
    let error = AppError::DatabaseError("row not found".to_string());
    assert_eq!(error.status_code(), 500);
}

#[test]
fn test_not_found_error_response() {
    let error = AppError::NotFound("Resource not found".to_string());
    assert_eq!(error.status_code(), 404);
}

#[test]
fn test_invalid_input_error_response() {
    let error = AppError::InvalidInput("Invalid input".to_string());
    assert_eq!(error.status_code(), 400);
}

#[test]
fn test_invalid_amount_error_response() {
    let error = AppError::InvalidAmount("Invalid amount".to_string());
    assert_eq!(error.status_code(), 400);
}

#[test]
fn test_invalid_nonce_error_response() {
    let error = AppError::InvalidNonce("Invalid nonce".to_string());
    assert_eq!(error.status_code(), 400);
}

#[test]
fn test_invalid_signature_error_response() {
    let error = AppError::InvalidSignature("Invalid signature".to_string());
    assert_eq!(error.status_code(), 401);
}

#[test]
fn test_insufficient_balance_error_response() {
    let error = AppError::InsufficientBalance("Insufficient balance".to_string());
    assert_eq!(error.status_code(), 400);
}

#[test]
fn test_web_socket_error_response() {
    let error = AppError::WebSocketError("WebSocket error".to_string());
    assert_eq!(error.status_code(), 500);
}

#[test]
fn test_error_messages() {
    let error = AppError::NotFound("Account not found".to_string());
    assert_eq!(error.message(), "Not found: Account not found");
    let error = AppError::InsufficientBalance("Insufficient balance".to_string());
    assert_eq!(error.message(), "Insufficient balance: Insufficient balance");
}
