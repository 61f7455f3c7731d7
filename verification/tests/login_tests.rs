use login_server::config::AccountRecord;
use login_server::login::{authenticate, parse_login_request, AuthResult, LoginRequest, BANNED_AUTHORITY};

fn request(account: &str, password: &str) -> LoginRequest {
    LoginRequest { account: account.as_bytes().to_vec(), password: password.as_bytes().to_vec() }
}

#[test]
fn parse_login_request_reads_account_and_password() {
    let payload: Vec<u8> = vec![0xF3, 0x03, 0x00, b'b', b'o', b'b', 0x02, 0x00, b'p', b'w', 0x99];
    assert_eq!(parse_login_request(&payload), Some(request("bob", "pw")));
}

#[test]
fn parse_login_request_empty_fields() {
    let payload: Vec<u8> = vec![0xF3, 0x00, 0x00, 0x00, 0x00];
    assert_eq!(parse_login_request(&payload), Some(request("", "")));
}

#[test]
fn parse_login_request_rejects_short_or_foreign_payloads() {
    assert_eq!(parse_login_request(&[0xF3, 0x03, 0x00, b'b', b'o']), None);
    assert_eq!(parse_login_request(&[0xF3, 0x01, 0x00, b'b', 0x02, 0x00, b'p']), None);
    assert_eq!(parse_login_request(&[0x01, 0x00, 0x00, 0x00, 0x00]), None);
    assert_eq!(parse_login_request(&[]), None);
}

#[test]
fn authenticate_decisions() {
    let ok = AccountRecord { password: "pw".to_string(), authority: 1 };
    let banned = AccountRecord { password: "pw".to_string(), authority: BANNED_AUTHORITY };
    assert_eq!(authenticate(&request("bob", "pw"), None, false), AuthResult::NotFound);
    assert_eq!(authenticate(&request("bob", "px"), Some(&ok), false), AuthResult::InvalidPassword);
    assert_eq!(authenticate(&request("bob", "p"), Some(&ok), false), AuthResult::InvalidPassword);
    assert_eq!(authenticate(&request("bob", "pw"), Some(&banned), false), AuthResult::Banned);
    assert_eq!(authenticate(&request("bob", "pw"), Some(&ok), true), AuthResult::InGame);
    assert_eq!(authenticate(&request("bob", "pw"), Some(&ok), false), AuthResult::Success);
}

#[test]
fn auth_result_codes() {
    assert_eq!(AuthResult::Success.code(), 0x01);
    assert_eq!(AuthResult::NotFound.code(), 0x02);
    assert_eq!(AuthResult::InvalidPassword.code(), 0x03);
    assert_eq!(AuthResult::Banned.code(), 0x04);
    assert_eq!(AuthResult::InGame.code(), 0x05);
    assert_eq!(AuthResult::Error.code(), 0xFF);
}
