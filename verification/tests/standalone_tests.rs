use login_server::standalone::{deframe, frame, handle, LAST_VERSION};

#[test]
fn main_deframe_valid_packet() {
    // A valid packet: AA 55 [03 00 = length 3 as LE u16] [01 12 05 = payload] 55 AA
    let data: Vec<u8> = vec![0xAA, 0x55, 0x03, 0x00, 0x01, 0x12, 0x05, 0x55, 0xAA];
    let result: Option<Vec<u8>> = deframe(&data);
    assert_eq!(result, Some(vec![0x01, 0x12, 0x05]));
}

#[test]
fn main_deframe_too_short() {
    let data: Vec<u8> = vec![0xAA, 0x55, 0x01];
    let result: Option<Vec<u8>> = deframe(&data);
    assert_eq!(result, None);
}

#[test]
fn main_deframe_wrong_start_markers() {
    let data: Vec<u8> = vec![0xBB, 0x55, 0x01, 0x00, 0x01, 0x55, 0xAA];
    let result: Option<Vec<u8>> = deframe(&data);
    assert_eq!(result, None);
}

#[test]
fn main_deframe_wrong_end_markers() {
    let data: Vec<u8> = vec![0xAA, 0x55, 0x01, 0x00, 0x01, 0x55, 0xBB];
    let result: Option<Vec<u8>> = deframe(&data);
    assert_eq!(result, None);
}

#[test]
fn main_deframe_empty_payload() {
    let data: Vec<u8> = vec![0xAA, 0x55, 0x00, 0x00, 0x55, 0xAA];
    let result: Option<Vec<u8>> = deframe(&data);
    assert_eq!(result, Some(vec![]));
}

#[test]
fn main_frame_valid_payload() {
    let payload: Vec<u8> = vec![0xBB, 0xCC, 0xDD, 0xEE, 0xFF];
    let result: Vec<u8> = frame(&payload);
    assert_eq!(result, vec![0xAA, 0x55, 0x05, 0x00, 0xBB, 0xCC, 0xDD, 0xEE, 0xFF, 0x55, 0xAA]);
}

#[test]
fn main_handle_version_request() {
    let payload: Vec<u8> = vec![0x01, 0xBB];
    let result: Option<Vec<u8>> = handle(&payload);
    assert_eq!(result, Some(vec![0x01, 0x12, 0x05]));
}

#[test]
fn main_handle_unknown_opcode() {
    let payload: Vec<u8> = vec![0x00, 0xBB];
    let result: Option<Vec<u8>> = handle(&payload);
    assert_eq!(result, None);
}

#[test]
fn main_handle_empty_payload() {
    let payload: Vec<u8> = vec![];
    let result: Option<Vec<u8>> = handle(&payload);
    assert_eq!(result, None);
}

#[test]
fn main_frame_roundtrip() {
    let payload: Vec<u8> = vec![0x01, 0x12, 0x05];
    let framed: Vec<u8> = frame(&payload);
    let result: Option<Vec<u8>> = deframe(&framed);
    assert_eq!(result, Some(payload));
}

#[test]
fn standalone_answers_version_requests_only() {
    assert_eq!(handle(&[0xF5]), None);
    assert_eq!(handle(&[0x02, 0x11, 0x05]), None);
    assert_eq!(handle(&[0xF3]), None);
    assert_eq!(handle(&[0xF6]), None);
}

#[test]
fn standalone_version_matches_constant() {
    let reply: Vec<u8> = handle(&[0x01]).expect("version reply");
    assert_eq!(reply[1..3].to_vec(), LAST_VERSION.to_le_bytes().to_vec());
}

#[test]
fn standalone_agrees_with_full_handler_on_version() {
    let download = login_server::config::DownloadConfig {
        ftp_url: String::new(),
        ftp_path: String::new(),
    };
    let full = login_server::protocol::handle(
        &[0x01, 0x07],
        LAST_VERSION,
        &[],
        "t",
        "m",
        &download,
        &[],
        None,
    );
    assert_eq!(handle(&[0x01, 0x07]), full);
}
