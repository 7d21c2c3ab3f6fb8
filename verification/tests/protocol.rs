use acp_agent::failure::Failure;
use acp_agent::server::protocol::{
    check_parent_mode, default_socket_path, must_make_parent, payload_length, read_frame,
    socket_path_from, validate_socket_path, write_frame, FramePart, FrameStep, ParentFound,
    MAX_FRAME_SIZE, MAX_SOCKET_PATH_BYTES,
};

fn header(frame: &[u8]) -> [u8; 4] {
    [frame[0], frame[1], frame[2], frame[3]]
}

fn read_stream(stream: &[u8]) -> Result<Vec<u8>, Failure> {
    let mut received = Vec::new();
    loop {
        match read_frame(&received)? {
            FrameStep::Payload(payload) => return Ok(payload),
            FrameStep::Read { part, count } => {
                assert!(count > 0);
                match stream.get(received.len()..received.len() + count) {
                    Some(bytes) => received.extend_from_slice(bytes),
                    None => return Err(part.report(Failure::new("early eof".to_string()))),
                }
            }
        }
    }
}

#[test]
fn frame_reader_rejects_truncated_payload() {
    let mut stream = 4_u32.to_be_bytes().to_vec();
    stream.extend_from_slice(b"{}\n");
    let error = read_stream(&stream).unwrap_err();
    assert!(error.message.contains("truncated"));
}

#[test]
fn every_cut_of_a_frame_is_refused() {
    let frame = write_frame(b"{\"version\":1}").unwrap();
    for at in 0..frame.len() {
        let error = read_stream(&frame[..at]).unwrap_err();
        assert_eq!(
            error.message,
            if at < 4 {
                "failed to read protocol frame length"
            } else {
                "truncated protocol frame payload"
            }
        );
    }
    let mut followed = frame.clone();
    followed.extend_from_slice(b"more");
    assert_eq!(read_stream(&followed).unwrap(), b"{\"version\":1}");
    match read_frame(&followed).unwrap() {
        FrameStep::Payload(payload) => assert_eq!(payload, b"{\"version\":1}"),
        other => panic!("the frame is complete: {other:?}"),
    }
}

#[test]
fn frame_roundtrip_preserves_payloads() {
    for payload in [b"{}".to_vec(), vec![7; 70_000], vec![1; MAX_FRAME_SIZE]] {
        let frame = write_frame(&payload).unwrap();
        assert_eq!(frame[..4], (payload.len() as u32).to_be_bytes());
        let length = payload_length(header(&frame)).unwrap();
        assert_eq!(length, payload.len());
        assert_eq!(frame[4..], payload[..]);
        assert_eq!(read_stream(&frame).unwrap(), payload);
    }
}

#[test]
fn frame_reader_rejects_oversized_payload() {
    let error = read_stream(&((MAX_FRAME_SIZE as u32) + 1).to_be_bytes()).unwrap_err();
    assert!(error.message.contains("exceeds"));
    let error = read_stream(&[0, 0, 0, 0]).unwrap_err();
    assert_eq!(error.message, "protocol frame has an empty payload");
    let error = payload_length(((MAX_FRAME_SIZE as u32) + 1).to_be_bytes()).unwrap_err();
    assert!(error.message.contains("exceeds"));
    let error = payload_length([255, 255, 255, 255]).unwrap_err();
    assert_eq!(
        error.message,
        "protocol frame payload exceeds 1048576 bytes"
    );
    let error = payload_length([0, 0, 0, 0]).unwrap_err();
    assert_eq!(error.message, "protocol frame has an empty payload");
}

#[test]
fn frame_writer_rejects_oversized_payload() {
    let error = write_frame(&vec![b'x'; MAX_FRAME_SIZE + 1]).unwrap_err();
    assert!(error.message.contains("exceeds"));
}

#[test]
fn frame_faults_name_their_place() {
    for (part, words) in [
        (FramePart::ReadLength, "failed to read protocol frame length"),
        (FramePart::ReadPayload, "truncated protocol frame payload"),
        (FramePart::Decode, "invalid protocol JSON payload"),
        (
            FramePart::Encode,
            "failed to serialize protocol JSON payload",
        ),
        (
            FramePart::WriteLength,
            "failed to write protocol frame length",
        ),
        (
            FramePart::WritePayload,
            "failed to write protocol frame payload",
        ),
        (FramePart::Flush, "failed to flush protocol frame"),
    ] {
        let error = part.report(Failure::new("early eof".to_string()));
        assert_eq!(error.message, words);
        assert_eq!(error.causes, vec!["early eof"]);
    }
}

#[test]
fn default_socket_path_is_deterministic_and_user_scoped() {
    let first = default_socket_path(Some("/run/user/1000"), Some("/cache"), Some("/home")).unwrap();
    let second =
        default_socket_path(Some("/run/user/1000"), Some("/cache"), Some("/home")).unwrap();
    assert_eq!(first, second);
    assert!(first.starts_with('/'));
    assert_eq!(first.rsplit('/').next(), Some("daemon.sock"));
    assert_eq!(first, "/run/user/1000/acp-agent/daemon/daemon.sock");
    assert_eq!(
        default_socket_path(None, Some("/cache"), Some("/home")).unwrap(),
        "/cache/acp-agent/daemon/daemon.sock"
    );
    assert_eq!(
        default_socket_path(None, None, Some("/home")).unwrap(),
        "/home/acp-agent/daemon/daemon.sock"
    );
    assert_eq!(
        default_socket_path(None, None, None).unwrap_err().message,
        "failed to locate a user-scoped runtime directory"
    );
}

#[test]
fn socket_override_validation_rejects_relative_empty_and_too_long_paths() {
    let found = || Ok("/run/daemon.sock".to_string());
    let relative = socket_path_from(Some("daemon.sock"), found(), MAX_SOCKET_PATH_BYTES);
    assert!(relative.unwrap_err().message.contains("absolute"));

    let empty = socket_path_from(Some(""), found(), MAX_SOCKET_PATH_BYTES);
    assert!(empty.unwrap_err().message.contains("empty"));

    let long_path = format!("/{}", "x".repeat(MAX_SOCKET_PATH_BYTES + 1));
    let error = socket_path_from(Some(&long_path), found(), MAX_SOCKET_PATH_BYTES).unwrap_err();
    assert!(error.message.contains("too long"));
}

#[test]
fn sockets_are_placed() {
    let place = socket_path_from(
        Some("/tmp/a/daemon.sock"),
        Err(Failure::new("unused".to_string())),
        MAX_SOCKET_PATH_BYTES,
    )
    .unwrap();
    assert_eq!(place.path, "/tmp/a/daemon.sock");
    assert_eq!(place.parent, "/tmp/a");
    let error = socket_path_from(
        None,
        Err(Failure::new("nowhere".to_string())),
        MAX_SOCKET_PATH_BYTES,
    )
    .unwrap_err();
    assert_eq!(error.message, "nowhere");
    assert_eq!(
        validate_socket_path("/", 107).unwrap_err().message,
        "daemon socket path must name a socket file: /"
    );
    assert_eq!(
        validate_socket_path("/a\0b", 107).unwrap_err().message,
        "daemon socket path must not contain NUL"
    );
    assert!(validate_socket_path("/ääää", 9).is_ok());
    assert_eq!(
        validate_socket_path("/ääää", 8).unwrap_err().message,
        "daemon socket path is too long (maximum is 8 bytes): /ääää"
    );
}

#[test]
fn socket_directories_must_be_private() {
    assert!(check_parent_mode(0o40700, "/d").is_ok());
    assert_eq!(
        check_parent_mode(0o40755, "/d").unwrap_err().message,
        "daemon socket parent must have mode 0700 (found 0755): /d"
    );
    assert_eq!(
        check_parent_mode(0o7, "/d").unwrap_err().message,
        "daemon socket parent must have mode 0700 (found 0007): /d"
    );
    assert!(!must_make_parent(ParentFound::Directory, "/d").unwrap());
    assert!(must_make_parent(ParentFound::Nothing, "/d").unwrap());
    assert_eq!(
        must_make_parent(ParentFound::Other, "/d")
            .unwrap_err()
            .message,
        "daemon socket parent is not a directory: /d"
    );
    assert_eq!(
        must_make_parent(
            ParentFound::Unknown(Failure::new("denied".to_string())),
            "/d"
        )
        .unwrap_err()
        .chain(),
        "failed to inspect daemon socket directory /d: denied"
    );
}
