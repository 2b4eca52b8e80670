use conmonrs::streaming::{
    error_frame, client_message_action, client_payload, frame, path_for, stream_action, ClientMessage,
    ErrorMessage, Session, StreamAction, StreamEvent, StreamFlags, StreamingServer, CLOSE_BYTE,
    RESIZE_BYTE, STDERR_BYTE, STDIN_BYTE, STDOUT_BYTE,
};

fn flags(stdin: bool, stdout: bool, stderr: bool) -> StreamFlags {
    StreamFlags { stdin, stdout, stderr }
}

#[test]
fn streaming_paths() {
    assert_eq!(path_for("exec"), "/exec/{token}");
    assert_eq!(path_for("port-forward"), "/port-forward/{token}");
}

#[test]
fn streaming_urls_and_sessions() {
    let mut s: StreamingServer<u32, u32> = StreamingServer::new();
    assert!(s.needs_start());
    s.set_started(34567);
    assert!(!s.needs_start());
    assert_eq!(s.port(), 34567);

    let (key, url) = s.exec_url(7, [0x11; 16]);
    let uuid = uuid::Uuid::from_u128(key);
    assert_eq!(url, "http://127.0.0.1:34567/exec/11111111-1111-4111-9111-111111111111");
    assert_eq!(uuid.get_version_num(), 4);
    assert_eq!(key, uuid::Builder::from_random_bytes([0x11; 16]).into_uuid().as_u128());

    match s.take_session(key) {
        Some(Session::Exec(v)) => assert_eq!(v, 7),
        _ => panic!("exec session expected"),
    }
    // A session serves one connection only.
    assert!(s.take_session(key).is_none());

    let (key, url) = s.port_forward_url("/var/run/netns/x".to_string(), [0xff; 16]);
    assert_eq!(key, 0xffff_ffff_ffff_4fff_bfff_ffff_ffff_ffffu128);
    assert!(url.starts_with("http://127.0.0.1:34567/port-forward/"));
    match s.take_session(key) {
        Some(Session::PortForward(p)) => assert_eq!(p.net_ns_path, "/var/run/netns/x"),
        _ => panic!("port forward session expected"),
    }
}

#[test]
fn streaming_url_for_formats_uuid() {
    let mut s: StreamingServer<(), ()> = StreamingServer::new();
    s.set_started(80);
    let key = 0x67e5_5044_10b1_426f_9247_bb68_0e5f_e0c8u128;
    assert_eq!(
        s.url_for("attach", key),
        "http://127.0.0.1:80/attach/67e55044-10b1-426f-9247-bb680e5fe0c8"
    );
}

#[test]
fn streaming_frames() {
    assert_eq!(frame(STDOUT_BYTE, b"abc"), vec![1, b'a', b'b', b'c']);
    assert_eq!(frame(STDERR_BYTE, b""), vec![2]);
    assert_eq!(client_payload(&[0, 5, 6]), &[5, 6]);
}

#[test]
fn streaming_actions() {
    let all = flags(true, true, true);
    assert_eq!(stream_action(all, &StreamEvent::Client(vec![STDIN_BYTE, 1])), StreamAction::Stdin);
    assert_eq!(stream_action(all, &StreamEvent::Client(vec![RESIZE_BYTE])), StreamAction::Resize);
    assert_eq!(stream_action(all, &StreamEvent::Client(vec![CLOSE_BYTE])), StreamAction::Close);
    assert_eq!(stream_action(all, &StreamEvent::Client(vec![9])), StreamAction::Unknown(9));
    assert_eq!(stream_action(all, &StreamEvent::Client(vec![])), StreamAction::Ignore);
    assert_eq!(
        stream_action(flags(false, true, true), &StreamEvent::Client(vec![CLOSE_BYTE])),
        StreamAction::Ignore
    );
    assert_eq!(stream_action(all, &StreamEvent::Stdout(vec![1])), StreamAction::Send(STDOUT_BYTE));
    assert_eq!(
        stream_action(flags(true, false, true), &StreamEvent::Stdout(vec![1])),
        StreamAction::Ignore
    );
    assert_eq!(stream_action(all, &StreamEvent::Stderr(vec![1])), StreamAction::Send(STDERR_BYTE));
    assert_eq!(stream_action(all, &StreamEvent::Exited(0)), StreamAction::Close);
    assert_eq!(stream_action(all, &StreamEvent::Exited(2)), StreamAction::Fail(2));
    assert_eq!(stream_action(all, &StreamEvent::Cancelled), StreamAction::Close);
}

#[test]
fn streaming_client_messages() {
    assert_eq!(client_message_action(ClientMessage::Binary(3)), (true, true));
    assert_eq!(client_message_action(ClientMessage::Binary(0)), (true, false));
    assert_eq!(client_message_action(ClientMessage::Close), (false, false));
    assert_eq!(client_message_action(ClientMessage::Other), (true, false));
}

#[test]
fn streaming_error_message() {
    let m = ErrorMessage::new(137);
    assert_eq!(m.status, "Failure");
    assert_eq!(m.reason, "NonZeroExitCode");
    assert_eq!(m.message, "command terminated with non-zero exit code");
    assert_eq!(m.details.causes.len(), 1);
    assert_eq!(m.details.causes[0].reason, "ExitCode");
    assert_eq!(m.details.causes[0].message, "137");
    assert_eq!(ErrorMessage::new(-1).details.causes[0].message, "-1");
}

#[test]
fn streaming_error_frame_is_the_failure_status() {
    let f = error_frame(137);
    assert_eq!(f[0], 3);
    assert_eq!(
        String::from_utf8(f[1..].to_vec()).unwrap(),
        "{\"status\":\"Failure\",\"reason\":\"NonZeroExitCode\",\"details\":{\"causes\":[{\"reason\":\"ExitCode\",\"message\":\"137\"}]},\"message\":\"command terminated with non-zero exit code\"}"
    );
    let v: serde_json::Value = serde_json::from_slice(&error_frame(-1)[1..]).unwrap();
    assert_eq!(v["details"]["causes"][0]["message"], "-1");
    assert_eq!(v["status"], "Failure");
}

#[test]
fn streaming_attach_url_uses_random_bytes() {
    let mut s: StreamingServer<(), u8> = StreamingServer::new();
    s.set_started(8080);
    let random = [0u8, 1, 2, 3, 4, 5, 6, 7, 8, 9, 10, 11, 12, 13, 14, 15];
    let (key, url) = s.attach_url(5, random);
    assert_eq!(url, "http://127.0.0.1:8080/attach/00010203-0405-4607-8809-0a0b0c0d0e0f");
    assert_eq!(key, uuid::Builder::from_random_bytes(random).into_uuid().as_u128());
}
