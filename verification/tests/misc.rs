use conmonrs::attach::{
    attach_packets, attach_read_action, client_stdin, done_write_ok, packet_step,
    AttachReadAction, PacketStep, WriteOutcome, PACKET_BUF_SIZE,
};
use conmonrs::console::{Console, ConsoleError};
use conmonrs::container_io::{
    collect_message, read_action, Message, Pipe, ReadAction, ReadOutcome, EAGAIN, EBADF, EIO,
    MAX_STDIO_STREAM_SIZE,
};
use conmonrs::container_log::{ContainerLog, LogDriver, LogDriverRequest, LogDriverType};
use conmonrs::inactivity::{wait_step, Inactivity, WaitStep};
use conmonrs::init::{oom_score_outcome, InitError, IoErrorKind, OOM_SCORE_ADJ, OOM_SCORE_ADJ_PATH};
use conmonrs::journal::{Journal, JournalError, JournaldLogger};
use conmonrs::listener::{short_socket_path, socket_parts, ListenerError};
use conmonrs::pidwatch::{Event, PidWatch, PidWatchError};
use conmonrs::server::{
    bundle_pidfile, create_failure_message, exec_deadline, exec_sync_response, worker_threads,
};
use conmonrs::child::ExitChannelData;
use conmonrs::text::{contains_str, nth_field, strip_prefix_str};

#[test]
fn attach_packets_cut_output() {
    let data = vec![7u8; PACKET_BUF_SIZE + 10];
    let packets = attach_packets(Pipe::StdErr, &data);
    assert_eq!(packets.len(), 2);
    assert_eq!(packets[0].len(), PACKET_BUF_SIZE);
    assert_eq!(packets[0][0], 3);
    assert_eq!(packets[1].len(), 12);
    let joined: Vec<u8> = packets.iter().flat_map(|p| p[1..].to_vec()).collect();
    assert_eq!(joined, data);
    assert!(attach_packets(Pipe::StdOut, b"").is_empty());
    assert_eq!(attach_packets(Pipe::StdOut, b"hi"), vec![vec![2, b'h', b'i']]);
}

#[test]
fn attach_client_input() {
    assert_eq!(client_stdin(b"abc\0def"), b"abc".to_vec());
    assert_eq!(client_stdin(b"abc"), b"abc".to_vec());
    assert_eq!(attach_read_action(ReadOutcome::Bytes(3), false), AttachReadAction::Forward);
    assert_eq!(attach_read_action(ReadOutcome::Bytes(0), true), AttachReadAction::CancelAndStop);
    assert_eq!(attach_read_action(ReadOutcome::Bytes(0), false), AttachReadAction::Pause);
    assert_eq!(attach_read_action(ReadOutcome::Failed(Some(EIO)), false), AttachReadAction::Stop);
    assert_eq!(attach_read_action(ReadOutcome::Failed(Some(EBADF)), false), AttachReadAction::Fail);
    assert_eq!(attach_read_action(ReadOutcome::Failed(Some(EAGAIN)), false), AttachReadAction::Retry);
    assert_eq!(attach_read_action(ReadOutcome::Failed(Some(1)), false), AttachReadAction::Report);
    assert_eq!(packet_step(WriteOutcome::WouldBlock), PacketStep::Next);
    assert_eq!(packet_step(WriteOutcome::BrokenPipe), PacketStep::DropRest);
    assert_eq!(packet_step(WriteOutcome::Failed), PacketStep::Fail);
    assert!(done_write_ok(WriteOutcome::BrokenPipe));
    assert!(!done_write_ok(WriteOutcome::Failed));
}

#[test]
fn container_io_collects_within_limit() {
    let mut out = Vec::new();
    assert!(collect_message(&mut out, Message::Data(b"ab".to_vec(), Pipe::StdOut)));
    assert!(collect_message(&mut out, Message::Data(b"c".to_vec(), Pipe::StdErr)));
    assert_eq!(out, b"abc".to_vec());
    assert!(!collect_message(&mut out, Message::Done));
    let big = vec![0u8; MAX_STDIO_STREAM_SIZE - 3];
    assert!(!collect_message(&mut out, Message::Data(big, Pipe::StdOut)));
    assert_eq!(out.len(), 3);
    assert_eq!(Pipe::StdOut.as_str(), "stdout");
    assert_eq!(Pipe::StdErr.as_str(), "stderr");
}

#[test]
fn container_io_read_actions() {
    assert_eq!(read_action(ReadOutcome::Bytes(0)), ReadAction::Finish);
    assert_eq!(read_action(ReadOutcome::Bytes(5)), ReadAction::Forward);
    assert_eq!(read_action(ReadOutcome::Failed(Some(EIO))), ReadAction::Finish);
    assert_eq!(read_action(ReadOutcome::Failed(Some(EBADF))), ReadAction::Fail);
    assert_eq!(read_action(ReadOutcome::Failed(Some(EAGAIN))), ReadAction::Retry);
    assert_eq!(read_action(ReadOutcome::Failed(Some(22))), ReadAction::Report);
    assert_eq!(read_action(ReadOutcome::Failed(None)), ReadAction::Fail);
}

#[test]
fn container_log_drivers() {
    let requests = vec![
        LogDriverRequest {
            typ: LogDriverType::ContainerRuntimeInterface,
            path: "/l/cri.log".to_string(),
            max_size: 0,
        },
        LogDriverRequest { typ: LogDriverType::Json, path: "/l/j.log".to_string(), max_size: 100 },
        LogDriverRequest { typ: LogDriverType::Journald, path: String::new(), max_size: 5 },
    ];
    let log = ContainerLog::from(&requests);
    assert!(log.has_drivers());
    assert_eq!(log.drivers().len(), 3);
    match &log.drivers()[0] {
        LogDriver::ContainerRuntimeInterface(l) => {
            assert_eq!(l.path(), "/l/cri.log");
            assert_eq!(l.max_log_size(), None);
        }
        _ => panic!("CRI driver expected"),
    }
    match &log.drivers()[1] {
        LogDriver::Json(l) => assert_eq!(l.max_log_size(), Some(100)),
        _ => panic!("JSON driver expected"),
    }
    assert!(matches!(log.drivers()[2], LogDriver::Journald(_)));
    assert!(!ContainerLog::new().has_drivers());
}

#[test]
fn console_handshake() {
    let mut c = Console::new("/tmp/conmon-term-abcdefg.sock".to_string());
    assert_eq!(c.path(), "/tmp/conmon-term-abcdefg.sock");
    assert!(c.has_socket());
    assert_eq!(c.wait_connected(0), None);
    assert_eq!(c.wait_connected(59), None);
    assert_eq!(c.receive_fd(1), Ok(()));
    assert!(!c.has_socket());
    assert_eq!(c.wait_connected(0), Some(Ok(())));
    assert_eq!(c.wait_connected(60), Some(Ok(())));
    assert_eq!(Console::setup_fifo(), Err(ConsoleError::Unimplemented));
}

#[test]
fn console_handshake_without_descriptor() {
    let mut c = Console::new("/tmp/conmon-term-hijklmn.sock".to_string());
    assert_eq!(c.receive_fd(0), Err(ConsoleError::NoFileDescriptor));
    assert!(!c.has_socket());
    assert_eq!(c.wait_connected(1), Some(Err(ConsoleError::NotConnected)));
}

#[test]
fn console_wait_times_out() {
    let c = Console::new("/tmp/conmon-term-opqrstu.sock".to_string());
    assert_eq!(c.wait_connected(60), Some(Err(ConsoleError::TimedOut)));
    assert_eq!(c.wait_connected(61), Some(Err(ConsoleError::TimedOut)));
    assert!(c.has_socket());
}

#[test]
fn inactivity_notifies_on_change() {
    let mut t = Inactivity::new();
    assert!(t.no_activity());
    assert!(t.increment());
    assert!(!t.increment());
    assert!(!t.no_activity());
    assert!(!t.decrement());
    assert!(t.decrement());
    assert!(t.no_activity());
    let mut d = Inactivity::disabled();
    assert!(!d.no_activity());
    assert!(!d.increment());
    assert_eq!(wait_step(false, false), WaitStep::WaitForChange);
    assert_eq!(wait_step(true, false), WaitStep::WaitForTimeout);
    assert_eq!(wait_step(true, true), WaitStep::Done);
}

#[test]
fn set_oom_success() {
    assert_eq!(OOM_SCORE_ADJ_PATH, "/proc/self/oom_score_adj");
    assert_eq!(OOM_SCORE_ADJ, "-1000");
    assert_eq!(oom_score_outcome(Ok(()), Ok(())), Ok(()));
}

#[test]
fn set_oom_success_write_all_fails_permission_denied() {
    assert_eq!(oom_score_outcome(Ok(()), Err(IoErrorKind::PermissionDenied)), Ok(()));
}

#[test]
fn set_oom_failed_create_file() {
    assert!(oom_score_outcome(Err(IoErrorKind::Other), Ok(())).is_err());
    assert_eq!(oom_score_outcome(Err(IoErrorKind::Other), Ok(())), Err(InitError::CreateFile));
}

#[test]
fn set_oom_failed_write_all_file() {
    assert!(oom_score_outcome(Ok(()), Err(IoErrorKind::Other)).is_err());
    assert_eq!(oom_score_outcome(Ok(()), Err(IoErrorKind::Other)), Err(InitError::Write));
}

#[test]
fn test_journald_logger_new() {
    JournaldLogger::new(Some(1000)).ok().unwrap();
}

#[test]
fn test_journald_logger_write() {
    let logger = JournaldLogger::new(Some(1000)).ok().unwrap();
    let data = b"Test log message\n";
    assert_eq!(logger.entry(Pipe::StdOut, data), Ok("Test log message\n"));
    assert_eq!(Journal::message(&[0xff]), Err(JournalError::InvalidUtf8));
}

#[test]
fn shorten_socket_path_success() {
    let last = "bar";
    let (parent, name) = socket_parts("/foo/bar").unwrap();
    assert_eq!(parent, "/foo");
    assert_eq!(name, last);
    let fd = 17;
    let res_file_path = short_socket_path(fd, &name);
    assert!(res_file_path.ends_with(last));
    assert!(res_file_path.contains(&fd.to_string()));
    assert_eq!(res_file_path, "/proc/self/fd/17/bar");
}

#[test]
fn listener_refuses_root_and_dotdot() {
    assert_eq!(socket_parts("/").err(), Some(ListenerError::RootPath));
    assert_eq!(socket_parts("/foo/..").err(), Some(ListenerError::NoFileName));
}

#[test]
fn pidwatch_events() {
    assert_eq!(Event::from_exit(0, 0, true), Event::OOMKilled);
    assert_eq!(Event::from_exit(0, 9, false), Event::Signaled(9));
    assert_eq!(Event::from_exit(3, 0, false), Event::Exited(3));
    assert_eq!(Event::from_exit(0, 0, false), Event::Exited(0));
    assert_eq!(Event::from_exit(1, 2, false), Event::Error(PidWatchError::InvalidEvent));
    assert_eq!(PidWatch::new(55).pid(), 55);
}

#[test]
fn server_exec_sync() {
    assert_eq!(exec_deadline(0), None);
    assert_eq!(exec_deadline(10), Some(10));
    let r = exec_sync_response(None);
    assert_eq!(r.exit_code, -2);
    assert!(!r.timed_out);
    let exit = ExitChannelData { exit_code: 0, oomed: false, timed_out: true };
    let r = exec_sync_response(Some((b"out".to_vec(), b"err".to_vec(), false, exit)));
    assert_eq!(r.stdout, b"out".to_vec());
    assert_eq!(r.stderr, b"err".to_vec());
    assert_eq!(r.exit_code, 0);
    assert!(r.timed_out);
    assert_eq!(worker_threads(16), 4);
    assert_eq!(worker_threads(2), 2);
    assert_eq!(bundle_pidfile("/run/b"), "/run/b/pidfile");
    assert_eq!(create_failure_message("failed", b"").unwrap(), "failed");
    assert_eq!(create_failure_message("failed", b"oops").unwrap(), "failed: oops");
    assert!(create_failure_message("failed", &[0xff]).is_none());
}

#[test]
fn text_helpers() {
    assert_eq!(strip_prefix_str("oom 5", "oom "), Some("5"));
    assert_eq!(strip_prefix_str("oo", "oom "), None);
    assert!(contains_str("name=systemd,memory", "memory"));
    assert!(!contains_str("cpu", "memory"));
    assert!(contains_str("abc", ""));
    assert_eq!(nth_field("a:b:c:d", ':', 2), Some("c"));
    assert_eq!(nth_field("a::c", ':', 1), Some(""));
    assert_eq!(nth_field("a", ':', 1), None);
    assert_eq!(nth_field("", ':', 0), Some(""));
}
