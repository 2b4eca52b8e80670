use conmonrs::container_io::Pipe;
use conmonrs::json_log::{JsonLogError, JsonLogger};

/// A JSON log whose file is held in memory.
fn write(sut: &mut JsonLogger, file: &mut Vec<u8>, timestamp: u64, pipe: Pipe, data: &[u8]) {
    let plan = sut.plan_write(timestamp, pipe, data);
    for op in plan.ops {
        if op.reopen {
            file.clear();
        }
        file.extend_from_slice(&op.record);
        sut.set_bytes_written(op.bytes_written);
    }
    assert!(plan.error.is_none());
}

#[test]
fn json_test_json_logger_new() {
    let logger = JsonLogger::new("/tmp/test.log", Some(1000)).unwrap();
    assert_eq!(logger.path(), "/tmp/test.log");
    assert_eq!(logger.max_log_size().unwrap(), 1000);
}

#[test]
fn json_test_json_logger_write() {
    let mut logger = JsonLogger::new("/tmp/test_write.log", Some(1000)).unwrap();
    let mut file = Vec::new();
    write(&mut logger, &mut file, 1700000000, Pipe::StdOut, b"Test log message\n");
    let contents = String::from_utf8(file).unwrap();
    assert!(contents.contains("Test log message"));
}

#[test]
fn json_test_json_logger_reopen() {
    let mut logger = JsonLogger::new("/tmp/test_reopen.log", Some(1000)).unwrap();
    let mut file = Vec::new();
    write(&mut logger, &mut file, 1, Pipe::StdOut, b"Test log message before reopen\n");
    // Reopening truncates the file and restarts the count.
    file.clear();
    logger.set_bytes_written(0);
    write(&mut logger, &mut file, 2, Pipe::StdOut, b"Test log message after reopen\n");
    let contents = String::from_utf8(file).unwrap();
    assert!(contents.contains("Test log message after reopen"));
    assert!(!contents.contains("Test log message before reopen"));
}

#[test]
fn json_record_is_exact() {
    let logger = JsonLogger::new("/tmp/x.log", None).unwrap();
    let plan = logger.plan_write(42, Pipe::StdErr, b"  say \"hi\"\t\n");
    assert!(plan.error.is_none());
    assert_eq!(plan.ops.len(), 1);
    let record = String::from_utf8(plan.ops[0].record.clone()).unwrap();
    assert_eq!(record, "{\"timestamp\":42,\"pipe\":\"stderr\",\"message\":\"say \\\"hi\\\"\"}\n");
    assert_eq!(plan.ops[0].bytes_written, record.len());
}

#[test]
fn json_invalid_utf8_is_replaced() {
    let logger = JsonLogger::new("/tmp/x.log", None).unwrap();
    let plan = logger.plan_write(1, Pipe::StdOut, &[0x61, 0xff, 0x62]);
    let record = String::from_utf8(plan.ops[0].record.clone()).unwrap();
    assert_eq!(record, "{\"timestamp\":1,\"pipe\":\"stdout\",\"message\":\"a\u{fffd}b\"}\n");
}

#[test]
fn json_reopen_when_over_limit() {
    let mut logger = JsonLogger::new("/tmp/x.log", Some(60)).unwrap();
    let mut file = Vec::new();
    write(&mut logger, &mut file, 1, Pipe::StdOut, b"first\nsecond\n");
    let contents = String::from_utf8(file).unwrap();
    assert!(!contents.contains("first"));
    assert!(contents.contains("second"));
    assert_eq!(logger.bytes_written(), 0);
}

#[test]
fn json_counter_overflow_is_an_error() {
    let mut logger = JsonLogger::new("/tmp/x.log", None).unwrap();
    logger.set_bytes_written(usize::MAX - 3);
    let plan = logger.plan_write(1, Pipe::StdOut, b"line\n");
    assert!(plan.ops.is_empty());
    assert_eq!(plan.error, Some(JsonLogError::CounterOverflow));
}

#[test]
fn json_plan_write_now_stamps_current_time() {
    let logger = JsonLogger::new("/tmp/x.log", None).unwrap();
    let (ts, plan) = logger.plan_write_now(Pipe::StdOut, b"m\n");
    assert!(ts > 1_600_000_000);
    let record = String::from_utf8(plan.ops[0].record.clone()).unwrap();
    assert!(record.starts_with(&format!("{{\"timestamp\":{ts},")));
}

#[test]
fn json_message_escapes_control_characters() {
    let logger = JsonLogger::new("/tmp/x.log", None).unwrap();
    let plan = logger.plan_write(7, Pipe::StdOut, b"a\\b\tc\x01d\x1fe/f\x08g\x0ch\rz\n");
    let record = String::from_utf8(plan.ops[0].record.clone()).unwrap();
    assert_eq!(
        record,
        "{\"timestamp\":7,\"pipe\":\"stdout\",\"message\":\"a\\\\b\\tc\\u0001d\\u001fe/f\\bg\\fh\\rz\"}\n"
    );
}
