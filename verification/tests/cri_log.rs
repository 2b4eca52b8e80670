use conmonrs::container_io::Pipe;
use conmonrs::cri_log::{CriLogError, CriLogger};
use time::{format_description::well_known::Rfc3339, OffsetDateTime};

const TIMESTAMP: &str = "2024-05-06T07:08:09.123456789+00:00";

/// A CRI log whose file is held in memory: the logger's steps are performed
/// on it, a reopen truncating it as opening the file does.
fn write(sut: &mut CriLogger, file: &mut Vec<u8>, pipe: Pipe, data: &[u8]) {
    for op in sut.plan_write(pipe, data) {
        if op.reopen {
            file.clear();
        }
        file.extend_from_slice(&op.record);
        sut.set_bytes_written(op.bytes_written);
    }
}

fn new_logger(max_log_size: Option<usize>) -> CriLogger {
    let mut sut = CriLogger::new("/var/log/container.log", max_log_size).unwrap();
    sut.set_timestamp(TIMESTAMP.as_bytes().to_vec(), 0);
    sut
}

#[test]
fn cri_write_stdout_success() {
    let buffer = "this is a line\nand another line\n";
    let mut file = Vec::new();
    let mut sut = new_logger(None);

    write(&mut sut, &mut file, Pipe::StdOut, buffer.as_bytes());

    let res = String::from_utf8(file).unwrap();
    assert!(res.contains(" stdout F this is a line"));
    assert!(res.contains(" stdout F and another line"));

    let timestamp = res.split_whitespace().next().expect("no timestamp");
    OffsetDateTime::parse(timestamp, &Rfc3339).expect("unable to parse timestamp");
}

#[test]
fn cri_write_stdout_stderr_success() {
    let buffer = "a\nb\nc\n";
    let mut file = Vec::new();
    let mut sut = new_logger(None);

    write(&mut sut, &mut file, Pipe::StdOut, buffer.as_bytes());
    write(&mut sut, &mut file, Pipe::StdErr, buffer.as_bytes());

    let res = String::from_utf8(file).unwrap();
    assert!(res.contains(" stdout F a"));
    assert!(res.contains(" stdout F b"));
    assert!(res.contains(" stdout F c"));
    assert!(res.contains(" stderr F a"));
    assert!(res.contains(" stderr F b"));
    assert!(res.contains(" stderr F c"));
}

#[test]
fn cri_write_reopen() {
    let buffer = "a\nb\nc\nd\ne\nf\n";
    let mut file = Vec::new();
    let mut sut = new_logger(Some(150));

    write(&mut sut, &mut file, Pipe::StdOut, buffer.as_bytes());

    let res = String::from_utf8(file).unwrap();
    assert!(!res.contains(" stdout F a"));
    assert!(!res.contains(" stdout F b"));
    assert!(!res.contains(" stdout F c"));
    assert!(res.contains(" stdout F d"));
    assert!(res.contains(" stdout F e"));
    assert!(res.contains(" stdout F f"));
}

#[test]
fn cri_write_multi_reopen() {
    let mut file = Vec::new();
    let mut sut = new_logger(Some(150));

    write(&mut sut, &mut file, Pipe::StdOut, "abcd\nabcd\nabcd\n".as_bytes());
    write(&mut sut, &mut file, Pipe::StdErr, "a\nb\nc\n".as_bytes());

    let res = String::from_utf8(file).unwrap();
    assert!(!res.contains(" stdout "));
    assert!(res.contains(" stderr F a"));
    assert!(res.contains(" stderr F b"));
    assert!(res.contains(" stderr F c"));
}

#[test]
fn cri_partial_line_gets_p_and_newline() {
    let mut file = Vec::new();
    let mut sut = new_logger(None);
    write(&mut sut, &mut file, Pipe::StdErr, b"no newline");
    assert_eq!(
        String::from_utf8(file).unwrap(),
        format!("{TIMESTAMP} stderr P no newline\n")
    );
}

#[test]
fn cri_exact_records_and_count() {
    let sut = new_logger(None);
    let ops = sut.plan_write(Pipe::StdOut, b"x\ny\n");
    assert_eq!(ops.len(), 2);
    assert_eq!(ops[0].record, format!("{TIMESTAMP} stdout F x\n").into_bytes());
    assert_eq!(ops[1].record, format!("{TIMESTAMP} stdout F y\n").into_bytes());
    assert!(!ops[0].reopen && !ops[1].reopen);
    let line = TIMESTAMP.len() + " stdout F x\n".len();
    assert_eq!(ops[0].bytes_written, line);
    assert_eq!(ops[1].bytes_written, 2 * line);
}

#[test]
fn cri_empty_write_has_no_steps() {
    let sut = new_logger(Some(10));
    assert!(sut.plan_write(Pipe::StdOut, b"").is_empty());
}

#[test]
fn cri_refresh_timestamp_formats_rfc3339() {
    let mut sut = CriLogger::new("/var/log/container.log", None).unwrap();
    assert!(sut.needs_timestamp_refresh(0));
    sut.refresh_timestamp().unwrap();
    let ops = sut.plan_write(Pipe::StdOut, b"hi\n");
    let res = String::from_utf8(ops[0].record.clone()).unwrap();
    let timestamp = res.split_whitespace().next().expect("no timestamp");
    OffsetDateTime::parse(timestamp, &Rfc3339).expect("unable to parse timestamp");
    assert!(res.ends_with(" stdout F hi\n"));
}

#[test]
fn cri_timestamp_is_reused_for_a_while() {
    let mut sut = new_logger(None);
    sut.set_timestamp(TIMESTAMP.as_bytes().to_vec(), 1000);
    assert!(!sut.needs_timestamp_refresh(1099));
    assert!(sut.needs_timestamp_refresh(1100));
}

#[test]
fn cri_count_is_file_size_after_reopen() {
    let mut sut = CriLogger::new("/var/log/container.log", Some(40)).unwrap();
    sut.set_timestamp(b"2024-05-06T07:08:09Z".to_vec(), 0);
    let mut file = Vec::new();
    write(&mut sut, &mut file, Pipe::StdOut, b"a\nb\n");
    assert_eq!(file.len(), 32);
    assert_eq!(sut.bytes_written(), 32);
    assert_eq!(String::from_utf8(file).unwrap(), "2024-05-06T07:08:09Z stdout F b\n");
}

#[test]
fn cri_count_tracks_file_through_reopens() {
    let mut sut = new_logger(Some(150));
    let mut file = Vec::new();
    write(&mut sut, &mut file, Pipe::StdOut, b"a\nb\nc\nd\ne\nf\ng\n");
    assert_eq!(sut.bytes_written(), file.len());
}

#[test]
fn cri_refresh_at_replaces_a_stale_timestamp() {
    let mut sut = new_logger(None);
    sut.set_timestamp(TIMESTAMP.as_bytes().to_vec(), 1000);
    // Not due yet: nothing changes, and the new text is not used.
    assert_eq!(sut.refresh_at(1050, Some(b"2030-01-01T00:00:00Z".to_vec())), Ok(()));
    let ops = sut.plan_write(Pipe::StdOut, b"x\n");
    assert!(ops[0].record.starts_with(TIMESTAMP.as_bytes()));
    // Due and not formatted: the refresh fails and the old stamp stays.
    assert_eq!(sut.refresh_at(1100, None), Err(CriLogError::Timestamp));
    assert!(sut.needs_timestamp_refresh(1100));
    // Due: the new stamp is taken, and the next refresh is 100 ms later.
    assert_eq!(sut.refresh_at(1100, Some(b"2030-01-01T00:00:00Z".to_vec())), Ok(()));
    let ops = sut.plan_write(Pipe::StdOut, b"x\n");
    assert_eq!(ops[0].record, b"2030-01-01T00:00:00Z stdout F x\n".to_vec());
    assert!(!sut.needs_timestamp_refresh(1199));
    assert!(sut.needs_timestamp_refresh(1200));
}
