use data_viz::logfile::{parse_log_row, LogEntry};
use data_viz::protocol::{ChannelEnd, Command, ReaderStatus, Reading};
use data_viz::reader::Reader;
use data_viz::record::{Frame, SerialRecord};
use data_viz::worker::{CommandAction, Protocol, ReadAction, ReadOutcome, Worker};

fn failed(msg: &str) -> ReadOutcome {
    ReadOutcome::Failed(msg.to_string())
}

#[test]
fn worker_starts_running() {
    let (w, s) = Worker::start(Protocol::FixedSchema);
    assert!(matches!(s, ReaderStatus::Running));
    assert!(!w.logging());
    assert!(!w.stopped());
    assert_eq!(w.protocol(), Protocol::FixedSchema);
}

#[test]
fn three_failures_are_tolerated_the_fourth_stops() {
    let (mut w, _) = Worker::start(Protocol::FixedSchema);
    for _ in 0..3 {
        assert!(matches!(w.on_read(failed("Broken pipe"), 0), ReadAction::Idle));
        assert!(!w.stopped());
    }
    match w.on_read(failed("Broken pipe"), 0) {
        ReadAction::Halt(ReaderStatus::Stopped(Some(reason))) => assert_eq!(reason, "Broken pipe"),
        other => panic!("unexpected {:?}", other),
    }
    assert!(w.stopped());
    assert!(matches!(w.on_read(ReadOutcome::Line("\r1 2 3 4\n".to_string()), 0), ReadAction::Idle));
}

#[test]
fn empty_failure_message_gets_a_reason() {
    let (mut w, _) = Worker::start(Protocol::Labelled);
    for _ in 0..3 {
        w.on_read(failed(""), 0);
    }
    match w.on_read(failed(""), 0) {
        ReadAction::Halt(ReaderStatus::Stopped(Some(reason))) => {
            assert_eq!(reason, "too many read errors")
        }
        other => panic!("unexpected {:?}", other),
    }
}

#[test]
fn timeouts_do_not_count_and_lines_reset() {
    let (mut w, _) = Worker::start(Protocol::Labelled);
    for _ in 0..3 {
        w.on_read(failed("e"), 0);
    }
    for _ in 0..10 {
        assert!(matches!(w.on_read(ReadOutcome::Timeout, 0), ReadAction::Idle));
    }
    assert!(matches!(w.on_read(ReadOutcome::Line("hi\r\n".to_string()), 0), ReadAction::Deliver { .. }));
    for _ in 0..3 {
        assert!(matches!(w.on_read(failed("e"), 0), ReadAction::Idle));
    }
    assert!(matches!(w.on_read(failed("e"), 0), ReadAction::Halt(_)));
}

#[test]
fn timeout_after_three_failures_then_a_fourth_stops() {
    let (mut w, _) = Worker::start(Protocol::Labelled);
    for _ in 0..3 {
        w.on_read(failed("e"), 0);
    }
    w.on_read(ReadOutcome::Timeout, 0);
    assert!(matches!(w.on_read(failed("e"), 0), ReadAction::Halt(_)));
}

#[test]
fn bad_fixed_schema_lines_count_as_failures() {
    let (mut w, _) = Worker::start(Protocol::FixedSchema);
    for _ in 0..3 {
        assert!(matches!(w.on_read(ReadOutcome::Line("junk\n".to_string()), 0), ReadAction::Idle));
    }
    match w.on_read(ReadOutcome::Line("junk\n".to_string()), 0) {
        ReadAction::Halt(ReaderStatus::Stopped(Some(reason))) => {
            assert_eq!(reason, "invalid frame: junk\n")
        }
        other => panic!("unexpected {:?}", other),
    }
}

#[test]
fn labelled_lines_are_delivered_as_records() {
    let (mut w, _) = Worker::start(Protocol::Labelled);
    match w.on_read(ReadOutcome::Line("#L a; b\r\n".to_string()), 5) {
        ReadAction::Deliver { reading: Reading::Record(SerialRecord::LabelSet(l)), log_row: None } => {
            assert_eq!(l, vec!["a".to_string(), "b".to_string()])
        }
        other => panic!("unexpected {:?}", other),
    }
}

#[test]
fn frames_carry_a_log_row_while_logging() {
    let (mut w, _) = Worker::start(Protocol::FixedSchema);
    match w.on_read(ReadOutcome::Line("\r7 3 -12 900\n".to_string()), 42) {
        ReadAction::Deliver { reading: Reading::Frame(f), log_row: None } => {
            assert_eq!(f, Frame { sensor_id: 7, board_id: 3, value: -12, timestamp: 900 })
        }
        other => panic!("unexpected {:?}", other),
    }
    match w.on_command(Command::StartLogging("log.csv".to_string())) {
        CommandAction::OpenLog(p) => assert_eq!(p, "log.csv"),
        other => panic!("unexpected {:?}", other),
    }
    assert!(!w.logging());
    assert!(matches!(w.log_opened(Ok(())), ReaderStatus::Logging));
    assert!(w.logging());
    match w.on_read(ReadOutcome::Line("\r7 3 -12 900\n".to_string()), 42) {
        ReadAction::Deliver { reading: Reading::Frame(_), log_row: Some(row) } => {
            assert_eq!(row, vec!["7", "3", "42", "900", "-12"]);
            assert_eq!(
                parse_log_row(&row),
                Some(LogEntry {
                    frame: Frame { sensor_id: 7, board_id: 3, value: -12, timestamp: 900 },
                    read_time_ms: 42
                })
            );
        }
        other => panic!("unexpected {:?}", other),
    }
}

#[test]
fn duplicate_logging_commands_are_no_ops() {
    let (mut w, _) = Worker::start(Protocol::FixedSchema);
    assert!(matches!(w.on_command(Command::StopLogging), CommandAction::Nothing));
    w.on_command(Command::StartLogging("a.csv".to_string()));
    w.log_opened(Ok(()));
    assert!(matches!(w.on_command(Command::StartLogging("b.csv".to_string())), CommandAction::Nothing));
    assert!(matches!(w.on_command(Command::StopLogging), CommandAction::CloseLog));
    assert!(!w.logging());
    assert!(matches!(w.log_closed(Ok(())), ReaderStatus::Running));
    match w.log_closed(Err("disk full".to_string())) {
        ReaderStatus::LogErr(e) => assert_eq!(e, "disk full"),
        other => panic!("unexpected {:?}", other),
    }
}

#[test]
fn failed_log_write_stops_logging_only() {
    let (mut w, _) = Worker::start(Protocol::FixedSchema);
    w.on_command(Command::StartLogging("a.csv".to_string()));
    w.log_opened(Ok(()));
    assert!(w.log_written(Ok(())).is_none());
    match w.log_written(Err("disk full".to_string())) {
        Some(ReaderStatus::LogErr(e)) => assert_eq!(e, "disk full"),
        other => panic!("unexpected {:?}", other),
    }
    assert!(!w.logging());
    assert!(!w.stopped());
}

#[test]
fn stop_shuts_down_and_the_reader_follows() {
    let mut r = Reader::new();
    r.start_reading(Ok(()));
    let (mut w, first) = Worker::start(Protocol::FixedSchema);
    w.on_command(Command::StartLogging("a.csv".to_string()));
    let logging = w.log_opened(Ok(()));
    let cmd = r.stop_reading().unwrap();
    let status = match w.on_command(cmd) {
        CommandAction::Shutdown { flush_log: true, status } => status,
        other => panic!("unexpected {:?}", other),
    };
    assert!(w.stopped());
    assert!(matches!(status, ReaderStatus::Stopped(None)));
    assert!(matches!(w.on_command(Command::Stop), CommandAction::Nothing));
    let mut polls = 0;
    let mut next = r.process(vec![], ChannelEnd::Open, vec![first, logging, status], ChannelEnd::Open);
    while next.is_some() && polls < 10 {
        next = r.process(vec![], ChannelEnd::Open, vec![], ChannelEnd::Open);
        polls += 1;
    }
    assert_eq!(next, None);
    assert!(!r.running());
    assert_eq!(r.reader_status(), "Stopped");
    let f = Frame { sensor_id: 1, board_id: 1, value: 1, timestamp: 1 };
    assert_eq!(r.process(vec![Reading::Frame(f)], ChannelEnd::Open, vec![], ChannelEnd::Open), None);
    assert_eq!(r.data().len(), 0);
}

#[test]
fn unwritable_log_path_keeps_the_session_running() {
    let mut r = Reader::new();
    r.start_reading(Ok(()));
    let (mut w, first) = Worker::start(Protocol::FixedSchema);
    let path = "/nonexistent-dir/for/sure/log.csv".to_string();
    let cmd = r.start_logging(path.clone()).unwrap();
    let p = match w.on_command(cmd) {
        CommandAction::OpenLog(p) => p,
        other => panic!("unexpected {:?}", other),
    };
    let err = csv::Writer::from_path(&p).err().expect("path must not be writable").to_string();
    let status = w.log_opened(Err(err.clone()));
    assert!(!w.logging());
    assert!(!w.stopped());
    let next = r.process(vec![], ChannelEnd::Open, vec![first, status], ChannelEnd::Open);
    assert_eq!(next, Some(100));
    assert!(r.running());
    assert!(!r.logging());
    assert_eq!(r.reader_status(), err);
}
