use data_viz::protocol::{ChannelEnd, ReaderStatus, Reading};
use data_viz::reader::Reader;
use data_viz::record::{parse_record, Frame};
use data_viz::store::SeriesKey;

fn label(s: &str) -> SeriesKey {
    SeriesKey::Label(s.to_string())
}

fn open_reader() -> Reader {
    let mut r = Reader::new();
    assert!(r.start_reading(Ok(())));
    let next = r.process(vec![], ChannelEnd::Open, vec![ReaderStatus::Running], ChannelEnd::Open);
    assert_eq!(next, Some(100));
    r
}

fn lines(ls: &[&str]) -> Vec<Reading> {
    ls.iter().map(|l| Reading::Record(parse_record(l))).collect()
}

#[test]
fn new_reader_is_stopped() {
    let r = Reader::new();
    assert!(!r.running());
    assert!(!r.logging());
    assert!(!r.session_active());
    assert_eq!(r.reader_status(), "Stopped");
    assert!(r.stop_reading().is_none());
    assert!(r.start_logging("x.csv".to_string()).is_none());
    assert!(r.stop_logging().is_none());
}

#[test]
fn label_set_then_row_gives_one_sample_per_label() {
    let mut r = open_reader();
    let next = r.process(
        lines(&["#L a; b\r\n", "0 10 20\r\n"]),
        ChannelEnd::Open,
        vec![],
        ChannelEnd::Open,
    );
    assert_eq!(next, Some(100));
    assert_eq!(r.data().series(&label("a")), vec![(0, 10)]);
    assert_eq!(r.data().series(&label("b")), vec![(0, 20)]);
    assert_eq!(r.data().len(), 2);
}

#[test]
fn rows_append_in_arrival_order() {
    let mut r = open_reader();
    r.process(lines(&["#L a; b\r\n", "0 10 20\r\n"]), ChannelEnd::Open, vec![], ChannelEnd::Open);
    r.process(lines(&["1 11 21\r\n", "2 12 22\r\n"]), ChannelEnd::Open, vec![], ChannelEnd::Open);
    assert_eq!(r.data().series(&label("a")), vec![(0, 10), (1, 11), (2, 12)]);
    assert_eq!(r.data().series(&label("b")), vec![(0, 20), (1, 21), (2, 22)]);
}

#[test]
fn mismatched_row_is_dropped() {
    let mut r = open_reader();
    r.process(lines(&["#L a; b\r\n", "0 10 20\r\n"]), ChannelEnd::Open, vec![], ChannelEnd::Open);
    r.process(lines(&["1 11\r\n", "2 12 22 32\r\n"]), ChannelEnd::Open, vec![], ChannelEnd::Open);
    assert_eq!(r.data().series(&label("a")), vec![(0, 10)]);
    assert_eq!(r.data().series(&label("b")), vec![(0, 20)]);
    assert_eq!(r.dropped_rows(), 2);
}

#[test]
fn row_before_any_label_set_is_dropped() {
    let mut r = open_reader();
    r.process(lines(&["0 10 20\r\n"]), ChannelEnd::Open, vec![], ChannelEnd::Open);
    assert_eq!(r.data().len(), 0);
    assert_eq!(r.dropped_rows(), 1);
}

#[test]
fn new_label_set_clears_the_series() {
    let mut r = open_reader();
    r.process(
        lines(&["#L a; b\r\n", "0 10 20\r\n", "#L c\r\n", "5 50\r\n"]),
        ChannelEnd::Open,
        vec![],
        ChannelEnd::Open,
    );
    assert_eq!(r.data().len(), 1);
    assert_eq!(r.data().series(&label("a")), vec![]);
    assert_eq!(r.data().series(&label("c")), vec![(5, 50)]);
}

#[test]
fn unclassified_lines_are_counted() {
    let mut r = open_reader();
    r.process(lines(&["hello\r\n", "partial"]), ChannelEnd::Open, vec![], ChannelEnd::Open);
    assert_eq!(r.unclassified_lines(), 2);
    assert_eq!(r.data().len(), 0);
}

#[test]
fn frames_are_keyed_by_board_and_sensor() {
    let mut r = open_reader();
    let f1 = Frame { board_id: 1, sensor_id: 2, value: -3, timestamp: 100 };
    let f2 = Frame { board_id: 1, sensor_id: 3, value: 4, timestamp: 101 };
    let f3 = Frame { board_id: 1, sensor_id: 2, value: 5, timestamp: 102 };
    r.process(
        vec![Reading::Frame(f1), Reading::Frame(f2), Reading::Frame(f3)],
        ChannelEnd::Open,
        vec![],
        ChannelEnd::Open,
    );
    let k = SeriesKey::Sensor { board_id: 1, sensor_id: 2 };
    assert_eq!(r.data().series(&k), vec![(100, -3), (102, 5)]);
    assert_eq!(r.data().len(), 2);
    assert_eq!(r.data().find(&k), Some(0));
    assert!(matches!(r.data().key(1), SeriesKey::Sensor { board_id: 1, sensor_id: 3 }));
    assert_eq!(r.data().points(1), &vec![(101, 4)]);
}

#[test]
fn clear_data_drops_every_series() {
    let mut r = open_reader();
    r.process(lines(&["#L a\r\n", "0 1\r\n"]), ChannelEnd::Open, vec![], ChannelEnd::Open);
    r.clear_data();
    assert_eq!(r.data().len(), 0);
    assert!(r.running());
}

#[test]
fn stopped_status_ends_the_session() {
    let mut r = open_reader();
    assert!(matches!(r.stop_reading(), Some(data_viz::protocol::Command::Stop)));
    let next = r.process(
        lines(&["#L a\r\n", "0 1\r\n"]),
        ChannelEnd::Disconnected,
        vec![ReaderStatus::Stopped(None)],
        ChannelEnd::Disconnected,
    );
    assert_eq!(next, None);
    assert!(!r.running());
    assert!(!r.session_active());
    assert_eq!(r.reader_status(), "Stopped");
    assert_eq!(r.data().series(&label("a")), vec![(0, 1)]);
    let next = r.process(lines(&["1 2\r\n"]), ChannelEnd::Open, vec![], ChannelEnd::Open);
    assert_eq!(next, None);
    assert_eq!(r.data().series(&label("a")), vec![(0, 1)]);
    assert!(r.stop_reading().is_none());
}

#[test]
fn statuses_after_a_stop_are_ignored() {
    let mut r = open_reader();
    let next = r.process(
        vec![],
        ChannelEnd::Open,
        vec![ReaderStatus::Stopped(Some("gone".to_string())), ReaderStatus::Running],
        ChannelEnd::Open,
    );
    assert_eq!(next, None);
    assert_eq!(r.reader_status(), "Stopped (gone)");
}

#[test]
fn dropped_channel_stops_the_session() {
    let mut r = open_reader();
    let next = r.process(vec![], ChannelEnd::Disconnected, vec![], ChannelEnd::Open);
    assert_eq!(next, None);
    assert_eq!(r.reader_status(), "Stopped (Reader disconnected unexpectedly)");
    let mut r = open_reader();
    let next = r.process(vec![], ChannelEnd::Open, vec![ReaderStatus::Logging], ChannelEnd::Disconnected);
    assert_eq!(next, None);
    assert!(!r.running());
}

#[test]
fn failed_open_sets_stopped_with_the_message() {
    let mut r = Reader::new();
    assert!(!r.start_reading(Err("No such file or directory".to_string())));
    assert!(!r.session_active());
    assert_eq!(r.reader_status(), "Stopped (No such file or directory)");
}

#[test]
fn starting_twice_is_a_no_op() {
    let mut r = open_reader();
    assert!(!r.start_reading(Ok(())));
    assert!(!r.start_reading(Err("busy".to_string())));
    assert_eq!(r.reader_status(), "Running");
}

#[test]
fn logging_status_is_reported() {
    let mut r = open_reader();
    assert!(matches!(
        r.start_logging("out.csv".to_string()),
        Some(data_viz::protocol::Command::StartLogging(p)) if p == "out.csv"
    ));
    r.process(vec![], ChannelEnd::Open, vec![ReaderStatus::Logging], ChannelEnd::Open);
    assert!(r.logging());
    assert_eq!(r.reader_status(), "Logging");
    assert!(matches!(r.stop_logging(), Some(data_viz::protocol::Command::StopLogging)));
}

#[test]
fn without_a_session_process_does_nothing() {
    let mut r = Reader::new();
    let next = r.process(lines(&["#L a\r\n"]), ChannelEnd::Open, vec![ReaderStatus::Running], ChannelEnd::Open);
    assert_eq!(next, None);
    assert_eq!(r.reader_status(), "Stopped");
}
