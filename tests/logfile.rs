use data_viz::logfile::{header_row, log_row, parse_log_row, LogEntry};
use data_viz::record::Frame;

fn entry(sensor_id: u8, board_id: u8, read_time_ms: i64, timestamp: u32, value: i16) -> LogEntry {
    LogEntry { frame: Frame { sensor_id, board_id, value, timestamp }, read_time_ms }
}

#[test]
fn header_names_the_columns() {
    assert_eq!(header_row(), vec!["Sensor id", "Board id", "Read Time", "Time", "Value"]);
}

#[test]
fn row_fields_are_decimal() {
    assert_eq!(log_row(&entry(255, 0, -1, 4294967295, -32768)), vec![
        "255",
        "0",
        "-1",
        "4294967295",
        "-32768"
    ]);
}

#[test]
fn bad_rows_do_not_read_back() {
    let row = |v: [&str; 5]| v.iter().map(|s| s.to_string()).collect::<Vec<_>>();
    assert_eq!(parse_log_row(&row(["256", "0", "0", "0", "0"])), None);
    assert_eq!(parse_log_row(&row(["1", "0", "0", "0", "32768"])), None);
    assert_eq!(parse_log_row(&row(["1", "0", "x", "0", "0"])), None);
    assert_eq!(parse_log_row(&vec!["1".to_string()]), None);
    assert_eq!(
        parse_log_row(&row(["1", "2", "3", "4", "5"])),
        Some(entry(1, 2, 3, 4, 5))
    );
}

#[test]
fn log_file_round_trip_keeps_rows_in_order() {
    let entries = vec![
        entry(1, 2, 0, 100, -5),
        entry(255, 255, 9_223_372_036_854_775_807, 4_294_967_295, 32767),
        entry(0, 0, 17, 0, -32768),
        entry(1, 2, 18, 101, 6),
    ];
    let mut w = csv::Writer::from_writer(vec![]);
    w.write_record(header_row()).unwrap();
    for e in &entries {
        w.write_record(log_row(e)).unwrap();
    }
    let bytes = w.into_inner().unwrap();
    let mut rd = csv::Reader::from_reader(bytes.as_slice());
    let headers: Vec<String> = rd.headers().unwrap().iter().map(|s| s.to_string()).collect();
    assert_eq!(headers, header_row());
    let back: Vec<LogEntry> = rd
        .records()
        .map(|r| {
            let fields: Vec<String> = r.unwrap().iter().map(|s| s.to_string()).collect();
            parse_log_row(&fields).unwrap()
        })
        .collect();
    assert_eq!(back, entries);
}
