use data_viz::record::{parse_frame, parse_record, Frame, SerialRecord};

fn labels_of(r: &SerialRecord) -> Option<Vec<String>> {
    match r {
        SerialRecord::LabelSet(l) => Some(l.clone()),
        _ => None,
    }
}

fn values_of(r: &SerialRecord) -> Option<Vec<i64>> {
    match r {
        SerialRecord::ValueRow(v) => Some(v.clone()),
        _ => None,
    }
}

#[test]
fn line_without_terminator_is_unclassified() {
    match parse_record("#L a; b") {
        SerialRecord::Unclassified(s) => assert_eq!(s, "#L a; b"),
        other => panic!("unexpected {:?}", other),
    }
    assert!(matches!(parse_record("0 10 20\n"), SerialRecord::Unclassified(_)));
    assert!(matches!(parse_record(""), SerialRecord::Unclassified(_)));
}

#[test]
fn label_line_gives_label_set() {
    let r = parse_record("#L a; b\r\n");
    assert_eq!(labels_of(&r), Some(vec!["a".to_string(), "b".to_string()]));
}

#[test]
fn label_line_splits_only_on_semicolon_space() {
    let r = parse_record("#L temp;x; hum; \r\n");
    assert_eq!(
        labels_of(&r),
        Some(vec!["temp;x".to_string(), "hum".to_string(), "".to_string()])
    );
}

#[test]
fn number_line_gives_value_row() {
    let r = parse_record("0 10 20\r\n");
    assert_eq!(values_of(&r), Some(vec![0, 10, 20]));
    let r = parse_record("-5 +7 9223372036854775807\r\n");
    assert_eq!(values_of(&r), Some(vec![-5, 7, i64::MAX]));
    let r = parse_record("-9223372036854775808\r\n");
    assert_eq!(values_of(&r), Some(vec![i64::MIN]));
}

#[test]
fn one_bad_token_makes_the_line_unclassified() {
    assert!(matches!(parse_record("1 x 3\r\n"), SerialRecord::Unclassified(_)));
    assert!(matches!(parse_record("1  3\r\n"), SerialRecord::Unclassified(_)));
    assert!(matches!(parse_record("9223372036854775808\r\n"), SerialRecord::Unclassified(_)));
    assert!(matches!(parse_record("\r\n"), SerialRecord::Unclassified(_)));
    assert!(matches!(parse_record("- 1\r\n"), SerialRecord::Unclassified(_)));
}

#[test]
fn fixed_schema_line_gives_frame() {
    assert_eq!(
        parse_frame("\r1 2 -300 4000\n"),
        Some(Frame { sensor_id: 1, board_id: 2, value: -300, timestamp: 4000 })
    );
    assert_eq!(
        parse_frame("\r  255  0 32767 4294967295 \n"),
        Some(Frame { sensor_id: 255, board_id: 0, value: 32767, timestamp: 4294967295 })
    );
}

#[test]
fn fixed_schema_mismatch_is_an_error() {
    assert_eq!(parse_frame("1 2 3 4\r\n"), None);
    assert_eq!(parse_frame("\r1 2 3\n"), None);
    assert_eq!(parse_frame("\r1 2 3 4 5\n"), None);
    assert_eq!(parse_frame("\r256 2 3 4\n"), None);
    assert_eq!(parse_frame("\r1 2 40000 4\n"), None);
    assert_eq!(parse_frame("\r-1 2 3 4\n"), None);
    assert_eq!(parse_frame("\r1 2 3 -4\n"), None);
    assert_eq!(parse_frame("\r1 b 3 4\n"), None);
    assert_eq!(parse_frame("\r\n"), None);
    assert_eq!(parse_frame("\r"), None);
}
