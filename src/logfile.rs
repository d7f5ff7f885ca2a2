use vstd::prelude::*;
use vstd::string::*;

use crate::record::{Frame, texts};
use crate::text::{
    all_digits, chars_of, digits_value, int_in, int_of, parse_int_in, parse_uint_in, uint_in,
};

verus! {

/// One row of the log file: a frame and the milliseconds since the session
/// began at which it was read.
#[derive(Clone, Copy, Debug, PartialEq, Eq, Structural)]
pub struct LogEntry {
    pub frame: Frame,
    pub read_time_ms: i64,
}

pub open spec fn digit_char(d: nat) -> char {
    ('0' as nat + d) as char
}

/// The decimal digits of `n`, without leading zeros.
pub open spec fn dec_nat(n: nat) -> Seq<char>
    decreases n,
{
    if n < 10 {
        seq![digit_char(n)]
    } else {
        dec_nat(n / 10).push(digit_char(n % 10))
    }
}

/// `i` in decimal, with a minus sign when it is negative.
pub open spec fn dec_int(i: int) -> Seq<char> {
    if i < 0 {
        seq!['-'] + dec_nat((-i) as nat)
    } else {
        dec_nat(i as nat)
    }
}

/// Relies on the `Display` of `i64`, through `ToString`: the decimal digits,
/// a leading `-` for a negative number, no `+`, no leading zeros.
#[verifier::external_body]
fn decimal(n: i64) -> (r: String)
    ensures
        r@ == dec_int(n as int),
{
    n.to_string()
}

proof fn lemma_digit_char(d: nat)
    requires
        d < 10,
    ensures
        digit_char(d) as nat == '0' as nat + d,
        crate::text::is_digit(digit_char(d)),
{
    assert('0' as nat == 48);
    assert(((48 + d) as char) as nat == 48 + d);
}

proof fn lemma_dec_nat(n: nat)
    ensures
        dec_nat(n).len() > 0,
        all_digits(dec_nat(n)),
        digits_value(dec_nat(n)) == n,
    decreases n,
{
    if n < 10 {
        lemma_digit_char(n);
        assert(dec_nat(n).drop_last() =~= Seq::<char>::empty());
        assert(digits_value(Seq::<char>::empty()) == 0);
        assert(digits_value(dec_nat(n)) == 10 * digits_value(dec_nat(n).drop_last()) + (
        dec_nat(n).last() as nat - '0' as nat) as nat);
    } else {
        lemma_digit_char(n % 10);
        assert(n == 10 * (n / 10) + n % 10);
        lemma_dec_nat(n / 10);
        let s = dec_nat(n);
        assert(s.drop_last() =~= dec_nat(n / 10));
        assert(s.last() == digit_char(n % 10));
        assert(digits_value(s) == 10 * digits_value(s.drop_last()) + (s.last() as nat
            - '0' as nat) as nat);
        assert forall|i: int| 0 <= i < s.len() implies crate::text::is_digit(#[trigger] s[i]) by {
            if i < s.len() - 1 {
                assert(s[i] == dec_nat(n / 10)[i]);
            }
        }
    }
}

/// Reading an integer back from its decimal text gives the integer.
pub proof fn lemma_dec_int_reads_back(i: int)
    ensures
        int_of(dec_int(i)) == Some(i),
        i >= 0 ==> dec_int(i)[0] != '-',
{
    if i < 0 {
        let d = dec_nat((-i) as nat);
        lemma_dec_nat((-i) as nat);
        let s = dec_int(i);
        assert(s.subrange(1, s.len() as int) =~= d);
    } else {
        lemma_dec_nat(i as nat);
        let s = dec_int(i);
        assert(crate::text::is_digit(s[0]));
    }
}

pub open spec fn log_header() -> Seq<Seq<char>> {
    seq!["Sensor id"@, "Board id"@, "Read Time"@, "Time"@, "Value"@]
}

/// The fields of a row: sensor, board, read time, timestamp, value.
pub open spec fn log_row_of(e: LogEntry) -> Seq<Seq<char>> {
    seq![
        dec_int(e.frame.sensor_id as int),
        dec_int(e.frame.board_id as int),
        dec_int(e.read_time_ms as int),
        dec_int(e.frame.timestamp as int),
        dec_int(e.frame.value as int),
    ]
}

/// The entry that the five fields of a row write, each in its field's range.
pub open spec fn entry_of(f: Seq<Seq<char>>) -> Option<LogEntry> {
    if f.len() == 5 && uint_in(f[0], 255) is Some && uint_in(f[1], 255) is Some && int_in(
        f[2],
        i64::MIN as int,
        i64::MAX as int,
    ) is Some && uint_in(f[3], 0xffff_ffff) is Some && int_in(f[4], -32768, 32767) is Some {
        Some(
            LogEntry {
                frame: Frame {
                    sensor_id: uint_in(f[0], 255)->0 as u8,
                    board_id: uint_in(f[1], 255)->0 as u8,
                    timestamp: uint_in(f[3], 0xffff_ffff)->0 as u32,
                    value: int_in(f[4], -32768, 32767)->0 as i16,
                },
                read_time_ms: int_in(f[2], i64::MIN as int, i64::MAX as int)->0 as i64,
            },
        )
    } else {
        None
    }
}

/// The header row of the log file.
pub fn header_row() -> (r: Vec<String>)
    ensures
        texts(r@) == log_header(),
{
    let r = vec![
        String::from_str("Sensor id"),
        String::from_str("Board id"),
        String::from_str("Read Time"),
        String::from_str("Time"),
        String::from_str("Value"),
    ];
    assert(texts(r@) =~= log_header());
    r
}

/// The fields of the log row of `e`.
pub fn log_row(e: &LogEntry) -> (r: Vec<String>)
    ensures
        texts(r@) == log_row_of(*e),
{
    let r = vec![
        decimal(e.frame.sensor_id as i64),
        decimal(e.frame.board_id as i64),
        decimal(e.read_time_ms),
        decimal(e.frame.timestamp as i64),
        decimal(e.frame.value as i64),
    ];
    assert(texts(r@) =~= log_row_of(*e));
    r
}

fn field_int(f: &String, lo: i64, hi: i64) -> (r: Option<i64>)
    ensures
        r matches Some(x) ==> int_in(f@, lo as int, hi as int) == Some(x as int),
        r is None ==> int_in(f@, lo as int, hi as int) is None,
{
    let v = chars_of(f.as_str());
    assert(v@.subrange(0, v@.len() as int) =~= v@);
    parse_int_in(&v, 0, v.len(), lo, hi)
}

fn field_uint(f: &String, hi: i64) -> (r: Option<i64>)
    ensures
        r matches Some(x) ==> uint_in(f@, hi as int) == Some(x as int),
        r is None ==> uint_in(f@, hi as int) is None,
{
    let v = chars_of(f.as_str());
    assert(v@.subrange(0, v@.len() as int) =~= v@);
    parse_uint_in(&v, 0, v.len(), hi)
}

/// Reads a row of the log file back; `None` when it is not five fields in
/// range.
pub fn parse_log_row(fields: &Vec<String>) -> (r: Option<LogEntry>)
    ensures
        r == entry_of(texts(fields@)),
{
    if fields.len() != 5 {
        return None;
    }
    let ghost f = texts(fields@);
    assert(f[0] == fields@[0]@ && f[1] == fields@[1]@ && f[2] == fields@[2]@);
    assert(f[3] == fields@[3]@ && f[4] == fields@[4]@);
    let sensor = field_uint(&fields[0], 255);
    let board = field_uint(&fields[1], 255);
    let read_time = field_int(&fields[2], i64::MIN, i64::MAX);
    let timestamp = field_uint(&fields[3], 0xffff_ffff);
    let value = field_int(&fields[4], -32768, 32767);
    match (sensor, board, read_time, timestamp, value) {
        (Some(s), Some(b), Some(rt), Some(t), Some(x)) => Some(
            LogEntry {
                frame: Frame {
                    sensor_id: s as u8,
                    board_id: b as u8,
                    timestamp: t as u32,
                    value: x as i16,
                },
                read_time_ms: rt,
            },
        ),
        _ => None,
    }
}

/// A row written to the log reads back as the entry it was written for.
pub proof fn lemma_log_round_trip(e: LogEntry)
    ensures
        entry_of(log_row_of(e)) == Some(e),
{
    let f = log_row_of(e);
    lemma_dec_int_reads_back(e.frame.sensor_id as int);
    lemma_dec_int_reads_back(e.frame.board_id as int);
    lemma_dec_int_reads_back(e.read_time_ms as int);
    lemma_dec_int_reads_back(e.frame.timestamp as int);
    lemma_dec_int_reads_back(e.frame.value as int);
    assert(f[0] == dec_int(e.frame.sensor_id as int));
    assert(f[1] == dec_int(e.frame.board_id as int));
    assert(f[2] == dec_int(e.read_time_ms as int));
    assert(f[3] == dec_int(e.frame.timestamp as int));
    assert(f[4] == dec_int(e.frame.value as int));
}

} // verus!
