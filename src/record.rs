use vstd::prelude::*;
use vstd::string::*;

use crate::text::{
    chars_of, int_in, int_of, parse_int, parse_int_in, parse_uint_in, slice_chars, span_is,
    spans_are, split, split_spans, uint_in, words,
};

verus! {

/// One line of the labelled protocol, classified.
#[derive(Debug)]
pub enum SerialRecord {
    /// Names of the value columns that follow, in order.
    LabelSet(Vec<String>),
    /// A timestamp, then one reading for each label of the last label set.
    ValueRow(Vec<i64>),
    /// A line that is neither: a comment, a clipped read, noise.
    Unclassified(String),
}

/// What a `SerialRecord` holds, as plain values.
pub enum RecordView {
    LabelSet(Seq<Seq<char>>),
    ValueRow(Seq<i64>),
    Unclassified(Seq<char>),
}

/// The text of each string.
pub open spec fn texts(l: Seq<String>) -> Seq<Seq<char>> {
    l.map_values(|s: String| s@)
}

impl View for SerialRecord {
    type V = RecordView;

    open spec fn view(&self) -> RecordView {
        match self {
            SerialRecord::LabelSet(l) => RecordView::LabelSet(texts(l@)),
            SerialRecord::ValueRow(v) => RecordView::ValueRow(v@),
            SerialRecord::Unclassified(s) => RecordView::Unclassified(s@),
        }
    }
}

/// One reading of the fixed-schema protocol.
#[derive(Clone, Copy, Debug, PartialEq, Eq, Structural)]
pub struct Frame {
    pub board_id: u8,
    pub sensor_id: u8,
    pub value: i16,
    pub timestamp: u32,
}

pub open spec fn line_end() -> Seq<char> {
    seq!['\r', '\n']
}

pub open spec fn label_marker() -> Seq<char> {
    seq!['#', 'L', ' ']
}

pub open spec fn label_sep() -> Seq<char> {
    seq![';', ' ']
}

/// Every piece writes an integer that fits in an `i64`.
pub open spec fn all_ints(toks: Seq<Seq<char>>) -> bool {
    forall|k: int|
        0 <= k < toks.len() ==> (#[trigger] int_in(toks[k], i64::MIN as int, i64::MAX as int))
            is Some
}

/// The integers that the pieces write.
pub open spec fn ints_of(toks: Seq<Seq<char>>) -> Seq<i64> {
    toks.map_values(|t: Seq<char>| int_of(t)->0 as i64)
}

/// How a line of the labelled protocol is classified: without the line end
/// it is unclassified; after the label marker come labels between `"; "`;
/// else it is a value row when every piece between single spaces is an
/// integer, and unclassified when one is not.
pub open spec fn record_of(line: Seq<char>) -> RecordView {
    if !(line.len() >= 2 && line.subrange(line.len() - 2, line.len() as int) == line_end()) {
        RecordView::Unclassified(line)
    } else {
        let body = line.subrange(0, line.len() - 2);
        if body.len() >= 3 && body.subrange(0, 3) == label_marker() {
            RecordView::LabelSet(split(body.subrange(3, body.len() as int), label_sep()))
        } else if all_ints(split(body, seq![' '])) {
            RecordView::ValueRow(ints_of(split(body, seq![' '])))
        } else {
            RecordView::Unclassified(line)
        }
    }
}

/// The frame that four words write: sensor, board, value and timestamp, each
/// in the range of its field.
pub open spec fn frame_fields(w: Seq<Seq<char>>) -> Option<Frame> {
    if w.len() == 4 && uint_in(w[0], 255) is Some && uint_in(w[1], 255) is Some && int_in(
        w[2],
        -32768,
        32767,
    ) is Some && uint_in(w[3], 0xffff_ffff) is Some {
        Some(
            Frame {
                sensor_id: uint_in(w[0], 255)->0 as u8,
                board_id: uint_in(w[1], 255)->0 as u8,
                value: int_in(w[2], -32768, 32767)->0 as i16,
                timestamp: uint_in(w[3], 0xffff_ffff)->0 as u32,
            },
        )
    } else {
        None
    }
}

/// The frame on a fixed-schema line: a carriage return, the four fields
/// between spaces, a newline.
pub open spec fn frame_of(line: Seq<char>) -> Option<Frame> {
    if line.len() >= 2 && line[0] == '\r' && line.last() == '\n' {
        frame_fields(words(line.subrange(1, line.len() - 1)))
    } else {
        None
    }
}

/// Classifies one line of the labelled protocol. Never fails: what is not a
/// label set or a value row is kept as unclassified text.
pub fn parse_record(line: &str) -> (r: SerialRecord)
    ensures
        r@ == record_of(line@),
{
    let v = chars_of(line);
    let n = v.len();
    if n < 2 || v[n - 2] != '\r' || v[n - 1] != '\n' {
        proof {
            if n >= 2 {
                let e = line@.subrange(n - 2, n as int);
                assert(e[0] == v@[n - 2] && e[1] == v@[n - 1]);
                assert(e != line_end()) by {
                    assert(line_end()[0] == '\r' && line_end()[1] == '\n');
                }
            }
        }
        return SerialRecord::Unclassified(String::from_str(line));
    }
    assert(line@.subrange(n - 2, n as int) =~= line_end());
    let body = slice_chars(&v, 0, n - 2);
    if n - 2 >= 3 && body[0] == '#' && body[1] == 'L' && body[2] == ' ' {
        assert(body@.subrange(0, 3) =~= label_marker());
        let rest = slice_chars(&body, 3, n - 2);
        let sep = vec![';', ' '];
        assert(sep@ =~= label_sep());
        let spans = split_spans(&rest, &sep);
        let ghost pieces = split(rest@, sep@);
        let mut labels: Vec<String> = Vec::new();
        for k in 0..spans.len()
            invariant
                n == line@.len(),
                n >= 5,
                rest@ == line@.subrange(3, n - 2),
                spans_are(rest@, spans@, pieces),
                texts(labels@) == pieces.take(k as int),
        {
            let (a, b) = spans[k];
            assert(span_is(rest@, spans@[k as int], pieces[k as int]));
            let piece = line.substring_char(a + 3, b + 3);
            assert(piece@ =~= pieces[k as int]);
            let ghost before = labels@;
            let label = String::from_str(piece);
            labels.push(label);
            assert(texts(labels@) =~= pieces.take(k + 1)) by {
                assert(labels@ == before.push(label));
                assert(texts(before).len() == before.len());
                assert(pieces.take(k as int).len() == k);
                assert(before.len() == k);
                assert(texts(labels@)[k as int] == label@);
                assert forall|j: int| 0 <= j < k + 1 implies texts(labels@)[j] == pieces.take(
                    k + 1,
                )[j] by {
                    if j < k {
                        assert(texts(before)[j] == pieces.take(k as int)[j]);
                        assert(labels@[j] == before[j]);
                    }
                }
            }
        }
        assert(pieces.take(spans@.len() as int) =~= pieces);
        return SerialRecord::LabelSet(labels);
    }
    proof {
        if body@.len() >= 3 && body@.subrange(0, 3) == label_marker() {
            assert(body@.subrange(0, 3)[0] == '#');
            assert(body@.subrange(0, 3)[1] == 'L');
            assert(body@.subrange(0, 3)[2] == ' ');
        }
    }
    let sep = vec![' '];
    assert(sep@ =~= seq![' ']);
    let spans = split_spans(&body, &sep);
    let ghost pieces = split(body@, sep@);
    let mut vals: Vec<i64> = Vec::new();
    for k in 0..spans.len()
        invariant
            n == line@.len(),
            n >= 2,
            line@.subrange(n - 2, n as int) == line_end(),
            body@ == line@.subrange(0, n - 2),
            !(body@.len() >= 3 && body@.subrange(0, 3) == label_marker()),
            pieces == split(body@, sep@),
            sep@ == seq![' '],
            spans_are(body@, spans@, pieces),
            vals@ == ints_of(pieces.take(k as int)),
            all_ints(pieces.take(k as int)),
    {
        let (a, b) = spans[k];
        assert(span_is(body@, spans@[k as int], pieces[k as int]));
        match parse_int(&body, a, b) {
            Some(x) => {
                vals.push(x);
                assert(pieces.take(k + 1).drop_last() =~= pieces.take(k as int));
                assert(vals@ =~= ints_of(pieces.take(k + 1)));
                assert forall|j: int| 0 <= j < k + 1 implies (#[trigger] int_in(
                    pieces.take(k + 1)[j],
                    i64::MIN as int,
                    i64::MAX as int,
                )) is Some by {
                    if j < k {
                        assert(pieces.take(k + 1)[j] == pieces.take(k as int)[j]);
                    }
                }
            },
            None => {
                assert(!all_ints(pieces)) by {
                    assert(int_in(pieces[k as int], i64::MIN as int, i64::MAX as int) is None);
                }
                return SerialRecord::Unclassified(String::from_str(line));
            },
        }
    }
    assert(pieces.take(spans@.len() as int) =~= pieces);
    SerialRecord::ValueRow(vals)
}

/// Reads a fixed-schema line; `None` when it does not match the pattern.
pub fn parse_frame(line: &str) -> (r: Option<Frame>)
    ensures
        r == frame_of(line@),
{
    let v = chars_of(line);
    let n = v.len();
    if n < 2 || v[0] != '\r' || v[n - 1] != '\n' {
        return None;
    }
    let body = slice_chars(&v, 1, n - 1);
    let sep = vec![' '];
    assert(sep@ =~= seq![' ']);
    let spans = split_spans(&body, &sep);
    let ghost pieces = split(body@, sep@);
    let ghost nonempty = |w: Seq<char>| w.len() > 0;
    let mut ws: Vec<(usize, usize)> = Vec::new();
    for k in 0..spans.len()
        invariant
            spans_are(body@, spans@, pieces),
            spans_are(body@, ws@, pieces.take(k as int).filter(nonempty)),
            nonempty == (|w: Seq<char>| w.len() > 0),
    {
        let (a, b) = spans[k];
        assert(span_is(body@, spans@[k as int], pieces[k as int]));
        assert(pieces.take(k + 1).drop_last() =~= pieces.take(k as int));
        assert(pieces.take(k + 1).last() == pieces[k as int]);
        proof {
            assert(pieces.take(k as int).push(pieces[k as int]) =~= pieces.take(k + 1));
            pieces.take(k as int).lemma_filter_push(pieces[k as int], nonempty);
            assert((a < b) == nonempty(pieces[k as int]));
        }
        if a < b {
            proof {
                crate::text::lemma_spans_push(
                    body@,
                    ws@,
                    pieces.take(k as int).filter(nonempty),
                    (a, b),
                    pieces[k as int],
                );
            }
            ws.push((a, b));
        }
    }
    assert(pieces.take(spans@.len() as int) =~= pieces);
    let ghost w = pieces.filter(nonempty);
    assert(w == words(line@.subrange(1, n - 1)));
    if ws.len() != 4 {
        return None;
    }
    let (a0, b0) = ws[0];
    let (a1, b1) = ws[1];
    let (a2, b2) = ws[2];
    let (a3, b3) = ws[3];
    assert(span_is(body@, ws@[0], w[0]));
    assert(span_is(body@, ws@[1], w[1]));
    assert(span_is(body@, ws@[2], w[2]));
    assert(span_is(body@, ws@[3], w[3]));
    let sensor = parse_uint_in(&body, a0, b0, 255);
    let board = parse_uint_in(&body, a1, b1, 255);
    let value = parse_int_in(&body, a2, b2, -32768, 32767);
    let timestamp = parse_uint_in(&body, a3, b3, 0xffff_ffff);
    match (sensor, board, value, timestamp) {
        (Some(s), Some(bd), Some(x), Some(t)) => Some(
            Frame { sensor_id: s as u8, board_id: bd as u8, value: x as i16, timestamp: t as u32 },
        ),
        _ => None,
    }
}

} // verus!
