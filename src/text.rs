use vstd::prelude::*;
use vstd::string::*;

verus! {

/// Whether `sep` occurs in `s` at position `i`.
pub open spec fn occurs_at(s: Seq<char>, sep: Seq<char>, i: int) -> bool {
    0 <= i && i + sep.len() <= s.len() && s.subrange(i, i + sep.len()) == sep
}

/// The pieces of `s` between non-overlapping occurrences of `sep`, found left
/// to right, looking for the next occurrence from position `i` onwards.
pub open spec fn split_from(s: Seq<char>, sep: Seq<char>, i: nat) -> Seq<Seq<char>>
    decreases s.len(), s.len() - i,
{
    if sep.len() == 0 || i + sep.len() > s.len() {
        seq![s]
    } else if occurs_at(s, sep, i as int) {
        seq![s.subrange(0, i as int)] + split_from(
            s.subrange((i + sep.len()) as int, s.len() as int),
            sep,
            0,
        )
    } else {
        split_from(s, sep, i + 1)
    }
}

/// `s` split on every occurrence of `sep`, as `str::split` does: two adjacent
/// separators give an empty piece, and a string without `sep` is one piece.
pub open spec fn split(s: Seq<char>, sep: Seq<char>) -> Seq<Seq<char>> {
    split_from(s, sep, 0)
}

/// The pieces of `s` between spaces, runs of spaces counting as one gap.
pub open spec fn words(s: Seq<char>) -> Seq<Seq<char>> {
    split(s, seq![' ']).filter(|w: Seq<char>| w.len() > 0)
}

pub open spec fn is_digit(c: char) -> bool {
    '0' <= c && c <= '9'
}

pub open spec fn all_digits(s: Seq<char>) -> bool {
    forall|i: int| 0 <= i < s.len() ==> is_digit(#[trigger] s[i])
}

/// The number that a string of decimal digits writes.
pub open spec fn digits_value(s: Seq<char>) -> nat
    decreases s.len(),
{
    if s.len() == 0 {
        0
    } else {
        10 * digits_value(s.drop_last()) + (s.last() as nat - '0' as nat) as nat
    }
}

/// The integer that `s` writes in decimal, with an optional sign, as
/// `str::parse` reads it for a signed type; `None` when `s` is no such text.
pub open spec fn int_of(s: Seq<char>) -> Option<int> {
    if s.len() > 0 && (s[0] == '-' || s[0] == '+') {
        let d = s.subrange(1, s.len() as int);
        if d.len() > 0 && all_digits(d) {
            if s[0] == '-' {
                Some(-(digits_value(d) as int))
            } else {
                Some(digits_value(d) as int)
            }
        } else {
            None
        }
    } else if s.len() > 0 && all_digits(s) {
        Some(digits_value(s) as int)
    } else {
        None
    }
}

/// `int_of(s)` when it lies in `lo ..= hi`.
pub open spec fn int_in(s: Seq<char>, lo: int, hi: int) -> Option<int> {
    match int_of(s) {
        Some(v) => if lo <= v <= hi {
            Some(v)
        } else {
            None
        },
        None => None,
    }
}

/// The integer that `s` writes for an unsigned type: no minus sign.
pub open spec fn uint_in(s: Seq<char>, hi: int) -> Option<int> {
    if s.len() > 0 && s[0] == '-' {
        None
    } else {
        int_in(s, 0, hi)
    }
}

/// The characters of `s`, one by one.
pub fn chars_of(s: &str) -> (r: Vec<char>)
    ensures
        r@ == s@,
{
    let mut r: Vec<char> = Vec::new();
    for c in it: s.chars()
        invariant
            r@ == it.seq().take(it.index() as int),
    {
        r.push(c);
        assert(r@ =~= it.seq().take(it.index() + 1));
    }
    assert(r@ =~= s@);
    r
}

/// Whether `sep` occurs in `v` at position `i`.
pub fn matches_at(v: &Vec<char>, sep: &Vec<char>, i: usize) -> (r: bool)
    ensures
        r == occurs_at(v@, sep@, i as int),
{
    if sep.len() > v.len() || i > v.len() - sep.len() {
        return false;
    }
    let m = sep.len();
    let mut k: usize = 0;
    while k < m
        invariant
            m == sep@.len(),
            i + m <= v.len(),
            k <= sep@.len(),
            forall|j: int| 0 <= j < k ==> v@[i + j] == sep@[j],
        decreases sep@.len() - k,
    {
        if v[i + k] != sep[k] {
            assert(v@.subrange(i as int, i + sep@.len())[k as int] != sep@[k as int]);
            return false;
        }
        k = k + 1;
    }
    assert(v@.subrange(i as int, i + sep@.len()) =~= sep@);
    true
}

/// `sp` bounds a part of `v`, and that part is `piece`.
pub open spec fn span_is(v: Seq<char>, sp: (usize, usize), piece: Seq<char>) -> bool {
    sp.0 <= sp.1 <= v.len() && v.subrange(sp.0 as int, sp.1 as int) == piece
}

/// Each of `spans` bounds the piece of `v` at the same index of `pieces`.
pub open spec fn spans_are(v: Seq<char>, spans: Seq<(usize, usize)>, pieces: Seq<Seq<char>>) -> bool {
    &&& spans.len() == pieces.len()
    &&& forall|k: int| 0 <= k < spans.len() ==> #[trigger] span_is(v, spans[k], pieces[k])
}

pub proof fn lemma_spans_push(
    v: Seq<char>,
    spans: Seq<(usize, usize)>,
    pieces: Seq<Seq<char>>,
    sp: (usize, usize),
    piece: Seq<char>,
)
    requires
        spans_are(v, spans, pieces),
        span_is(v, sp, piece),
    ensures
        spans_are(v, spans.push(sp), pieces.push(piece)),
{
    assert forall|k: int| 0 <= k < spans.len() + 1 implies #[trigger] span_is(
        v,
        spans.push(sp)[k],
        pieces.push(piece)[k],
    ) by {
        if k < spans.len() {
            assert(span_is(v, spans[k], pieces[k]));
        }
    }
}

/// The bounds of the pieces of `v` between occurrences of a non-empty `sep`.
pub fn split_spans(v: &Vec<char>, sep: &Vec<char>) -> (r: Vec<(usize, usize)>)
    requires
        sep@.len() > 0,
    ensures
        spans_are(v@, r@, split(v@, sep@)),
{
    let n = v.len();
    let m = sep.len();
    let mut r: Vec<(usize, usize)> = Vec::new();
    let mut start: usize = 0;
    let mut i: usize = 0;
    let ghost done: Seq<Seq<char>> = seq![];
    assert(v@.subrange(0, n as int) =~= v@);
    assert(done + split(v@, sep@) =~= split(v@, sep@));
    loop
        invariant
            n == v@.len(),
            m == sep@.len(),
            m > 0,
            start <= i <= n,
            spans_are(v@, r@, done),
            split(v@, sep@) == done + split_from(
                v@.subrange(start as int, n as int),
                sep@,
                (i - start) as nat,
            ),
        decreases n - start, n - i,
    {
        let ghost rest = v@.subrange(start as int, n as int);
        if m > n - i {
            assert(split_from(rest, sep@, (i - start) as nat) == seq![rest]);
            proof {
                lemma_spans_push(v@, r@, done, (start, n), rest);
            }
            r.push((start, n));
            proof {
                done = done.push(rest);
                assert(split(v@, sep@) =~= done);
            }
            return r;
        }
        let hit = matches_at(v, sep, i);
        proof {
            assert(rest.subrange((i - start) as int, (i - start) + m) =~= v@.subrange(
                i as int,
                i + m,
            ));
        }
        if hit {
            let ghost piece = v@.subrange(start as int, i as int);
            assert(rest.subrange(0, (i - start) as int) =~= piece);
            assert(rest.subrange((i - start) + m, rest.len() as int) =~= v@.subrange(
                (i + m) as int,
                n as int,
            ));
            proof {
                lemma_spans_push(v@, r@, done, (start, i), piece);
            }
            r.push((start, i));
            proof {
                assert(done + split_from(rest, sep@, (i - start) as nat) =~= done.push(piece)
                    + split_from(v@.subrange((i + m) as int, n as int), sep@, 0));
                done = done.push(piece);
            }
            i = i + m;
            start = i;
        } else {
            i = i + 1;
        }
    }
}

/// The integer that `v[a..b]` writes, when it is one and fits in an `i64`.
pub fn parse_int(v: &Vec<char>, a: usize, b: usize) -> (r: Option<i64>)
    requires
        a <= b <= v@.len(),
    ensures
        r matches Some(x) ==> int_of(v@.subrange(a as int, b as int)) == Some(x as int),
        r is None ==> int_in(v@.subrange(a as int, b as int), i64::MIN as int, i64::MAX as int)
            is None,
{
    let ghost s = v@.subrange(a as int, b as int);
    if a == b {
        return None;
    }
    let neg = v[a] == '-';
    let signed = neg || v[a] == '+';
    let first: usize = if signed {
        a + 1
    } else {
        a
    };
    assert(s[0] == v@[a as int]);
    if first == b {
        return None;
    }
    let ghost d = v@.subrange(first as int, b as int);
    assert(signed ==> d =~= s.subrange(1, s.len() as int));
    assert(!signed ==> d =~= s);
    let limit: u64 = 9_223_372_036_854_775_808;
    let mut acc: u64 = 0;
    let mut big = false;
    let mut i: usize = first;
    while i < b
        invariant
            first <= i <= b <= v@.len(),
            a < b,
            s == v@.subrange(a as int, b as int),
            d == v@.subrange(first as int, b as int),
            s[0] == v@[a as int],
            neg == (v@[a as int] == '-'),
            signed == (neg || v@[a as int] == '+'),
            signed ==> first == a + 1 && d == s.subrange(1, s.len() as int),
            !signed ==> first == a && d == s,
            forall|j: int| first <= j < i ==> is_digit(#[trigger] v@[j]),
            !big ==> acc as nat == digits_value(v@.subrange(first as int, i as int)),
            !big ==> acc <= limit,
            big ==> digits_value(v@.subrange(first as int, i as int)) > limit,
        decreases b - i,
    {
        let c = v[i];
        if !('0' <= c && c <= '9') {
            assert(d[i - first] == c);
            assert(!all_digits(d));
            assert(int_of(s) is None);
            return None;
        }
        let ghost p = v@.subrange(first as int, i + 1);
        assert(p.drop_last() =~= v@.subrange(first as int, i as int));
        assert(p.last() == c);
        let digit: u64 = (c as u32 - '0' as u32) as u64;
        assert(digit <= 9);
        if !big {
            let next: u128 = acc as u128 * 10 + digit as u128;
            if next > limit as u128 {
                big = true;
            } else {
                acc = next as u64;
            }
        }
        i = i + 1;
    }
    assert(all_digits(d));
    assert(v@.subrange(first as int, b as int) == d);
    if big {
        return None;
    }
    if neg {
        if acc == limit {
            Some(i64::MIN)
        } else {
            Some(-(acc as i64))
        }
    } else if acc == limit {
        None
    } else {
        Some(acc as i64)
    }
}

/// The characters of `v` from `a` up to `b`.
pub fn slice_chars(v: &Vec<char>, a: usize, b: usize) -> (r: Vec<char>)
    requires
        a <= b <= v@.len(),
    ensures
        r@ == v@.subrange(a as int, b as int),
{
    let mut r: Vec<char> = Vec::new();
    let mut i: usize = a;
    while i < b
        invariant
            a <= i <= b <= v@.len(),
            r@ == v@.subrange(a as int, i as int),
        decreases b - i,
    {
        r.push(v[i]);
        assert(r@ =~= v@.subrange(a as int, i + 1));
        i = i + 1;
    }
    r
}

/// The integer that `v[a..b]` writes, when it is one and lies in `lo ..= hi`.
pub fn parse_int_in(v: &Vec<char>, a: usize, b: usize, lo: i64, hi: i64) -> (r: Option<i64>)
    requires
        a <= b <= v@.len(),
    ensures
        r matches Some(x) ==> int_in(v@.subrange(a as int, b as int), lo as int, hi as int) == Some(
            x as int,
        ),
        r is None ==> int_in(v@.subrange(a as int, b as int), lo as int, hi as int) is None,
{
    match parse_int(v, a, b) {
        Some(x) => if lo <= x && x <= hi {
            Some(x)
        } else {
            None
        },
        None => None,
    }
}

/// The integer that `v[a..b]` writes without a minus sign, when it is at most `hi`.
pub fn parse_uint_in(v: &Vec<char>, a: usize, b: usize, hi: i64) -> (r: Option<i64>)
    requires
        a <= b <= v@.len(),
    ensures
        r matches Some(x) ==> uint_in(v@.subrange(a as int, b as int), hi as int) == Some(x as int),
        r is None ==> uint_in(v@.subrange(a as int, b as int), hi as int) is None,
{
    if a < b && v[a] == '-' {
        assert(v@.subrange(a as int, b as int)[0] == '-');
        return None;
    }
    parse_int_in(v, a, b, 0, hi)
}

} // verus!
