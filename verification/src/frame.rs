//! Length-prefixed framing of protocol messages on a byte stream.
//!
//! A frame is a header block, the blank line that ends it, and a body of
//! exactly as many bytes as the header's `Content-Length` field says. The
//! header is read as ASCII: the field's name is matched without regard to
//! case, and blanks around its value are the ASCII ones.

use vstd::prelude::*;
use vstd::slice::{slice_subrange, slice_to_vec};

verus! {

/// Whether the header terminator `CR LF CR LF` stands at position `i` of `buf`.
pub open spec fn terminator_at(buf: Seq<u8>, i: int) -> bool {
    &&& 0 <= i
    &&& i + 4 <= buf.len()
    &&& buf[i] == 13u8
    &&& buf[i + 1] == 10u8
    &&& buf[i + 2] == 13u8
    &&& buf[i + 3] == 10u8
}

/// The first position at or after `start` where the header terminator stands.
pub open spec fn terminator_from(buf: Seq<u8>, start: int) -> Option<int>
    decreases buf.len() - start,
{
    if start < 0 || start + 4 > buf.len() {
        None
    } else if terminator_at(buf, start) {
        Some(start)
    } else {
        terminator_from(buf, start + 1)
    }
}

/// The position of the first header terminator in `buf`.
pub open spec fn first_terminator(buf: Seq<u8>) -> Option<int> {
    terminator_from(buf, 0)
}

/// The field name `content-length:` in lower case.
pub open spec fn name_bytes() -> Seq<u8> {
    seq![99u8, 111u8, 110u8, 116u8, 101u8, 110u8, 116u8, 45u8, 108u8, 101u8, 110u8, 103u8, 116u8,
        104u8, 58u8]
}

/// The length of the field name with its colon.
pub const NAME_LEN: usize = 15;

/// `b` with an ASCII capital turned into its small letter.
pub open spec fn lower(b: u8) -> u8 {
    if 65 <= b && b <= 90 {
        (b + 32) as u8
    } else {
        b
    }
}

/// Whether `line` begins with the field name, in any case.
pub open spec fn names_length(line: Seq<u8>) -> bool {
    &&& line.len() >= 15
    &&& forall|i: int| 0 <= i < 15 ==> lower(#[trigger] line[i]) == name_bytes()[i]
}

/// Whether `b` is an ASCII blank: tab, line feed, vertical tab, form feed,
/// carriage return or space.
pub open spec fn is_blank(b: u8) -> bool {
    (9 <= b && b <= 13) || b == 32
}

/// `s` without the blanks at its start.
pub open spec fn trim_start(s: Seq<u8>) -> Seq<u8>
    decreases s.len(),
{
    if s.len() > 0 && is_blank(s[0]) {
        trim_start(s.drop_first())
    } else {
        s
    }
}

/// `s` without the blanks at its end.
pub open spec fn trim_end(s: Seq<u8>) -> Seq<u8>
    decreases s.len(),
{
    if s.len() > 0 && is_blank(s.last()) {
        trim_end(s.drop_last())
    } else {
        s
    }
}

/// `s` without the blanks at either end.
pub open spec fn trimmed(s: Seq<u8>) -> Seq<u8> {
    trim_end(trim_start(s))
}

/// Whether `b` is an ASCII decimal digit.
pub open spec fn is_digit(b: u8) -> bool {
    48 <= b && b <= 57
}

/// Whether every byte of `s` is a decimal digit.
pub open spec fn all_digits(s: Seq<u8>) -> bool {
    forall|i: int| 0 <= i < s.len() ==> is_digit(#[trigger] s[i])
}

/// The number that the decimal digits `s` write.
pub open spec fn decimal_value(s: Seq<u8>) -> nat
    decreases s.len(),
{
    if s.len() == 0 {
        0
    } else {
        decimal_value(s.drop_last()) * 10 + (s.last() - 48) as nat
    }
}

/// The decimal digits of `n`, without leading zeros.
pub open spec fn decimal_digits(n: nat) -> Seq<u8>
    decreases n,
{
    if n < 10 {
        seq![(48 + n) as u8]
    } else {
        decimal_digits(n / 10).push((48 + n % 10) as u8)
    }
}

/// The length that the field value `s` states: decimal digits, with a plus
/// sign before them or none, that write a number within `usize`.
pub open spec fn parse_length(s: Seq<u8>) -> Option<nat> {
    let digits = if s.len() > 0 && s[0] == 43u8 {
        s.drop_first()
    } else {
        s
    };
    if digits.len() > 0 && all_digits(digits) && decimal_value(digits) <= usize::MAX {
        Some(decimal_value(digits))
    } else {
        None
    }
}

/// The number of bytes of `s` before its first line feed.
pub open spec fn line_length(s: Seq<u8>) -> nat
    decreases s.len(),
{
    if s.len() == 0 || s[0] == 10u8 {
        0
    } else {
        1 + line_length(s.drop_first())
    }
}

/// `line` without a carriage return at its end.
pub open spec fn strip_cr(line: Seq<u8>) -> Seq<u8> {
    if line.len() > 0 && line.last() == 13u8 {
        line.drop_last()
    } else {
        line
    }
}

/// The body length that the header block `h` states. The lines of `h` end in
/// a line feed, with a carriage return before it or none. The first line that
/// begins with the field name decides: its value is what follows the name,
/// without the blanks around it.
pub open spec fn content_length(h: Seq<u8>) -> Option<nat>
    decreases h.len(),
{
    if h.len() == 0 {
        None
    } else {
        let n = line_length(h);
        let line = strip_cr(h.take(n as int));
        if names_length(line) {
            parse_length(trimmed(line.skip(15)))
        } else if n < h.len() {
            content_length(h.skip(n as int + 1))
        } else {
            None
        }
    }
}

/// What the start of a buffer holds.
#[derive(Debug, PartialEq, Eq)]
pub enum Decoded {
    /// No whole frame yet: more bytes are needed.
    Incomplete,
    /// A header block of `consumed` bytes that states no usable length.
    Malformed { consumed: usize },
    /// A frame of `consumed` bytes with this body.
    Frame { body: Vec<u8>, consumed: usize },
}

/// The mathematical value of a [`Decoded`].
pub enum DecodedModel {
    Incomplete,
    Malformed { consumed: int },
    Frame { body: Seq<u8>, consumed: int },
}

impl View for Decoded {
    type V = DecodedModel;

    open spec fn view(&self) -> DecodedModel {
        match self {
            Decoded::Incomplete => DecodedModel::Incomplete,
            Decoded::Malformed { consumed } => DecodedModel::Malformed { consumed: *consumed as int },
            Decoded::Frame { body, consumed } => DecodedModel::Frame {
                body: body@,
                consumed: *consumed as int,
            },
        }
    }
}

/// What the start of `buf` holds. The header block ends with the first
/// terminator; without one, or with fewer body bytes than the header states,
/// the frame is incomplete.
pub open spec fn decode(buf: Seq<u8>) -> DecodedModel {
    match first_terminator(buf) {
        None => DecodedModel::Incomplete,
        Some(i) => match content_length(buf.take(i + 4)) {
            None => DecodedModel::Malformed { consumed: i + 4 },
            Some(n) => if i + 4 + n <= buf.len() {
                DecodedModel::Frame { body: buf.subrange(i + 4, i + 4 + n), consumed: i + 4 + n }
            } else {
                DecodedModel::Incomplete
            },
        },
    }
}

/// The header block for a body of `n` bytes.
pub open spec fn header_for(n: nat) -> Seq<u8> {
    seq![67u8, 111u8, 110u8, 116u8, 101u8, 110u8, 116u8, 45u8, 76u8, 101u8, 110u8, 103u8, 116u8,
        104u8, 58u8, 32u8] + decimal_digits(n) + seq![13u8, 10u8, 13u8, 10u8]
}

/// The frame that carries `body`.
pub open spec fn frame_bytes(body: Seq<u8>) -> Seq<u8> {
    header_for(body.len()) + body
}

/// A found terminator is the first one, and where none is found there is none.
pub proof fn lemma_terminator_from(buf: Seq<u8>, start: int)
    requires
        0 <= start,
    ensures
        match terminator_from(buf, start) {
            Some(i) => start <= i && terminator_at(buf, i) && forall|j: int|
                start <= j < i ==> !terminator_at(buf, j),
            None => forall|j: int| start <= j ==> !terminator_at(buf, j),
        },
    decreases buf.len() - start,
{
    if start + 4 <= buf.len() && !terminator_at(buf, start) {
        lemma_terminator_from(buf, start + 1);
    }
}

/// Where the terminator stands at `i` and nowhere before, the search from
/// `start` finds `i`.
pub proof fn lemma_terminator_found(buf: Seq<u8>, start: int, i: int)
    requires
        0 <= start <= i,
        terminator_at(buf, i),
        forall|j: int| start <= j < i ==> !terminator_at(buf, j),
    ensures
        terminator_from(buf, start) == Some(i),
    decreases i - start,
{
    if start < i {
        lemma_terminator_found(buf, start + 1, i);
    }
}

/// Tests for the header terminator at position `i`.
pub fn is_terminator_at(buf: &[u8], i: usize) -> (found: bool)
    ensures
        found == terminator_at(buf@, i as int),
{
    if buf.len() < 4 || i > buf.len() - 4 {
        return false;
    }
    buf[i] == 13u8 && buf[i + 1] == 10u8 && buf[i + 2] == 13u8 && buf[i + 3] == 10u8
}

/// Finds the first header terminator in `buf`.
pub fn find_terminator(buf: &[u8]) -> (r: Option<usize>)
    ensures
        match r {
            Some(i) => first_terminator(buf@) == Some(i as int) && i + 4 <= buf.len(),
            None => first_terminator(buf@) is None,
        },
{
    let mut i: usize = 0;
    while i < buf.len()
        invariant
            first_terminator(buf@) == terminator_from(buf@, i as int),
        decreases buf.len() - i,
    {
        if is_terminator_at(buf, i) {
            return Some(i);
        }
        i = i + 1;
    }
    None
}

/// Turns an ASCII capital into its small letter.
pub fn to_lower(b: u8) -> (r: u8)
    ensures
        r == lower(b),
{
    if 65 <= b && b <= 90 {
        b + 32
    } else {
        b
    }
}

/// Tests whether a byte is an ASCII blank.
pub fn blank(b: u8) -> (r: bool)
    ensures
        r == is_blank(b),
{
    (9 <= b && b <= 13) || b == 32
}

/// Tests whether `line` begins with the field name, in any case.
pub fn begins_with_name(line: &[u8]) -> (r: bool)
    ensures
        r == names_length(line@),
{
    if line.len() < NAME_LEN {
        return false;
    }
    let name: Vec<u8> = vec![
        99u8,
        111u8,
        110u8,
        116u8,
        101u8,
        110u8,
        116u8,
        45u8,
        108u8,
        101u8,
        110u8,
        103u8,
        116u8,
        104u8,
        58u8,
    ];
    assert(name@ =~= name_bytes());
    let mut i: usize = 0;
    while i < NAME_LEN
        invariant
            i <= 15,
            line.len() >= 15,
            name@ == name_bytes(),
            forall|k: int| 0 <= k < i ==> lower(#[trigger] line@[k]) == name_bytes()[k],
        decreases 15 - i,
    {
        if to_lower(line[i]) != name[i] {
            return false;
        }
        i = i + 1;
    }
    true
}

/// The part of `s` that is left without the blanks at either end.
pub fn trim(s: &[u8]) -> (r: &[u8])
    ensures
        r@ == trimmed(s@),
{
    let mut from: usize = 0;
    assert(s@.skip(0) =~= s@);
    while from < s.len() && blank(s[from])
        invariant
            from <= s.len(),
            trim_start(s@) == trim_start(s@.skip(from as int)),
        decreases s.len() - from,
    {
        proof {
            assert(s@.skip(from as int).drop_first() =~= s@.skip(from as int + 1));
        }
        from = from + 1;
    }
    assert(trim_start(s@) == s@.skip(from as int));
    let mut to: usize = s.len();
    assert(s@.subrange(from as int, to as int) =~= s@.skip(from as int));
    while to > from && blank(s[to - 1])
        invariant
            from <= to <= s.len(),
            trimmed(s@) == trim_end(s@.subrange(from as int, to as int)),
        decreases to - from,
    {
        proof {
            assert(s@.subrange(from as int, to as int).drop_last() =~= s@.subrange(
                from as int,
                to as int - 1,
            ));
        }
        to = to - 1;
    }
    slice_subrange(s, from, to)
}

/// A shorter start of a digit string writes a number that is no larger.
pub proof fn lemma_decimal_prefix(s: Seq<u8>, k: int)
    requires
        0 <= k <= s.len(),
        all_digits(s),
    ensures
        decimal_value(s.take(k)) <= decimal_value(s),
    decreases s.len() - k,
{
    if k < s.len() {
        let longer = s.take(k + 1);
        assert(longer.drop_last() =~= s.take(k));
        assert(is_digit(s[k]));
        assert(longer.last() == s[k]);
        lemma_decimal_prefix(s, k + 1);
    } else {
        assert(s.take(k) =~= s);
    }
}

/// The number that the digits of `s` write, where it is within `usize`.
pub fn parse_digits(s: &[u8]) -> (r: Option<usize>)
    ensures
        match r {
            Some(n) => s.len() > 0 && all_digits(s@) && decimal_value(s@) == n,
            None => !(s.len() > 0 && all_digits(s@) && decimal_value(s@) <= usize::MAX),
        },
{
    if s.len() == 0 {
        return None;
    }
    let mut acc: usize = 0;
    let mut i: usize = 0;
    while i < s.len()
        invariant
            i <= s.len(),
            all_digits(s@.take(i as int)),
            acc == decimal_value(s@.take(i as int)),
        decreases s.len() - i,
    {
        let b = s[i];
        if !(48 <= b && b <= 57) {
            return None;
        }
        let d: usize = (b - 48) as usize;
        proof {
            assert(s@.take(i as int + 1).drop_last() =~= s@.take(i as int));
            assert(s@.take(i as int + 1).last() == s@[i as int]);
            assert forall|k: int| 0 <= k < i + 1 implies is_digit(
                #[trigger] s@.take(i as int + 1)[k],
            ) by {
                if k < i {
                    assert(s@.take(i as int)[k] == s@[k]);
                }
            }
        }
        if acc > (usize::MAX - d) / 10 {
            proof {
                // The digits read so far already write a number that is too large.
                if all_digits(s@) {
                    lemma_decimal_prefix(s@, i as int + 1);
                }
                assert(acc * 10 + d > usize::MAX) by (nonlinear_arith)
                    requires
                        acc > (usize::MAX - d) / 10,
                        0 <= d <= 9,
                ;
            }
            return None;
        }
        assert(acc * 10 + d <= usize::MAX) by (nonlinear_arith)
            requires
                acc <= (usize::MAX - d) / 10,
                0 <= d <= 9,
        ;
        acc = acc * 10 + d;
        i = i + 1;
    }
    assert(s@.take(i as int) =~= s@);
    Some(acc)
}

/// The length that a field value states.
pub fn parse_length_value(s: &[u8]) -> (r: Option<usize>)
    ensures
        match r {
            Some(n) => parse_length(s@) == Some(n as nat),
            None => parse_length(s@) is None,
        },
{
    if s.len() > 0 && s[0] == 43u8 {
        let digits = slice_subrange(s, 1, s.len());
        assert(digits@ =~= s@.drop_first());
        parse_digits(digits)
    } else {
        parse_digits(s)
    }
}

/// The body length that a header block states.
pub fn header_content_length(h: &[u8]) -> (r: Option<usize>)
    ensures
        match r {
            Some(n) => content_length(h@) == Some(n as nat),
            None => content_length(h@) is None,
        },
{
    let mut start: usize = 0;
    assert(h@.skip(0) =~= h@);
    while start < h.len()
        invariant
            start <= h.len(),
            content_length(h@) == content_length(h@.skip(start as int)),
        decreases h.len() - start,
    {
        let ghost rest = h@.skip(start as int);
        let mut end: usize = start;
        while end < h.len() && h[end] != 10u8
            invariant
                start <= end <= h.len(),
                rest == h@.skip(start as int),
                line_length(rest) == (end - start) + line_length(h@.skip(end as int)),
            decreases h.len() - end,
        {
            proof {
                assert(h@.skip(end as int).drop_first() =~= h@.skip(end as int + 1));
            }
            end = end + 1;
        }
        assert(line_length(rest) == end - start);
        assert(rest.take((end - start) as int) =~= h@.subrange(start as int, end as int));
        let mut stop: usize = end;
        if stop > start && h[stop - 1] == 13u8 {
            stop = stop - 1;
        }
        let line = slice_subrange(h, start, stop);
        assert(line@ =~= strip_cr(h@.subrange(start as int, end as int)));
        if begins_with_name(line) {
            let value = slice_subrange(line, NAME_LEN, line.len());
            assert(value@ =~= line@.skip(15));
            return parse_length_value(trim(value));
        }
        if end == h.len() {
            return None;
        }
        proof {
            assert(rest.skip(end - start + 1) =~= h@.skip(end as int + 1));
        }
        start = end + 1;
    }
    None
}

/// Reads what the start of `buf` holds.
pub fn decode_frame(buf: &[u8]) -> (r: Decoded)
    ensures
        r@ == decode(buf@),
{
    match find_terminator(buf) {
        None => Decoded::Incomplete,
        Some(i) => {
            proof {
                lemma_terminator_from(buf@, 0);
                assert(terminator_at(buf@, i as int));
            }
            let header_end: usize = i + 4;
            let header = slice_subrange(buf, 0, header_end);
            assert(header@ =~= buf@.take(i + 4));
            match header_content_length(header) {
                None => Decoded::Malformed { consumed: header_end },
                Some(n) => {
                    if buf.len() - header_end >= n {
                        let body = slice_to_vec(slice_subrange(buf, header_end, header_end + n));
                        Decoded::Frame { body, consumed: header_end + n }
                    } else {
                        Decoded::Incomplete
                    }
                },
            }
        },
    }
}

/// Appends the decimal digits of `n` to `out`.
pub fn push_decimal(out: &mut Vec<u8>, n: usize)
    ensures
        final(out)@ == old(out)@ + decimal_digits(n as nat),
    decreases n,
{
    if n >= 10 {
        push_decimal(out, n / 10);
    }
    let d: u8 = (n % 10) as u8;
    out.push(48 + d);
    proof {
        if n >= 10 {
            assert(final(out)@ =~= old(out)@ + decimal_digits(n as nat));
        } else {
            assert(final(out)@ =~= old(out)@ + decimal_digits(n as nat));
        }
    }
}

/// Writes the frame that carries `body`: the header with the exact length,
/// then the body.
pub fn encode_frame(body: &[u8]) -> (r: Vec<u8>)
    ensures
        r@ == frame_bytes(body@),
{
    let mut out: Vec<u8> = vec![
        67u8,
        111u8,
        110u8,
        116u8,
        101u8,
        110u8,
        116u8,
        45u8,
        76u8,
        101u8,
        110u8,
        103u8,
        116u8,
        104u8,
        58u8,
        32u8,
    ];
    push_decimal(&mut out, body.len());
    out.push(13u8);
    out.push(10u8);
    out.push(13u8);
    out.push(10u8);
    assert(out@ =~= header_for(body@.len()));
    out.extend_from_slice(body);
    out
}


/// The digits of a number are digits, at least one of them, and write that
/// number.
pub proof fn lemma_decimal_round_trip(n: nat)
    ensures
        decimal_digits(n).len() > 0,
        all_digits(decimal_digits(n)),
        decimal_value(decimal_digits(n)) == n,
    decreases n,
{
    reveal_with_fuel(decimal_value, 2);
    if n < 10 {
        assert(decimal_digits(n).drop_last() =~= Seq::empty());
    } else {
        lemma_decimal_round_trip(n / 10);
        assert(decimal_digits(n).drop_last() =~= decimal_digits(n / 10));
    }
}

/// A line ends at the first line feed.
pub proof fn lemma_line_length(s: Seq<u8>, m: int)
    requires
        0 <= m < s.len(),
        s[m] == 10u8,
        forall|j: int| 0 <= j < m ==> s[j] != 10u8,
    ensures
        line_length(s) == m,
    decreases m,
{
    if m > 0 {
        let rest = s.drop_first();
        assert(rest[m - 1] == s[m]);
        assert forall|j: int| 0 <= j < m - 1 implies rest[j] != 10u8 by {
            assert(rest[j] == s[j + 1]);
        }
        lemma_line_length(rest, m - 1);
    }
}

/// Trimming leaves alone what neither begins nor ends with a blank.
pub proof fn lemma_trimmed_identity(s: Seq<u8>)
    requires
        s.len() > 0,
        !is_blank(s[0]),
        !is_blank(s.last()),
    ensures
        trimmed(s) == s,
{
}

/// The header that is written for a body of `n` bytes states `n`.
pub proof fn lemma_header_states_length(n: nat)
    requires
        n <= usize::MAX,
    ensures
        content_length(header_for(n)) == Some(n),
        first_terminator(header_for(n)) == Some(header_for(n).len() - 4),
{
    let d = decimal_digits(n);
    let k = d.len() as int;
    let h = header_for(n);
    lemma_decimal_round_trip(n);
    assert(h.len() == 20 + k);
    assert forall|j: int| 0 <= j < 16 + k implies h[j] != 13u8 && h[j] != 10u8 by {
        if j >= 16 {
            assert(h[j] == d[j - 16]);
            assert(is_digit(d[j - 16]));
        }
    }
    assert(terminator_at(h, 16 + k));
    lemma_terminator_found(h, 0, 16 + k);
    lemma_line_length(h, 17 + k);
    let line = strip_cr(h.take(17 + k));
    assert(h.take(17 + k).last() == 13u8);
    assert(line =~= h.take(16 + k));
    assert(names_length(line)) by {
        assert forall|i: int| 0 <= i < 15 implies lower(#[trigger] line[i]) == name_bytes()[i] by {
            assert(line[i] == h[i]);
        }
    }
    let value = line.skip(15);
    assert(value[0] == 32u8);
    assert(value.drop_first() =~= d);
    assert(is_digit(d[0]));
    assert(is_digit(d.last()));
    lemma_trimmed_identity(d);
    assert(trim_start(value) == d);
    assert(trimmed(value) == d);
}

/// A written frame, with whatever follows it in the buffer, is read back as
/// that frame: the same body, and exactly the frame's bytes consumed. So
/// frames that arrive together are read one by one.
pub proof fn lemma_decode_encoded(body: Seq<u8>, rest: Seq<u8>)
    requires
        body.len() <= usize::MAX,
    ensures
        decode(frame_bytes(body) + rest) == (DecodedModel::Frame {
            body,
            consumed: frame_bytes(body).len() as int,
        }),
{
    let n = body.len();
    let h = header_for(n);
    let buf = frame_bytes(body) + rest;
    let i = h.len() - 4;
    lemma_header_states_length(n);
    lemma_terminator_from(h, 0);
    assert(terminator_at(h, i));
    assert(terminator_at(buf, i)) by {
        assert(buf[i] == h[i]);
        assert(buf[i + 1] == h[i + 1]);
        assert(buf[i + 2] == h[i + 2]);
        assert(buf[i + 3] == h[i + 3]);
    }
    assert forall|j: int| 0 <= j < i implies !terminator_at(buf, j) by {
        assert(!terminator_at(h, j));
        assert(buf[j] == h[j]);
        assert(buf[j + 1] == h[j + 1]);
        assert(buf[j + 2] == h[j + 2]);
        assert(buf[j + 3] == h[j + 3]);
    }
    lemma_terminator_found(buf, 0, i);
    assert(buf.take(i + 4) =~= h);
    assert(buf.subrange(i + 4, i + 4 + n) =~= body);
}

/// The field name is matched without regard to case: two lines whose first
/// fifteen bytes agree but for the case of their letters both begin with the
/// name, or neither does.
pub proof fn lemma_name_ignores_case(a: Seq<u8>, b: Seq<u8>)
    requires
        a.len() >= 15,
        b.len() >= 15,
        forall|i: int| 0 <= i < 15 ==> lower(a[i]) == lower(b[i]),
    ensures
        names_length(a) == names_length(b),
{
    if names_length(a) {
        assert forall|i: int| 0 <= i < 15 implies lower(#[trigger] b[i]) == name_bytes()[i] by {
            assert(lower(a[i]) == name_bytes()[i]);
        }
    }
    if names_length(b) {
        assert forall|i: int| 0 <= i < 15 implies lower(#[trigger] a[i]) == name_bytes()[i] by {
            assert(lower(b[i]) == name_bytes()[i]);
        }
    }
}

/// A header line that does not begin with the field name is passed over: a
/// header states what the lines after such a line state.
pub proof fn lemma_other_line_is_passed_over(line: Seq<u8>, rest: Seq<u8>)
    requires
        forall|i: int| 0 <= i < line.len() ==> line[i] != 10u8,
        !names_length(strip_cr(line)),
    ensures
        content_length(line + seq![10u8] + rest) == content_length(rest),
{
    let h = line + seq![10u8] + rest;
    let n = line.len() as int;
    assert(h[n] == 10u8);
    assert forall|j: int| 0 <= j < n implies h[j] != 10u8 by {
        assert(h[j] == line[j]);
    }
    lemma_line_length(h, n);
    assert(h.take(n) =~= line);
    assert(h.skip(n + 1) =~= rest);
}

/// A buffer that holds no terminator holds no frame yet.
pub proof fn lemma_decode_needs_terminator(buf: Seq<u8>)
    requires
        forall|j: int| !terminator_at(buf, j),
    ensures
        decode(buf) == DecodedModel::Incomplete,
{
    lemma_terminator_from(buf, 0);
}

} // verus!
