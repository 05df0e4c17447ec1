//! Content-Length framing as used by LSP and DAP: a block of header lines,
//! each ended by a newline, closed by a blank line, then exactly as many body
//! bytes as the `Content-Length` header declares.
//!
//! Header names match case-insensitively; name and value are trimmed of ASCII
//! whitespace; a header line without a colon is ignored; when the length
//! header repeats, the last one counts.

use vstd::prelude::*;

verus! {

/// Why a buffer can never become a valid frame.
#[derive(PartialEq, Eq, Structural, Clone, Copy, Debug)]
pub enum FrameError {
    /// The header block ended without a `Content-Length` header.
    MissingContentLength,
    /// A `Content-Length` value is not a non-negative decimal integer that fits in `usize`.
    InvalidContentLength,
}

/// What a buffer holds at its start, in the model.
pub enum FrameSpec {
    /// A whole frame: its body, and the number of bytes it takes up.
    Complete { body: Seq<u8>, used: int },
    /// The start of a frame; more bytes are needed.
    Incomplete,
    /// Bytes that no continuation can turn into a frame.
    Invalid { err: FrameError },
}

/// What one header line says.
pub enum HeaderLine {
    Blank,
    Length { n: usize },
    BadLength,
    Other,
}

pub open spec fn is_ascii_ws(b: u8) -> bool {
    b == 32 || (9 <= b && b <= 13)
}

pub open spec fn trim_start(s: Seq<u8>) -> Seq<u8>
    decreases s.len(),
{
    if s.len() > 0 && is_ascii_ws(s[0]) {
        trim_start(s.drop_first())
    } else {
        s
    }
}

pub open spec fn trim_end(s: Seq<u8>) -> Seq<u8>
    decreases s.len(),
{
    if s.len() > 0 && is_ascii_ws(s.last()) {
        trim_end(s.drop_last())
    } else {
        s
    }
}

pub open spec fn trim(s: Seq<u8>) -> Seq<u8> {
    trim_end(trim_start(s))
}

/// `s` without its trailing carriage returns and newlines.
pub open spec fn strip_line_end(s: Seq<u8>) -> Seq<u8>
    decreases s.len(),
{
    if s.len() > 0 && (s.last() == 13 || s.last() == 10) {
        strip_line_end(s.drop_last())
    } else {
        s
    }
}

pub open spec fn ascii_lower(b: u8) -> u8 {
    if 65 <= b && b <= 90 {
        (b + 32) as u8
    } else {
        b
    }
}

pub open spec fn eq_ignore_ascii_case(a: Seq<u8>, b: Seq<u8>) -> bool {
    a.len() == b.len() && forall|i: int| 0 <= i < a.len() ==> ascii_lower(a[i]) == ascii_lower(b[i])
}

/// The bytes of `content-length`.
pub open spec fn content_length_name() -> Seq<u8> {
    seq![99u8, 111, 110, 116, 101, 110, 116, 45, 108, 101, 110, 103, 116, 104]
}

/// The bytes of `Content-Length: `.
pub open spec fn content_length_prefix() -> Seq<u8> {
    seq![67u8, 111, 110, 116, 101, 110, 116, 45, 76, 101, 110, 103, 116, 104, 58, 32]
}

pub open spec fn is_digit(b: u8) -> bool {
    48 <= b && b <= 57
}

/// The number that a sequence of decimal digits denotes.
pub open spec fn digits_value(s: Seq<u8>) -> nat
    decreases s.len(),
{
    if s.len() == 0 {
        0
    } else {
        digits_value(s.drop_last()) * 10 + (s.last() - 48) as nat
    }
}

/// A `usize` written in decimal, with an optional leading `+`, as Rust's
/// `usize` parser reads it.
pub open spec fn parse_usize(s: Seq<u8>) -> Option<usize> {
    let d = unsigned_part(s);
    if d.len() > 0 && all_digits(d) && digits_value(d) <= usize::MAX {
        Some(digits_value(d) as usize)
    } else {
        None
    }
}

/// `s` without one leading `+`.
pub open spec fn unsigned_part(s: Seq<u8>) -> Seq<u8> {
    if s.len() > 0 && s[0] == 43 {
        s.drop_first()
    } else {
        s
    }
}

pub open spec fn all_digits(d: Seq<u8>) -> bool {
    forall|i: int| 0 <= i < d.len() ==> is_digit(d[i])
}

/// Index of the first `b` in `s`.
pub open spec fn index_of(s: Seq<u8>, b: u8) -> Option<int>
    decreases s.len(),
{
    if s.len() == 0 {
        None
    } else if s[0] == b {
        Some(0)
    } else {
        match index_of(s.drop_first(), b) {
            Some(i) => Some(i + 1),
            None => None,
        }
    }
}

/// The meaning of one header line, given without its newline.
pub open spec fn classify_header(raw: Seq<u8>) -> HeaderLine {
    let line = strip_line_end(raw);
    if line.len() == 0 {
        HeaderLine::Blank
    } else {
        match index_of(line, 58) {
            None => HeaderLine::Other,
            Some(c) => if eq_ignore_ascii_case(trim(line.subrange(0, c)), content_length_name()) {
                match parse_usize(trim(line.subrange(c + 1, line.len() as int))) {
                    Some(n) => HeaderLine::Length { n },
                    None => HeaderLine::BadLength,
                }
            } else {
                HeaderLine::Other
            },
        }
    }
}

/// Reads header lines of `buf` from `from` on, with `len` the length declared so far.
pub open spec fn parse_frame_from(buf: Seq<u8>, from: int, len: Option<usize>) -> FrameSpec
    decreases buf.len() - from,
{
    if from < 0 || from > buf.len() {
        FrameSpec::Incomplete
    } else {
        match index_of(buf.subrange(from, buf.len() as int), 10) {
            None => FrameSpec::Incomplete,
            Some(k) => if 0 <= k && from + k < buf.len() {
                let end = from + k;
                match classify_header(buf.subrange(from, end)) {
                    HeaderLine::Blank => match len {
                        None => FrameSpec::Invalid { err: FrameError::MissingContentLength },
                        Some(n) => if end + 1 + n <= buf.len() {
                            FrameSpec::Complete {
                                body: buf.subrange(end + 1, end + 1 + n),
                                used: end + 1 + n,
                            }
                        } else {
                            FrameSpec::Incomplete
                        },
                    },
                    HeaderLine::BadLength => FrameSpec::Invalid {
                        err: FrameError::InvalidContentLength,
                    },
                    HeaderLine::Length { n } => parse_frame_from(buf, end + 1, Some(n)),
                    HeaderLine::Other => parse_frame_from(buf, end + 1, len),
                }
            } else {
                FrameSpec::Incomplete
            },
        }
    }
}

/// What the start of `buf` holds.
pub open spec fn parse_frame(buf: Seq<u8>) -> FrameSpec {
    parse_frame_from(buf, 0, None)
}

/// The decimal digits of `n`.
pub open spec fn decimal(n: nat) -> Seq<u8>
    decreases n,
{
    if n < 10 {
        seq![(48 + n) as u8]
    } else {
        decimal(n / 10) + seq![(48 + n % 10) as u8]
    }
}

/// The frame that carries `body`.
pub open spec fn frame_of(body: Seq<u8>) -> Seq<u8> {
    content_length_prefix() + decimal(body.len()) + seq![13u8, 10, 13, 10] + body
}

/// The outcome of decoding the start of a buffer.
pub enum FrameDecode {
    /// A whole frame: its body, and the number of buffer bytes it takes up.
    Complete { body: Vec<u8>, used: usize },
    /// More bytes are needed.
    Incomplete,
    /// The buffer can never become a frame.
    Invalid(FrameError),
}

impl FrameDecode {
    pub open spec fn view(self) -> FrameSpec {
        match self {
            FrameDecode::Complete { body, used } => FrameSpec::Complete {
                body: body@,
                used: used as int,
            },
            FrameDecode::Incomplete => FrameSpec::Incomplete,
            FrameDecode::Invalid(err) => FrameSpec::Invalid { err },
        }
    }
}

/// A header line's meaning, as computed.
enum LineKind {
    Blank,
    Length(usize),
    BadLength,
    Other,
}

impl LineKind {
    spec fn view(self) -> HeaderLine {
        match self {
            LineKind::Blank => HeaderLine::Blank,
            LineKind::Length(n) => HeaderLine::Length { n },
            LineKind::BadLength => HeaderLine::BadLength,
            LineKind::Other => HeaderLine::Other,
        }
    }
}

proof fn lemma_index_of(s: Seq<u8>, b: u8)
    ensures
        match index_of(s, b) {
            Some(k) => 0 <= k < s.len() && s[k] == b && forall|j: int| 0 <= j < k ==> s[j] != b,
            None => forall|j: int| 0 <= j < s.len() ==> s[j] != b,
        },
    decreases s.len(),
{
    if s.len() > 0 && s[0] != b {
        lemma_index_of(s.drop_first(), b);
        assert forall|j: int| 1 <= j < s.len() implies s[j] == s.drop_first()[j - 1] by {}
    }
}

/// Index of the first `b` in `buf[lo..hi]`, counted from the start of `buf`.
fn find_byte(buf: &Vec<u8>, lo: usize, hi: usize, b: u8) -> (r: Option<usize>)
    requires
        lo <= hi <= buf@.len(),
    ensures
        match r {
            Some(i) => lo <= i < hi && index_of(buf@.subrange(lo as int, hi as int), b) == Some(
                i - lo,
            ),
            None => index_of(buf@.subrange(lo as int, hi as int), b) is None,
        },
{
    let ghost s = buf@.subrange(lo as int, hi as int);
    proof {
        lemma_index_of(s, b);
    }
    let mut i: usize = lo;
    while i < hi
        invariant
            lo <= i <= hi <= buf@.len(),
            s == buf@.subrange(lo as int, hi as int),
            forall|j: int| lo <= j < i ==> buf@[j] != b,
        decreases hi - i,
    {
        if buf[i] == b {
            assert(s[i - lo] == b);
            proof {
                lemma_index_of(s, b);
                if let Some(k) = index_of(s, b) {
                    assert(k == i - lo) by {
                        if k < i - lo {
                            assert(s[k] == buf@[lo + k]);
                        }
                    }
                }
            }
            assert forall|j: int| 0 <= j < i - lo implies s[j] != b by {
                assert(s[j] == buf@[lo + j]);
            }
            return Some(i);
        }
        i += 1;
    }
    assert forall|j: int| 0 <= j < s.len() implies s[j] != b by {
        assert(s[j] == buf@[lo + j]);
    }
    None
}

/// The bounds of `strip_line_end(buf[lo..hi])`.
fn strip_line_end_range(buf: &Vec<u8>, lo: usize, hi: usize) -> (e: usize)
    requires
        lo <= hi <= buf@.len(),
    ensures
        lo <= e <= hi,
        strip_line_end(buf@.subrange(lo as int, hi as int)) == buf@.subrange(lo as int, e as int),
{
    let mut e = hi;
    while e > lo && (buf[e - 1] == 13 || buf[e - 1] == 10)
        invariant
            lo <= e <= hi <= buf@.len(),
            strip_line_end(buf@.subrange(lo as int, hi as int)) == strip_line_end(
                buf@.subrange(lo as int, e as int),
            ),
        decreases e,
    {
        assert(buf@.subrange(lo as int, e as int).drop_last() =~= buf@.subrange(
            lo as int,
            e - 1,
        ));
        e -= 1;
    }
    e
}

/// The bounds of `trim(buf[lo..hi])`.
fn trim_range(buf: &Vec<u8>, lo: usize, hi: usize) -> (r: (usize, usize))
    requires
        lo <= hi <= buf@.len(),
    ensures
        lo <= r.0 <= r.1 <= hi,
        trim(buf@.subrange(lo as int, hi as int)) == buf@.subrange(r.0 as int, r.1 as int),
{
    let mut a = lo;
    while a < hi && (buf[a] == 32 || (9 <= buf[a] && buf[a] <= 13))
        invariant
            lo <= a <= hi <= buf@.len(),
            trim_start(buf@.subrange(lo as int, hi as int)) == trim_start(
                buf@.subrange(a as int, hi as int),
            ),
        decreases hi - a,
    {
        assert(buf@.subrange(a as int, hi as int).drop_first() =~= buf@.subrange(
            a + 1,
            hi as int,
        ));
        a += 1;
    }
    assert(trim_start(buf@.subrange(a as int, hi as int)) == buf@.subrange(a as int, hi as int));
    let mut z = hi;
    while z > a && (buf[z - 1] == 32 || (9 <= buf[z - 1] && buf[z - 1] <= 13))
        invariant
            lo <= a <= z <= hi <= buf@.len(),
            trim_end(buf@.subrange(a as int, hi as int)) == trim_end(
                buf@.subrange(a as int, z as int),
            ),
        decreases z,
    {
        assert(buf@.subrange(a as int, z as int).drop_last() =~= buf@.subrange(
            a as int,
            z - 1,
        ));
        z -= 1;
    }
    (a, z)
}

/// Whether `buf[lo..hi]` is `content-length`, ignoring ASCII case.
fn is_content_length_name(buf: &Vec<u8>, lo: usize, hi: usize) -> (r: bool)
    requires
        lo <= hi <= buf@.len(),
    ensures
        r == eq_ignore_ascii_case(buf@.subrange(lo as int, hi as int), content_length_name()),
{
    let name: Vec<u8> = vec![99u8, 111, 110, 116, 101, 110, 116, 45, 108, 101, 110, 103, 116, 104];
    assert(name@ =~= content_length_name());
    let ghost s = buf@.subrange(lo as int, hi as int);
    if hi - lo != name.len() {
        return false;
    }
    let mut i: usize = 0;
    while i < name.len()
        invariant
            hi - lo == name@.len(),
            lo <= hi <= buf@.len(),
            s == buf@.subrange(lo as int, hi as int),
            name@ == content_length_name(),
            i <= name@.len(),
            forall|j: int| 0 <= j < i ==> ascii_lower(s[j]) == ascii_lower(name@[j]),
        decreases name@.len() - i,
    {
        let x = buf[lo + i];
        let y = name[i];
        let lx = if 65 <= x && x <= 90 { x + 32 } else { x };
        let ly = if 65 <= y && y <= 90 { y + 32 } else { y };
        assert(s[i as int] == x);
        if lx != ly {
            assert(ascii_lower(s[i as int]) != ascii_lower(name@[i as int]));
            return false;
        }
        i += 1;
    }
    true
}

proof fn lemma_digits_prefix_le(s: Seq<u8>, k: int)
    requires
        0 <= k <= s.len(),
    ensures
        digits_value(s.subrange(0, k)) <= digits_value(s),
    decreases s.len(),
{
    if k < s.len() {
        assert(s.drop_last().subrange(0, k) =~= s.subrange(0, k));
        lemma_digits_prefix_le(s.drop_last(), k);
    } else {
        assert(s.subrange(0, k) =~= s);
    }
}

/// The `usize` that `buf[lo..hi]` denotes, as `parse_usize` reads it.
fn parse_usize_range(buf: &Vec<u8>, lo: usize, hi: usize) -> (r: Option<usize>)
    requires
        lo <= hi <= buf@.len(),
    ensures
        r == parse_usize(buf@.subrange(lo as int, hi as int)),
{
    let ghost s = buf@.subrange(lo as int, hi as int);
    let start = if lo < hi && buf[lo] == 43 { lo + 1 } else { lo };
    let ghost d = buf@.subrange(start as int, hi as int);
    assert(d =~= unsigned_part(s));
    if start == hi {
        return None;
    }
    let mut v: usize = 0;
    let mut i: usize = start;
    while i < hi
        invariant
            lo <= start <= i <= hi <= buf@.len(),
            d == buf@.subrange(start as int, hi as int),
            s == buf@.subrange(lo as int, hi as int),
            d == unsigned_part(s),
            d.len() > 0,
            forall|j: int| 0 <= j < i - start ==> is_digit(d[j]),
            v as nat == digits_value(d.subrange(0, i - start)),
        decreases hi - i,
    {
        let c = buf[i];
        assert(d[i - start] == c);
        if c < 48 || c > 57 {
            assert(!is_digit(d[i - start]));
            assert(!all_digits(d));
            return None;
        }
        assert(d.subrange(0, i - start + 1).drop_last() =~= d.subrange(0, i - start));
        let digit = (c - 48) as usize;
        assert(digits_value(d.subrange(0, i - start + 1)) == v * 10 + digit);
        match v.checked_mul(10) {
            None => {
                proof {
                    lemma_digits_prefix_le(d, i - start + 1);
                }
                return None;
            },
            Some(t) => match t.checked_add(digit) {
                None => {
                    proof {
                        lemma_digits_prefix_le(d, i - start + 1);
                    }
                    return None;
                },
                Some(w) => {
                    v = w;
                },
            },
        }
        i += 1;
    }
    assert(d.subrange(0, d.len() as int) =~= d);
    Some(v)
}

/// The meaning of the header line `buf[lo..hi]`, given without its newline.
fn classify_line(buf: &Vec<u8>, lo: usize, hi: usize) -> (r: LineKind)
    requires
        lo <= hi <= buf@.len(),
    ensures
        r@ == classify_header(buf@.subrange(lo as int, hi as int)),
{
    let e = strip_line_end_range(buf, lo, hi);
    let ghost line = buf@.subrange(lo as int, e as int);
    if e == lo {
        return LineKind::Blank;
    }
    match find_byte(buf, lo, e, 58) {
        None => LineKind::Other,
        Some(c) => {
            let (ka, kz) = trim_range(buf, lo, c);
            assert(line.subrange(0, c - lo) =~= buf@.subrange(lo as int, c as int));
            if is_content_length_name(buf, ka, kz) {
                let (va, vz) = trim_range(buf, c + 1, e);
                assert(line.subrange(c - lo + 1, line.len() as int) =~= buf@.subrange(
                    c + 1,
                    e as int,
                ));
                match parse_usize_range(buf, va, vz) {
                    Some(n) => LineKind::Length(n),
                    None => LineKind::BadLength,
                }
            } else {
                LineKind::Other
            }
        },
    }
}

/// Decodes the frame at the start of `buf`, if it is all there.
pub fn decode_frame(buf: &Vec<u8>) -> (r: FrameDecode)
    ensures
        r@ == parse_frame(buf@),
{
    let n = buf.len();
    let mut from: usize = 0;
    let mut len: Option<usize> = None;
    loop
        invariant
            n == buf@.len(),
            from <= n,
            parse_frame(buf@) == parse_frame_from(buf@, from as int, len),
        decreases n - from,
    {
        match find_byte(buf, from, n, 10) {
            None => {
                return FrameDecode::Incomplete;
            },
            Some(end) => {
                let kind = classify_line(buf, from, end);
                match kind {
                    LineKind::Blank => {
                        match len {
                            None => {
                                return FrameDecode::Invalid(FrameError::MissingContentLength);
                            },
                            Some(m) => {
                                if m <= n - (end + 1) {
                                    let body = slice_bytes(buf, end + 1, end + 1 + m);
                                    return FrameDecode::Complete { body, used: end + 1 + m };
                                } else {
                                    return FrameDecode::Incomplete;
                                }
                            },
                        }
                    },
                    LineKind::BadLength => {
                        return FrameDecode::Invalid(FrameError::InvalidContentLength);
                    },
                    LineKind::Length(m) => {
                        len = Some(m);
                        from = end + 1;
                    },
                    LineKind::Other => {
                        from = end + 1;
                    },
                }
            },
        }
    }
}

/// The bytes of `buf` from `from` up to (excluding) `to`.
pub fn slice_bytes(buf: &Vec<u8>, from: usize, to: usize) -> (r: Vec<u8>)
    requires
        from <= to <= buf@.len(),
    ensures
        r@ == buf@.subrange(from as int, to as int),
{
    let mut r: Vec<u8> = Vec::new();
    let mut i: usize = from;
    while i < to
        invariant
            from <= i <= to <= buf@.len(),
            r@ == buf@.subrange(from as int, i as int),
        decreases to - i,
    {
        r.push(buf[i]);
        i += 1;
        assert(r@ =~= buf@.subrange(from as int, i as int));
    }
    r
}

/// The decimal digits of `n`, as bytes.
pub fn decimal_bytes(n: usize) -> (r: Vec<u8>)
    ensures
        r@ == decimal(n as nat),
    decreases n,
{
    if n < 10 {
        let r = vec![(48 + n) as u8];
        assert(r@ =~= decimal(n as nat));
        r
    } else {
        let mut r = decimal_bytes(n / 10);
        r.push((48 + n % 10) as u8);
        assert(r@ =~= decimal(n as nat));
        r
    }
}

/// The frame that carries `body`: `Content-Length: <n>\r\n\r\n<body>`.
pub fn encode_frame(body: &Vec<u8>) -> (r: Vec<u8>)
    ensures
        r@ == frame_of(body@),
{
    let mut r: Vec<u8> = vec![67u8, 111, 110, 116, 101, 110, 116, 45, 76, 101, 110, 103, 116, 104, 58, 32];
    assert(r@ =~= content_length_prefix());
    let mut digits = decimal_bytes(body.len());
    r.append(&mut digits);
    r.push(13);
    r.push(10);
    r.push(13);
    r.push(10);
    let mut i: usize = 0;
    let ghost head = r@;
    while i < body.len()
        invariant
            i <= body@.len(),
            r@ == head + body@.subrange(0, i as int),
        decreases body@.len() - i,
    {
        r.push(body[i]);
        i += 1;
        assert(r@ =~= head + body@.subrange(0, i as int));
    }
    assert(body@.subrange(0, body@.len() as int) =~= body@);
    assert(r@ =~= frame_of(body@));
    r
}

proof fn lemma_index_of_at(s: Seq<u8>, b: u8, k: int)
    requires
        0 <= k < s.len(),
        s[k] == b,
        forall|j: int| 0 <= j < k ==> s[j] != b,
    ensures
        index_of(s, b) == Some(k),
{
    lemma_index_of(s, b);
    match index_of(s, b) {
        Some(k2) => {
            if k2 < k {
                assert(s[k2] != b);
            } else if k2 > k {
                assert(s[k] != b);
            }
        },
        None => {
            assert(s[k] != b);
        },
    }
}

proof fn lemma_decimal(n: nat)
    ensures
        decimal(n).len() >= 1,
        all_digits(decimal(n)),
        digits_value(decimal(n)) == n,
    decreases n,
{
    let d = decimal(n);
    if n >= 10 {
        lemma_decimal(n / 10);
        assert(d.drop_last() =~= decimal(n / 10));
        assert(n % 10 < 10);
        assert(d.last() == (48 + n % 10) as u8);
        assert((d.last() - 48) as nat == n % 10);
        assert((n / 10) * 10 + n % 10 == n);
        assert forall|i: int| 0 <= i < d.len() implies is_digit(d[i]) by {
            if i < d.len() - 1 {
                assert(d[i] == decimal(n / 10)[i]);
            }
        }
    } else {
        assert(d.drop_last() =~= Seq::<u8>::empty());
        assert(digits_value(Seq::<u8>::empty()) == 0);
    }
}

proof fn lemma_length_line(n: nat)
    requires
        n <= usize::MAX,
    ensures
        classify_header(content_length_prefix() + decimal(n) + seq![13u8]) == (HeaderLine::Length {
            n: n as usize,
        }),
{
    let p = content_length_prefix();
    let d = decimal(n);
    lemma_decimal(n);
    let line = p + d + seq![13u8];
    let pd = p + d;
    assert(line.drop_last() =~= pd);
    assert(pd.last() == d.last());
    assert(is_digit(d[d.len() - 1]));
    assert(strip_line_end(pd) == pd);
    assert(strip_line_end(line) == pd);
    assert(pd[14] == 58);
    assert forall|j: int| 0 <= j < 14 implies pd[j] != 58 by {
        assert(pd[j] == p[j]);
    }
    lemma_index_of_at(pd, 58, 14);
    let key = pd.subrange(0, 14);
    assert(key =~= seq![67u8, 111, 110, 116, 101, 110, 116, 45, 76, 101, 110, 103, 116, 104]);
    assert(trim_start(key) == key);
    assert(trim_end(key) == key);
    assert(eq_ignore_ascii_case(key, content_length_name()));
    let value = pd.subrange(15, pd.len() as int);
    assert(value =~= seq![32u8] + d);
    assert(value.drop_first() =~= d);
    assert(is_digit(d[0]));
    assert(trim_start(d) == d);
    assert(trim_start(value) == d);
    assert(trim_end(d) == d);
    assert(unsigned_part(d) == d);
    assert(parse_usize(d) == Some(n as usize));
}

/// Decoding the frame that carries `body` gives back `body`, and the frame
/// is used up exactly.
pub proof fn law_frame_round_trip(body: Seq<u8>)
    requires
        body.len() <= usize::MAX,
    ensures
        parse_frame(frame_of(body)) == (FrameSpec::Complete { body, used: frame_of(body).len() as int }),
{
    let n: nat = body.len();
    let p = content_length_prefix();
    let d = decimal(n);
    lemma_decimal(n);
    lemma_length_line(n);
    let f = frame_of(body);
    let a: int = (p.len() + d.len()) as int;
    assert(f =~= p + d + seq![13u8, 10, 13, 10] + body);
    assert(f.len() == a + 4 + n);
    assert(f.subrange(0, f.len() as int) =~= f);
    assert forall|j: int| 0 <= j < a + 1 implies f[j] != 10 by {
        if j < p.len() {
            assert(f[j] == p[j]);
        } else if j < a {
            assert(f[j] == d[j - p.len()]);
            assert(is_digit(d[j - p.len()]));
        }
    }
    assert(f[a + 1] == 10);
    lemma_index_of_at(f, 10, a + 1);
    assert(f.subrange(0, a + 1) =~= p + d + seq![13u8]);

    let sub = f.subrange(a + 2, f.len() as int);
    assert(sub[0] == 13 && sub[1] == 10);
    lemma_index_of_at(sub, 10, 1);
    let line2 = f.subrange(a + 2, a + 3);
    assert(line2 =~= seq![13u8]);
    assert(line2.drop_last() =~= Seq::<u8>::empty());
    assert(strip_line_end(Seq::<u8>::empty()) == Seq::<u8>::empty());
    assert(strip_line_end(line2) == Seq::<u8>::empty());
    assert(classify_header(line2) == HeaderLine::Blank);
    assert(f.subrange(a + 4, a + 4 + n) =~= body);
    assert(parse_frame_from(f, a + 2, Some(n as usize)) == (FrameSpec::Complete {
        body,
        used: f.len() as int,
    }));
    assert(classify_header(f.subrange(0, a + 1)) == (HeaderLine::Length { n: n as usize }));
    assert(parse_frame_from(f, 0, None) == parse_frame_from(f, a + 2, Some(n as usize)));
}

} // verus!
