//! Incremental HTTP/1.1 request-head decoding, straight off the byte
//! stream.
//!
//! A head is complete once the empty line arrives; until then the buffer
//! yields no request and no verdict. A complete head is either a well-formed
//! HTTP/1.1 request, a well-formed request of another version (rejected as a
//! protocol error), or malformed.

use vstd::prelude::*;

use crate::digits::{all_digit_bytes, is_digit_byte};

verus! {

/// One decoded header: its name and its value with surrounding blanks
/// removed.
pub struct Header {
    pub name: Vec<u8>,
    pub value: Vec<u8>,
}

/// A decoded request head: method, request target, and headers in order.
pub struct RequestHead {
    pub method: Vec<u8>,
    pub target: Vec<u8>,
    pub headers: Vec<Header>,
}

/// The mathematical shape of a request head.
pub struct ReqShape {
    pub method: Seq<u8>,
    pub target: Seq<u8>,
    pub headers: Seq<(Seq<u8>, Seq<u8>)>,
}

impl RequestHead {
    /// The shape of this head.
    pub open spec fn shape(self) -> ReqShape {
        ReqShape {
            method: self.method@,
            target: self.target@,
            headers: self.headers@.map_values(|h: Header| (h.name@, h.value@)),
        }
    }
}

// ---------------------------------------------------------------------------
// Byte classes of the grammar
// ---------------------------------------------------------------------------

pub const CR: u8 = 13;

pub const LF: u8 = 10;

pub const SP: u8 = 32;

pub const HTAB: u8 = 9;

pub const COLON: u8 = 58;

/// A token byte: what methods and header names consist of.
pub open spec fn is_tchar(c: u8) -> bool {
    ||| (48 <= c && c <= 57)  // digits
    ||| (65 <= c && c <= 90)  // upper-case letters
    ||| (97 <= c && c <= 122)  // lower-case letters
    ||| c == 33  // !
    ||| (35 <= c && c <= 39)  // # $ % & '
    ||| c == 42  // *
    ||| c == 43  // +
    ||| c == 45  // -
    ||| c == 46  // .
    ||| c == 94  // ^
    ||| c == 95  // _
    ||| c == 96  // `
    ||| c == 124  // |
    ||| c == 126  // ~
}

/// A visible ASCII byte: what request targets consist of.
pub open spec fn is_vchar(c: u8) -> bool {
    33 <= c && c <= 126
}

/// A field-content byte: visible, space or horizontal tab.
pub open spec fn is_field_byte(c: u8) -> bool {
    is_vchar(c) || c == SP || c == HTAB
}

/// A non-empty run of token bytes.
pub open spec fn is_token(s: Seq<u8>) -> bool {
    s.len() >= 1 && forall|i: int| 0 <= i < s.len() ==> is_tchar(#[trigger] s[i])
}

/// A non-empty run of visible bytes.
pub open spec fn is_target(s: Seq<u8>) -> bool {
    s.len() >= 1 && forall|i: int| 0 <= i < s.len() ==> is_vchar(#[trigger] s[i])
}

/// Field bytes only.
pub open spec fn all_field_bytes(s: Seq<u8>) -> bool {
    forall|i: int| 0 <= i < s.len() ==> is_field_byte(#[trigger] s[i])
}

/// The version bytes `HTTP/1.1`.
pub open spec fn http11_bytes() -> Seq<u8> {
    seq![72u8, 84u8, 84u8, 80u8, 47u8, 49u8, 46u8, 49u8]
}

/// Any `HTTP/<digit>.<digit>` version field.
pub open spec fn is_version_shape(v: Seq<u8>) -> bool {
    &&& v.len() == 8
    &&& v[0] == 72
    &&& v[1] == 84
    &&& v[2] == 84
    &&& v[3] == 80
    &&& v[4] == 47
    &&& 48 <= v[5] && v[5] <= 57
    &&& v[6] == 46
    &&& 48 <= v[7] && v[7] <= 57
}

// ---------------------------------------------------------------------------
// Searching
// ---------------------------------------------------------------------------

/// Least index `k >= i` with byte `c`.
pub open spec fn find_byte(s: Seq<u8>, c: u8, i: int) -> Option<int>
    decreases s.len() - i,
{
    if i < 0 || i >= s.len() {
        None
    } else if s[i] == c {
        Some(i)
    } else {
        find_byte(s, c, i + 1)
    }
}

/// Least `k >= i` where a CR immediately followed by an LF starts.
pub open spec fn find_crlf(s: Seq<u8>, i: int) -> Option<int>
    decreases s.len() - i,
{
    if i < 0 || i + 2 > s.len() {
        None
    } else if s[i] == CR && s[i + 1] == LF {
        Some(i)
    } else {
        find_crlf(s, i + 1)
    }
}

/// Least `k >= i` where the empty line `CR LF CR LF` starts.
pub open spec fn find_terminator(s: Seq<u8>, i: int) -> Option<int>
    decreases s.len() - i,
{
    if i < 0 || i + 4 > s.len() {
        None
    } else if s[i] == CR && s[i + 1] == LF && s[i + 2] == CR && s[i + 3] == LF {
        Some(i)
    } else {
        find_terminator(s, i + 1)
    }
}

// ---------------------------------------------------------------------------
// Line grammar
// ---------------------------------------------------------------------------

/// Blanks removed from the front.
pub open spec fn drop_leading_ows(s: Seq<u8>) -> Seq<u8>
    decreases s.len(),
{
    if s.len() > 0 && (s[0] == SP || s[0] == HTAB) {
        drop_leading_ows(s.subrange(1, s.len() as int))
    } else {
        s
    }
}

/// Blanks removed from the back.
pub open spec fn drop_trailing_ows(s: Seq<u8>) -> Seq<u8>
    decreases s.len(),
{
    if s.len() > 0 && (s.last() == SP || s.last() == HTAB) {
        drop_trailing_ows(s.drop_last())
    } else {
        s
    }
}

/// Blanks removed from both ends.
pub open spec fn trim_ows(s: Seq<u8>) -> Seq<u8> {
    drop_trailing_ows(drop_leading_ows(s))
}

/// What a request line denotes: method, target and version field, split on
/// the first two spaces, with the method a token and the target visible.
pub open spec fn parse_request_line(l: Seq<u8>) -> Option<(Seq<u8>, Seq<u8>, Seq<u8>)> {
    match find_byte(l, SP, 0) {
        None => None,
        Some(s1) => match find_byte(l, SP, s1 + 1) {
            None => None,
            Some(s2) => {
                let m = l.subrange(0, s1);
                let t = l.subrange(s1 + 1, s2);
                let v = l.subrange(s2 + 1, l.len() as int);
                if is_token(m) && is_target(t) {
                    Some((m, t, v))
                } else {
                    None
                }
            },
        },
    }
}

/// What a header line denotes: a token name before the first colon, and the
/// value after it with surrounding blanks removed.
pub open spec fn parse_header_line(l: Seq<u8>) -> Option<(Seq<u8>, Seq<u8>)> {
    match find_byte(l, COLON, 0) {
        None => None,
        Some(c) => {
            let name = l.subrange(0, c);
            let raw = l.subrange(c + 1, l.len() as int);
            if is_token(name) && all_field_bytes(raw) {
                Some((name, trim_ows(raw)))
            } else {
                None
            }
        },
    }
}

/// The header lines of the region from `pos` on, each line CR-LF
/// terminated; nothing if any line is not a well-formed header.
pub open spec fn headers_from(h: Seq<u8>, pos: int) -> Option<Seq<(Seq<u8>, Seq<u8>)>>
    decreases h.len() - pos,
    via headers_from_dec
{
    if pos < 0 {
        None
    } else {
        match find_crlf(h, pos) {
            None => Some(Seq::empty()),
            Some(k) => match parse_header_line(h.subrange(pos, k)) {
                None => None,
                Some(p) => match headers_from(h, k + 2) {
                    None => None,
                    Some(rest) => Some(seq![p] + rest),
                },
            },
        }
    }
}

#[via_fn]
proof fn headers_from_dec(h: Seq<u8>, pos: int) {
    if pos >= 0 {
        match find_crlf(h, pos) {
            None => {},
            Some(k) => {
                lemma_find_crlf_bounds(h, pos);
            },
        }
    }
}

/// A found CR-LF start lies at or after the search start and leaves room
/// for its two bytes.
pub proof fn lemma_find_crlf_bounds(s: Seq<u8>, i: int)
    requires
        find_crlf(s, i) is Some,
    ensures
        i <= find_crlf(s, i).unwrap(),
        find_crlf(s, i).unwrap() + 2 <= s.len(),
    decreases s.len() - i,
{
    if !(i < 0 || i + 2 > s.len()) && !(s[i] == CR && s[i + 1] == LF) {
        lemma_find_crlf_bounds(s, i + 1);
    }
}

/// The verdict on a complete head region.
pub enum HeadShape {
    Head(ReqShape),
    BadVersion,
    Malformed,
}

/// What a complete head region (every line CR-LF terminated) denotes.
pub open spec fn parse_head(h: Seq<u8>) -> HeadShape {
    match find_crlf(h, 0) {
        None => HeadShape::Malformed,
        Some(k) => match parse_request_line(h.subrange(0, k)) {
            None => HeadShape::Malformed,
            Some((m, t, v)) => if !is_version_shape(v) {
                HeadShape::Malformed
            } else if v != http11_bytes() {
                HeadShape::BadVersion
            } else {
                match headers_from(h, k + 2) {
                    None => HeadShape::Malformed,
                    Some(hs) => HeadShape::Head(ReqShape { method: m, target: t, headers: hs }),
                }
            },
        },
    }
}

/// The verdict on a buffer.
pub enum DecodeShape {
    /// No complete head yet; more bytes must arrive first.
    Partial,
    /// A complete well-formed request, consuming `used` bytes.
    Complete { used: int, req: ReqShape },
    /// A complete head of a version other than 1.1.
    BadVersion,
    /// A complete head that is not a well-formed request.
    Malformed,
}

/// What a buffer decodes to: nothing before the empty line arrives, and
/// afterwards the verdict on the head region it closes.
pub open spec fn decode_spec(b: Seq<u8>) -> DecodeShape {
    match find_terminator(b, 0) {
        None => DecodeShape::Partial,
        Some(i) => match parse_head(b.take(i + 2)) {
            HeadShape::Head(req) => DecodeShape::Complete { used: i + 4, req },
            HeadShape::BadVersion => DecodeShape::BadVersion,
            HeadShape::Malformed => DecodeShape::Malformed,
        },
    }
}

} // verus!

verus! {

use vstd::slice::{slice_index_get, slice_subrange, slice_to_vec};

// ---------------------------------------------------------------------------
// Executable decoding
// ---------------------------------------------------------------------------

/// Least index of the empty line, by scanning.
fn find_terminator_exec(b: &[u8]) -> (r: Option<usize>)
    ensures
        match r {
            Some(k) => find_terminator(b@, 0) == Some(k as int) && k + 4 <= b@.len(),
            None => find_terminator(b@, 0) is None,
        },
{
    let n = b.len();
    if n < 4 {
        return None;
    }
    let mut i: usize = 0;
    while i <= n - 4
        invariant
            n >= 4,
            i <= n - 3,
            n == b@.len(),
            find_terminator(b@, 0) == find_terminator(b@, i as int),
        decreases n - i,
    {
        if *slice_index_get(b, i) == 13 && *slice_index_get(b, i + 1) == 10 && *slice_index_get(
            b,
            i + 2,
        ) == 13 && *slice_index_get(b, i + 3) == 10 {
            return Some(i);
        }
        i = i + 1;
    }
    None
}

/// Least CR-LF start at or after `from`, by scanning.
fn find_crlf_exec(b: &[u8], from: usize) -> (r: Option<usize>)
    requires
        from <= b@.len(),
    ensures
        match r {
            Some(k) => find_crlf(b@, from as int) == Some(k as int) && from <= k && k + 2
                <= b@.len(),
            None => find_crlf(b@, from as int) is None,
        },
{
    let n = b.len();
    if n < 2 {
        return None;
    }
    let mut i: usize = from;
    while i <= n - 2
        invariant
            n >= 2,
            from <= i,
            i <= n,
            n == b@.len(),
            find_crlf(b@, from as int) == find_crlf(b@, i as int),
        decreases n - i,
    {
        if *slice_index_get(b, i) == 13 && *slice_index_get(b, i + 1) == 10 {
            return Some(i);
        }
        i = i + 1;
    }
    None
}

/// Least occurrence of `c` at or after `from`, by scanning.
fn find_byte_exec(b: &[u8], c: u8, from: usize) -> (r: Option<usize>)
    requires
        from <= b@.len(),
    ensures
        match r {
            Some(k) => find_byte(b@, c, from as int) == Some(k as int) && from <= k && k
                < b@.len(),
            None => find_byte(b@, c, from as int) is None,
        },
{
    let n = b.len();
    let mut i: usize = from;
    while i < n
        invariant
            from <= i <= n,
            n == b@.len(),
            find_byte(b@, c, from as int) == find_byte(b@, c, i as int),
        decreases n - i,
    {
        if *slice_index_get(b, i) == c {
            return Some(i);
        }
        i = i + 1;
    }
    None
}

/// Decide whether `c` is a token byte.
fn is_tchar_exec(c: u8) -> (r: bool)
    ensures
        r == is_tchar(c),
{
    (48 <= c && c <= 57) || (65 <= c && c <= 90) || (97 <= c && c <= 122) || c == 33 || (35 <= c
        && c <= 39) || c == 42 || c == 43 || c == 45 || c == 46 || c == 94 || c == 95 || c == 96
        || c == 124 || c == 126
}

/// Whether every byte of `b` is a token byte.
fn all_tchar_exec(b: &[u8]) -> (r: bool)
    ensures
        r == (forall|i: int| 0 <= i < b@.len() ==> is_tchar(#[trigger] b@[i])),
{
    let n = b.len();
    let mut i: usize = 0;
    while i < n
        invariant
            i <= n,
            n == b@.len(),
            forall|j: int| 0 <= j < i ==> is_tchar(#[trigger] b@[j]),
        decreases n - i,
    {
        if !is_tchar_exec(*slice_index_get(b, i)) {
            return false;
        }
        i = i + 1;
    }
    true
}

/// Whether every byte of `b` is visible ASCII.
fn all_vchar_exec(b: &[u8]) -> (r: bool)
    ensures
        r == (forall|i: int| 0 <= i < b@.len() ==> is_vchar(#[trigger] b@[i])),
{
    let n = b.len();
    let mut i: usize = 0;
    while i < n
        invariant
            i <= n,
            n == b@.len(),
            forall|j: int| 0 <= j < i ==> is_vchar(#[trigger] b@[j]),
        decreases n - i,
    {
        let c = *slice_index_get(b, i);
        if !(33 <= c && c <= 126) {
            return false;
        }
        i = i + 1;
    }
    true
}

/// Whether every byte of `b` is a field byte.
fn all_field_exec(b: &[u8]) -> (r: bool)
    ensures
        r == all_field_bytes(b@),
{
    let n = b.len();
    let mut i: usize = 0;
    while i < n
        invariant
            i <= n,
            n == b@.len(),
            forall|j: int| 0 <= j < i ==> is_field_byte(#[trigger] b@[j]),
        decreases n - i,
    {
        let c = *slice_index_get(b, i);
        if !((33 <= c && c <= 126) || c == 32 || c == 9) {
            assert(!is_field_byte(b@[i as int]));
            return false;
        }
        i = i + 1;
    }
    true
}

/// Blanks kept only in the middle: the leading run before `a` and the
/// trailing run after `b` are what the spec functions drop.
proof fn lemma_drop_leading(s: Seq<u8>, a: int)
    requires
        0 <= a <= s.len(),
        forall|j: int| 0 <= j < a ==> s[j] == SP || s[j] == HTAB,
        a < s.len() ==> !(s[a] == SP || s[a] == HTAB),
    ensures
        drop_leading_ows(s) == s.subrange(a, s.len() as int),
    decreases a,
{
    if a > 0 {
        let s1 = s.subrange(1, s.len() as int);
        assert(forall|j: int| 0 <= j < a - 1 ==> s1[j] == s[j + 1]);
        lemma_drop_leading(s1, a - 1);
        assert(s1.subrange(a - 1, s1.len() as int) =~= s.subrange(a, s.len() as int));
    } else {
        assert(s.subrange(0, s.len() as int) =~= s);
    }
}

proof fn lemma_drop_trailing(s: Seq<u8>, b: int)
    requires
        0 <= b <= s.len(),
        forall|j: int| b <= j < s.len() ==> s[j] == SP || s[j] == HTAB,
        b > 0 ==> !(s[b - 1] == SP || s[b - 1] == HTAB),
    ensures
        drop_trailing_ows(s) == s.subrange(0, b),
    decreases s.len() - b,
{
    if b < s.len() {
        let s1 = s.drop_last();
        assert(s.last() == SP || s.last() == HTAB);
        assert(forall|j: int| b <= j < s1.len() ==> s1[j] == s[j]);
        lemma_drop_trailing(s1, b);
        assert(s1.subrange(0, b) =~= s.subrange(0, b));
    } else {
        assert(s.subrange(0, b) =~= s);
    }
}

/// The length of the run of blanks at the front.
fn scan_ows_left(raw: &[u8]) -> (a: usize)
    ensures
        a <= raw@.len(),
        forall|j: int| 0 <= j < a ==> raw@[j] == SP || raw@[j] == HTAB,
        a < raw@.len() ==> !(raw@[a as int] == SP || raw@[a as int] == HTAB),
{
    let n = raw.len();
    let mut a: usize = 0;
    while a < n
        invariant
            a <= n,
            n == raw@.len(),
            forall|j: int| 0 <= j < a ==> raw@[j] == SP || raw@[j] == HTAB,
        decreases n - a,
    {
        let c = *slice_index_get(raw, a);
        if !(c == 32 || c == 9) {
            return a;
        }
        a = a + 1;
    }
    a
}

/// The end of the value once the run of blanks at the back is dropped,
/// never before `a`.
fn scan_ows_right(raw: &[u8], a: usize) -> (b: usize)
    requires
        a <= raw@.len(),
    ensures
        a <= b <= raw@.len(),
        forall|j: int| b <= j < raw@.len() ==> raw@[j] == SP || raw@[j] == HTAB,
        b > a ==> !(raw@[b - 1] == SP || raw@[b - 1] == HTAB),
{
    let n = raw.len();
    let mut b: usize = n;
    while b > a
        invariant
            a <= b <= n,
            n == raw@.len(),
            forall|j: int| b <= j < n ==> raw@[j] == SP || raw@[j] == HTAB,
        decreases b,
    {
        let c = *slice_index_get(raw, b - 1);
        if !(c == 32 || c == 9) {
            return b;
        }
        b = b - 1;
    }
    b
}

/// Copy `raw` with leading and trailing blanks removed.
fn trim_ows_exec(raw: &[u8]) -> (r: Vec<u8>)
    ensures
        r@ == trim_ows(raw@),
{
    let n = raw.len();
    let a = scan_ows_left(raw);
    proof {
        lemma_drop_leading(raw@, a as int);
    }
    let b = scan_ows_right(raw, a);
    proof {
        let lead = raw@.subrange(a as int, n as int);
        assert(forall|j: int|
            b - a <= j < lead.len() ==> lead[j] == raw@[j + a]);
        assert(b > a ==> lead[b - a - 1] == raw@[b - 1]);
        lemma_drop_trailing(lead, b - a);
        assert(lead.subrange(0, b - a) =~= raw@.subrange(a as int, b as int));
    }
    slice_to_vec(slice_subrange(raw, a, b))
}

/// Parse one request line.
fn parse_request_line_exec(l: &[u8]) -> (r: Option<(Vec<u8>, Vec<u8>, Vec<u8>)>)
    ensures
        match parse_request_line(l@) {
            None => r is None,
            Some((m, t, v)) => {
                &&& r is Some
                &&& r.unwrap().0@ == m
                &&& r.unwrap().1@ == t
                &&& r.unwrap().2@ == v
            },
        },
{
    let n = l.len();
    let s1 = match find_byte_exec(l, 32, 0) {
        None => {
            return None;
        },
        Some(x) => x,
    };
    assert(s1 < n);
    let s2 = match find_byte_exec(l, 32, s1 + 1) {
        None => {
            return None;
        },
        Some(x) => x,
    };
    assert(s2 < n);
    let m = slice_subrange(l, 0, s1);
    let t = slice_subrange(l, s1 + 1, s2);
    let v = slice_subrange(l, s2 + 1, n);
    if m.len() == 0 || !all_tchar_exec(m) {
        return None;
    }
    if t.len() == 0 || !all_vchar_exec(t) {
        return None;
    }
    Some((slice_to_vec(m), slice_to_vec(t), slice_to_vec(v)))
}

/// Parse one header line.
fn parse_header_line_exec(l: &[u8]) -> (r: Option<Header>)
    ensures
        match parse_header_line(l@) {
            None => r is None,
            Some((n, val)) => {
                &&& r is Some
                &&& r.unwrap().name@ == n
                &&& r.unwrap().value@ == val
            },
        },
{
    let n = l.len();
    let c = match find_byte_exec(l, 58, 0) {
        None => {
            return None;
        },
        Some(x) => x,
    };
    assert(c < n);
    let name = slice_subrange(l, 0, c);
    let raw = slice_subrange(l, c + 1, n);
    if name.len() == 0 || !all_tchar_exec(name) {
        return None;
    }
    if !all_field_exec(raw) {
        return None;
    }
    let value = trim_ows_exec(raw);
    Some(Header { name: slice_to_vec(name), value })
}

/// The decoder's verdict on a buffer.
pub enum DecodeOutcome {
    /// No complete head yet: read more bytes and try again.
    Partial,
    /// One complete request, with the number of buffer bytes it consumed.
    Complete { used: usize, req: RequestHead },
    /// A complete head of a version other than 1.1: a protocol error.
    BadVersion,
    /// A complete head that is no well-formed request: a protocol error.
    Malformed,
}

/// The executable verdict agrees with the buffer's mathematical one.
pub open spec fn outcome_matches(r: DecodeOutcome, s: DecodeShape) -> bool {
    match s {
        DecodeShape::Partial => r is Partial,
        DecodeShape::Complete { used, req } => match r {
            DecodeOutcome::Complete { used: u, req: rh } => u == used && rh.shape() == req,
            _ => false,
        },
        DecodeShape::BadVersion => r is BadVersion,
        DecodeShape::Malformed => r is Malformed,
    }
}

/// Decode one request head from the front of `buf`.
pub fn decode(buf: &[u8]) -> (r: DecodeOutcome)
    ensures
        outcome_matches(r, decode_spec(buf@)),
{
    let n = buf.len();
    let end = match find_terminator_exec(buf) {
        None => {
            return DecodeOutcome::Partial;
        },
        Some(i) => i,
    };
    assert(end + 4 <= n);
    let head = slice_subrange(buf, 0, end + 2);
    proof {
        assert(head@ =~= buf@.take(end + 2));
    }
    let k = match find_crlf_exec(head, 0) {
        None => {
            return DecodeOutcome::Malformed;
        },
        Some(k) => k,
    };
    let line = slice_subrange(head, 0, k);
    let (m, t, v) = match parse_request_line_exec(line) {
        None => {
            return DecodeOutcome::Malformed;
        },
        Some(parts) => parts,
    };
    proof {
        assert(line@ =~= head@.subrange(0, k as int));
    }
    if !(v.len() == 8 && v[0] == 72 && v[1] == 84 && v[2] == 84 && v[3] == 80 && v[4] == 47 && 48
        <= v[5] && v[5] <= 57 && v[6] == 46 && 48 <= v[7] && v[7] <= 57) {
        return DecodeOutcome::Malformed;
    }
    if !(v[5] == 49 && v[7] == 49) {
        proof {
            assert(v@ != http11_bytes());
        }
        return DecodeOutcome::BadVersion;
    }
    proof {
        assert(v@ =~= http11_bytes());
    }
    let ghost base = k + 2;
    let hn = head.len();
    let mut headers: Vec<Header> = Vec::new();
    let mut pos: usize = k + 2;
    proof {
        assert(headers@.map_values(|h: Header| (h.name@, h.value@)) =~= Seq::<(
            Seq<u8>,
            Seq<u8>,
        )>::empty());
    }
    let mut cur = find_crlf_exec(head, pos);
    #[verifier::loop_isolation(false)]
    while cur.is_some()
        invariant
            base <= pos <= hn,
            hn == head@.len(),
            head@ == buf@.take(end + 2),
            end + 4 <= buf@.len(),
            match cur {
                Some(k2) => find_crlf(head@, pos as int) == Some(k2 as int) && pos <= k2 && k2
                    + 2 <= hn,
                None => find_crlf(head@, pos as int) is None,
            },
            match headers_from(head@, pos as int) {
                Some(rest) => headers_from(head@, base) == Some(
                    headers@.map_values(|h: Header| (h.name@, h.value@)) + rest,
                ),
                None => headers_from(head@, base) is None,
            },
        decreases hn - pos,
    {
        let k2 = cur.unwrap();
        let hl = slice_subrange(head, pos, k2);
        proof {
            assert(hl@ =~= head@.subrange(pos as int, k2 as int));
        }
        match parse_header_line_exec(hl) {
            None => {
                proof {
                    assert(headers_from(head@, pos as int) is None);
                    assert(headers_from(head@, base) is None);
                    assert(parse_head(head@) is Malformed);
                }
                return DecodeOutcome::Malformed;
            },
            Some(hdr) => {
                let ghost before = headers@.map_values(|h: Header| (h.name@, h.value@));
                let ghost p = (hdr.name@, hdr.value@);
                headers.push(hdr);
                proof {
                    assert(headers@.map_values(|h: Header| (h.name@, h.value@)) =~= before.push(
                        p,
                    ));
                    assert(before.push(p) =~= before + seq![p]);
                }
                pos = k2 + 2;
            },
        }
        cur = find_crlf_exec(head, pos);
    }
    proof {
        assert(headers_from(head@, pos as int) == Some(Seq::<(Seq<u8>, Seq<u8>)>::empty()));
        assert(headers_from(head@, base) == Some(
            headers@.map_values(|h: Header| (h.name@, h.value@)),
        )) by {
            assert(headers@.map_values(|h: Header| (h.name@, h.value@)) + Seq::<(
                Seq<u8>,
                Seq<u8>,
            )>::empty() =~= headers@.map_values(|h: Header| (h.name@, h.value@)));
        }
    }
    let req = RequestHead { method: m, target: t, headers };
    DecodeOutcome::Complete { used: end + 4, req }
}

} // verus!

verus! {

use crate::address::SocketAddress;
use crate::meta::ConnectionMeta;

// ---------------------------------------------------------------------------
// The request's announced host
// ---------------------------------------------------------------------------

/// ASCII lower-casing of one byte.
pub open spec fn lower_byte(c: u8) -> u8 {
    if 65 <= c && c <= 90 {
        (c + 32) as u8
    } else {
        c
    }
}

/// ASCII lower-casing of a byte sequence.
pub open spec fn lower_bytes(s: Seq<u8>) -> Seq<u8> {
    s.map_values(|c: u8| lower_byte(c))
}

/// The header name `host`.
pub open spec fn host_bytes() -> Seq<u8> {
    seq![104u8, 111u8, 115u8, 116u8]
}

/// The value of the first header named `Host`, compared without regard to
/// case.
pub open spec fn find_host(headers: Seq<(Seq<u8>, Seq<u8>)>) -> Option<Seq<u8>>
    decreases headers.len(),
{
    if headers.len() == 0 {
        None
    } else if lower_bytes(headers[0].0) == host_bytes() {
        Some(headers[0].1)
    } else {
        find_host(headers.subrange(1, headers.len() as int))
    }
}

/// Whether a header name is `Host` in any casing.
fn name_is_host(name: &Vec<u8>) -> (r: bool)
    ensures
        r == (lower_bytes(name@) == host_bytes()),
{
    if name.len() != 4 {
        proof {
            assert(lower_bytes(name@).len() == name@.len());
        }
        return false;
    }
    let mut i: usize = 0;
    let mut eq = true;
    while i < 4
        invariant
            i <= 4,
            name@.len() == 4,
            eq == (forall|j: int| 0 <= j < i ==> lower_bytes(name@)[j] == host_bytes()[j]),
        decreases 4 - i,
    {
        let c = name[i];
        let lc: u8 = if 65 <= c && c <= 90 {
            c + 32
        } else {
            c
        };
        let want: u8 = if i == 0 {
            104
        } else if i == 1 {
            111
        } else if i == 2 {
            115
        } else {
            116
        };
        proof {
            assert(lower_bytes(name@)[i as int] == lower_byte(name@[i as int]));
            assert(host_bytes()[i as int] == want);
        }
        if lc != want {
            assert(lower_bytes(name@)[i as int] != host_bytes()[i as int]);
            return false;
        }
        proof {
            assert(lower_bytes(name@)[i as int] == host_bytes()[i as int]);
        }
        i = i + 1;
    }
    proof {
        assert(lower_bytes(name@) =~= host_bytes());
    }
    true
}

impl RequestHead {
    /// The announced host: the value of the first `Host` header, if any.
    pub fn host_header(&self) -> (r: Option<Vec<u8>>)
        ensures
            match find_host(self.shape().headers) {
                Some(h) => r is Some && r.unwrap()@ == h,
                None => r is None,
            },
    {
        let ghost whole = self.shape().headers;
        let mut i: usize = 0;
        proof {
            assert(whole.subrange(0, whole.len() as int) =~= whole);
        }
        while i < self.headers.len()
            invariant
                i <= whole.len(),
                whole == self.shape().headers,
                whole.len() == self.headers@.len(),
                find_host(whole) == find_host(whole.subrange(i as int, whole.len() as int)),
            decreases whole.len() - i,
        {
            let ghost rest = whole.subrange(i as int, whole.len() as int);
            proof {
                assert(rest[0] == whole[i as int]);
                assert(whole[i as int] == (self.headers@[i as int].name@,
                self.headers@[i as int].value@));
                assert(rest.subrange(1, rest.len() as int) =~= whole.subrange(
                    i + 1,
                    whole.len() as int,
                ));
            }
            if name_is_host(&self.headers[i].name) {
                return Some(vstd::slice::slice_to_vec(self.headers[i].value.as_slice()));
            }
            i = i + 1;
        }
        None
    }
}

/// Greatest index with a colon byte.
pub open spec fn find_last_colon_bytes(s: Seq<u8>) -> Option<int>
    decreases s.len(),
{
    if s.len() == 0 {
        None
    } else if s.last() == COLON {
        Some(s.len() - 1)
    } else {
        find_last_colon_bytes(s.drop_last())
    }
}

/// The host of an authority: the text before a trailing `:port` suffix of
/// digits, or the whole text when no such suffix is present.
pub open spec fn authority_host(v: Seq<u8>) -> Seq<u8> {
    match find_last_colon_bytes(v) {
        None => v,
        Some(k) => {
            let tail = v.subrange(k + 1, v.len() as int);
            if tail.len() >= 1 && all_digit_bytes(tail) {
                v.subrange(0, k)
            } else {
                v
            }
        },
    }
}

/// Copy the host part of an authority, dropping a trailing `:port`.
fn strip_port(v: &[u8]) -> (r: Vec<u8>)
    ensures
        r@ == authority_host(v@),
{
    let n = v.len();
    let mut i = n;
    proof {
        assert(v@.take(n as int) =~= v@);
    }
    #[verifier::loop_isolation(false)]
    while i > 0
        invariant
            i <= n,
            n == v@.len(),
            find_last_colon_bytes(v@) == find_last_colon_bytes(v@.take(i as int)),
        decreases i,
    {
        let c = *slice_index_get(v, i - 1);
        if c == 58 {
            proof {
                assert(v@.take(i as int).last() == v@[i - 1]);
            }
            let k = i - 1;
            // the suffix must be one or more digits for a port to be there
            if k + 1 == n {
                proof {
                    assert(v@.subrange(k + 1, n as int).len() == 0);
                }
                return slice_to_vec(v);
            }
            let mut j = k + 1;
            #[verifier::loop_isolation(false)]
            while j < n
                invariant
                    k + 1 <= j <= n,
                    forall|x: int| k + 1 <= x < j ==> is_digit_byte(#[trigger] v@[x]),
                decreases n - j,
            {
                let d = *slice_index_get(v, j);
                if !(48 <= d && d <= 57) {
                    proof {
                        let tail = v@.subrange(k + 1, n as int);
                        assert(tail[j - (k + 1)] == v@[j as int]);
                        assert(!all_digit_bytes(tail));
                    }
                    return slice_to_vec(v);
                }
                j = j + 1;
            }
            proof {
                let tail = v@.subrange(k + 1, n as int);
                assert(forall|x: int| 0 <= x < tail.len() ==> tail[x] == v@[x + k + 1]);
                assert(all_digit_bytes(tail));
            }
            return slice_to_vec(slice_subrange(v, 0, k));
        }
        proof {
            assert(v@.take(i as int).last() == v@[i - 1]);
            assert(v@.take(i as int).drop_last() =~= v@.take(i - 1));
        }
        i = i - 1;
    }
    proof {
        assert(v@.take(0).len() == 0);
    }
    slice_to_vec(v)
}

/// Nothing to classify the connection by: the request announced no host.
#[derive(Clone, Copy, PartialEq, Eq, Structural, Debug)]
pub struct NoHostError;

/// Build the classification input for a decoded request: the host
/// extracted from the announced authority (its `:port` suffix dropped),
/// the peer and destination endpoints as the caller knows them, and the
/// stream marked as connection-oriented. Fails exactly when the request
/// has no `Host` header.
pub fn build_connection_meta(
    req: &RequestHead,
    src_addr: Option<SocketAddress>,
    dst_addr: Option<SocketAddress>,
) -> (r: Result<ConnectionMeta, NoHostError>)
    ensures
        match find_host(req.shape().headers) {
            Some(h) => {
                &&& r is Ok
                &&& r.unwrap().host@ == authority_host(h)
                &&& r.unwrap().udp == false
                &&& r.unwrap().src_addr == src_addr
                &&& r.unwrap().dst_addr == dst_addr
            },
            None => r is Err,
        },
{
    match req.host_header() {
        None => Err(NoHostError),
        Some(host) => {
            let host = strip_port(host.as_slice());
            Ok(ConnectionMeta { udp: false, host, src_addr, dst_addr })
        },
    }
}

} // verus!
