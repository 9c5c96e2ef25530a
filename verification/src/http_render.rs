//! Rendering HTTP/1.1 responses: status line, the fixed `Server`,
//! `Content-Length` and `Date` headers, then the body.

use vstd::prelude::*;

use crate::digits::{append_dec_bytes, dec_bytes};

verus! {

/// `HTTP/1.1 ` — the version and the blank before the status code.
pub open spec fn version_prefix() -> Seq<u8> {
    seq![72u8, 84u8, 84u8, 80u8, 47u8, 49u8, 46u8, 49u8, 32u8]
}

/// `Server: tache` and the line break.
pub open spec fn server_line() -> Seq<u8> {
    seq![
        83u8, 101u8, 114u8, 118u8, 101u8, 114u8, 58u8, 32u8, 116u8, 97u8, 99u8, 104u8, 101u8,
        13u8, 10u8,
    ]
}

/// `Content-Length: `.
pub open spec fn content_length_prefix() -> Seq<u8> {
    seq![
        67u8, 111u8, 110u8, 116u8, 101u8, 110u8, 116u8, 45u8, 76u8, 101u8, 110u8, 103u8, 116u8,
        104u8, 58u8, 32u8,
    ]
}

/// `Date: `.
pub open spec fn date_prefix() -> Seq<u8> {
    seq![68u8, 97u8, 116u8, 101u8, 58u8, 32u8]
}

/// A line break.
pub open spec fn crlf() -> Seq<u8> {
    seq![13u8, 10u8]
}

/// The whole response on the wire: status line, `Server`, `Content-Length`
/// and `Date` headers, an empty line, then the body.
pub open spec fn response_bytes(
    code: u16,
    reason: Seq<u8>,
    date: Seq<u8>,
    body: Seq<u8>,
) -> Seq<u8> {
    version_prefix() + dec_bytes(code as int) + seq![32u8] + reason + crlf() + server_line()
        + content_length_prefix() + dec_bytes(body.len() as int) + crlf() + date_prefix() + date
        + crlf() + crlf() + body
}

/// Append `HTTP/1.1 ` to `out`.
fn push_version_prefix(out: &mut Vec<u8>)
    ensures
        final(out)@ == old(out)@ + version_prefix(),
{
    out.push(72);
    out.push(84);
    out.push(84);
    out.push(80);
    out.push(47);
    out.push(49);
    out.push(46);
    out.push(49);
    out.push(32);
    proof {
        assert(final(out)@ =~= old(out)@ + version_prefix());
    }
}

/// Append `Server: tache` and its line break to `out`.
fn push_server_line(out: &mut Vec<u8>)
    ensures
        final(out)@ == old(out)@ + server_line(),
{
    out.push(83);
    out.push(101);
    out.push(114);
    out.push(118);
    out.push(101);
    out.push(114);
    out.push(58);
    out.push(32);
    out.push(116);
    out.push(97);
    out.push(99);
    out.push(104);
    out.push(101);
    out.push(13);
    out.push(10);
    proof {
        assert(final(out)@ =~= old(out)@ + server_line());
    }
}

/// Append `Content-Length: ` to `out`.
fn push_content_length_prefix(out: &mut Vec<u8>)
    ensures
        final(out)@ == old(out)@ + content_length_prefix(),
{
    out.push(67);
    out.push(111);
    out.push(110);
    out.push(116);
    out.push(101);
    out.push(110);
    out.push(116);
    out.push(45);
    out.push(76);
    out.push(101);
    out.push(110);
    out.push(103);
    out.push(116);
    out.push(104);
    out.push(58);
    out.push(32);
    proof {
        assert(final(out)@ =~= old(out)@ + content_length_prefix());
    }
}

/// Append `Date: ` to `out`.
fn push_date_prefix(out: &mut Vec<u8>)
    ensures
        final(out)@ == old(out)@ + date_prefix(),
{
    out.push(68);
    out.push(97);
    out.push(116);
    out.push(101);
    out.push(58);
    out.push(32);
    proof {
        assert(final(out)@ =~= old(out)@ + date_prefix());
    }
}

/// Append a line break to `out`.
fn push_crlf(out: &mut Vec<u8>)
    ensures
        final(out)@ == old(out)@ + crlf(),
{
    out.push(13);
    out.push(10);
    proof {
        assert(final(out)@ =~= old(out)@ + crlf());
    }
}

/// Append a byte run to `out`.
fn push_bytes(out: &mut Vec<u8>, bytes: &[u8])
    ensures
        final(out)@ == old(out)@ + bytes@,
{
    out.extend_from_slice(bytes);
}

/// Append a whole rendered response to `out`.
pub fn append_response(out: &mut Vec<u8>, code: u16, reason: &[u8], date: &[u8], body: &[u8])
    ensures
        final(out)@ == old(out)@ + response_bytes(code, reason@, date@, body@),
{
    push_version_prefix(out);
    append_dec_bytes(out, code as u64);
    out.push(32);
    push_bytes(out, reason);
    push_crlf(out);
    push_server_line(out);
    push_content_length_prefix(out);
    append_dec_bytes(out, body.len() as u64);
    push_crlf(out);
    push_date_prefix(out);
    push_bytes(out, date);
    push_crlf(out);
    push_crlf(out);
    push_bytes(out, body);
    proof {
        assert(final(out)@ =~= old(out)@ + response_bytes(code, reason@, date@, body@));
    }
}

/// `Bad Request`, the reason phrase of a 400 response.
pub fn bad_request_reason() -> (r: Vec<u8>)
    ensures
        r@ == bad_request_reason_bytes(),
{
    let mut v: Vec<u8> = Vec::new();
    v.push(66);
    v.push(97);
    v.push(100);
    v.push(32);
    v.push(82);
    v.push(101);
    v.push(113);
    v.push(117);
    v.push(101);
    v.push(115);
    v.push(116);
    proof {
        assert(v@ =~= bad_request_reason_bytes());
    }
    v
}

/// The bytes of `Bad Request`.
pub open spec fn bad_request_reason_bytes() -> Seq<u8> {
    seq![66u8, 97u8, 100u8, 32u8, 82u8, 101u8, 113u8, 117u8, 101u8, 115u8, 116u8]
}

/// `Request Timeout`, the reason phrase of a 408 response.
pub fn request_timeout_reason() -> (r: Vec<u8>)
    ensures
        r@ == request_timeout_reason_bytes(),
{
    let mut v: Vec<u8> = Vec::new();
    v.push(82);
    v.push(101);
    v.push(113);
    v.push(117);
    v.push(101);
    v.push(115);
    v.push(116);
    v.push(32);
    v.push(84);
    v.push(105);
    v.push(109);
    v.push(101);
    v.push(111);
    v.push(117);
    v.push(116);
    proof {
        assert(v@ =~= request_timeout_reason_bytes());
    }
    v
}

/// The bytes of `Request Timeout`.
pub open spec fn request_timeout_reason_bytes() -> Seq<u8> {
    seq![
        82u8, 101u8, 113u8, 117u8, 101u8, 115u8, 116u8, 32u8, 84u8, 105u8, 109u8, 101u8, 111u8,
        117u8, 116u8,
    ]
}

} // verus!
