//! The response builder: a structured `Response` to wire bytes.
//!
//! A full response renders as the status line, then the headers in a fixed
//! order (`Content-Encoding` if present, then `Content-Type`, then
//! `Content-Length`), a blank line, and the body verbatim. The bare `201`
//! and `404` responses carry no headers and no body. The `Content-Encoding`
//! header is only asserted; the payload itself is never compressed.

use vstd::prelude::*;
use crate::request::Encoding;
use crate::scan::push_all;

verus! {

/// The mathematical shape of a response.
#[verifier::ext_equal]
pub ghost struct RespModel {
    pub status: int,
    pub content: Seq<u8>,
    pub content_type: Option<Seq<u8>>,
    pub encoding: Option<Encoding>,
}

/// A structured response, consumed by the builder.
pub struct Response {
    pub status_code: u16,
    pub content: Vec<u8>,
    pub content_type: Option<Vec<u8>>,
    pub encoding: Option<Encoding>,
}

impl View for Response {
    type V = RespModel;

    open spec fn view(&self) -> RespModel {
        RespModel {
            status: self.status_code as int,
            content: self.content@,
            content_type: self.content_type.deep_view(),
            encoding: self.encoding,
        }
    }
}

/// The bytes of the status line `HTTP/1.1 200 OK` with its CRLF.
pub open spec fn status_line_200() -> Seq<u8> {
    seq![72u8, 84, 84, 80, 47, 49, 46, 49, 32, 50, 48, 48, 32, 79, 75, 13, 10]
}

/// The bytes of the bare `200 OK` response: status line, blank line,
/// no headers, no body.
pub open spec fn bare_ok_200() -> Seq<u8> {
    status_line_200() + seq![13u8, 10]
}

/// The bytes of the whole `201 Created` response.
pub open spec fn created_201() -> Seq<u8> {
    seq![
        72u8,
        84,
        84,
        80,
        47,
        49,
        46,
        49,
        32,
        50,
        48,
        49,
        32,
        67,
        114,
        101,
        97,
        116,
        101,
        100,
        13,
        10,
        13,
        10,
    ]
}

/// The bytes of the whole `404 Not Found` response.
pub open spec fn not_found_404() -> Seq<u8> {
    seq![
        72u8,
        84,
        84,
        80,
        47,
        49,
        46,
        49,
        32,
        52,
        48,
        52,
        32,
        78,
        111,
        116,
        32,
        70,
        111,
        117,
        110,
        100,
        13,
        10,
        13,
        10,
    ]
}

/// The bytes of the header line `Content-Encoding: gzip` with its CRLF.
pub open spec fn content_encoding_gzip_line() -> Seq<u8> {
    seq![
        67u8,
        111,
        110,
        116,
        101,
        110,
        116,
        45,
        69,
        110,
        99,
        111,
        100,
        105,
        110,
        103,
        58,
        32,
        103,
        122,
        105,
        112,
        13,
        10,
    ]
}

/// The bytes of `Content-Type: `, up to the value.
pub open spec fn content_type_prefix() -> Seq<u8> {
    seq![67u8, 111, 110, 116, 101, 110, 116, 45, 84, 121, 112, 101, 58, 32]
}

/// The bytes of the default content type `text/plain`.
pub open spec fn text_plain() -> Seq<u8> {
    seq![116u8, 101, 120, 116, 47, 112, 108, 97, 105, 110]
}

/// The bytes of the content type `application/octet-stream`.
pub open spec fn octet_stream() -> Seq<u8> {
    seq![
        97u8,
        112,
        112,
        108,
        105,
        99,
        97,
        116,
        105,
        111,
        110,
        47,
        111,
        99,
        116,
        101,
        116,
        45,
        115,
        116,
        114,
        101,
        97,
        109,
    ]
}

/// The bytes of `Content-Length: `, up to the value.
pub open spec fn content_length_prefix() -> Seq<u8> {
    seq![67u8, 111, 110, 116, 101, 110, 116, 45, 76, 101, 110, 103, 116, 104, 58, 32]
}

/// A CRLF pair.
pub open spec fn crlf() -> Seq<u8> {
    seq![13u8, 10]
}

/// The decimal digits of `n`, most significant first, no leading zeros
/// (a single `0` for zero).
pub open spec fn dec_digits(n: nat) -> Seq<u8>
    decreases n,
{
    if n < 10 {
        seq![(48 + n) as u8]
    } else {
        dec_digits(n / 10) + seq![(48 + n % 10) as u8]
    }
}

/// The `Content-Encoding` header rendered for `e`: the gzip line when
/// gzip was negotiated, nothing otherwise.
pub open spec fn encoding_lines(e: Option<Encoding>) -> Seq<u8> {
    match e {
        Some(Encoding::Gzip) => content_encoding_gzip_line(),
        None => Seq::empty(),
    }
}

/// The content type rendered for `ct`: `text/plain` when absent.
pub open spec fn content_type_value(ct: Option<Seq<u8>>) -> Seq<u8> {
    match ct {
        Some(c) => c,
        None => text_plain(),
    }
}

/// The wire bytes of a full `200 OK` response for `m`: status line,
/// optional `Content-Encoding`, `Content-Type`, a `Content-Length` equal to
/// the exact byte length of the content, a blank line, then the content.
pub open spec fn render_200(m: RespModel) -> Seq<u8> {
    status_line_200() + encoding_lines(m.encoding) + content_type_prefix() + content_type_value(
        m.content_type,
    ) + crlf() + content_length_prefix() + dec_digits(m.content.len()) + crlf() + crlf()
        + m.content
}

/// The wire bytes for any response model: a full rendering for status 200,
/// the bare `201 Created` for 201, and the bare `404 Not Found` otherwise.
pub open spec fn render_response(m: RespModel) -> Seq<u8> {
    if m.status == 200 {
        render_200(m)
    } else if m.status == 201 {
        created_201()
    } else {
        not_found_404()
    }
}

/// Appends the decimal digits of `n` to `out`.
pub fn push_decimal(out: &mut Vec<u8>, n: usize)
    ensures
        final(out)@ == old(out)@ + dec_digits(n as nat),
    decreases n,
{
    if n < 10 {
        out.push(48 + n as u8);
        proof {
            assert(old(out)@ + dec_digits(n as nat) =~= old(out)@.push((48 + n as nat) as u8));
        }
    } else {
        let ghost mid = old(out)@ + dec_digits((n / 10) as nat);
        push_decimal(out, n / 10);
        let d: u8 = (n % 10) as u8;
        out.push(48 + d);
        proof {
            assert(old(out)@ + dec_digits(n as nat) =~= mid.push((48 + (n as nat) % 10) as u8));
        }
    }
}

/// Appends the status line `HTTP/1.1 200 OK` and its CRLF to `out`.
fn push_status_line_200(out: &mut Vec<u8>)
    ensures
        final(out)@ == old(out)@ + status_line_200(),
{
    out.push(72);
    out.push(84);
    out.push(84);
    out.push(80);
    out.push(47);
    out.push(49);
    out.push(46);
    out.push(49);
    out.push(32);
    out.push(50);
    out.push(48);
    out.push(48);
    out.push(32);
    out.push(79);
    out.push(75);
    out.push(13);
    out.push(10);
    proof {
        assert(out@ =~= old(out)@ + status_line_200());
    }
}

/// Appends the header line `Content-Encoding: gzip` and its CRLF to `out`.
fn push_content_encoding_gzip(out: &mut Vec<u8>)
    ensures
        final(out)@ == old(out)@ + content_encoding_gzip_line(),
{
    out.push(67);
    out.push(111);
    out.push(110);
    out.push(116);
    out.push(101);
    out.push(110);
    out.push(116);
    out.push(45);
    out.push(69);
    out.push(110);
    out.push(99);
    out.push(111);
    out.push(100);
    out.push(105);
    out.push(110);
    out.push(103);
    out.push(58);
    out.push(32);
    out.push(103);
    out.push(122);
    out.push(105);
    out.push(112);
    out.push(13);
    out.push(10);
    proof {
        assert(out@ =~= old(out)@ + content_encoding_gzip_line());
    }
}

/// Appends `Content-Type: ` to `out`.
fn push_content_type_prefix(out: &mut Vec<u8>)
    ensures
        final(out)@ == old(out)@ + content_type_prefix(),
{
    out.push(67);
    out.push(111);
    out.push(110);
    out.push(116);
    out.push(101);
    out.push(110);
    out.push(116);
    out.push(45);
    out.push(84);
    out.push(121);
    out.push(112);
    out.push(101);
    out.push(58);
    out.push(32);
    proof {
        assert(out@ =~= old(out)@ + content_type_prefix());
    }
}

/// Appends `text/plain` to `out`.
fn push_text_plain(out: &mut Vec<u8>)
    ensures
        final(out)@ == old(out)@ + text_plain(),
{
    out.push(116);
    out.push(101);
    out.push(120);
    out.push(116);
    out.push(47);
    out.push(112);
    out.push(108);
    out.push(97);
    out.push(105);
    out.push(110);
    proof {
        assert(out@ =~= old(out)@ + text_plain());
    }
}

/// Appends `Content-Length: ` to `out`.
fn push_content_length_prefix(out: &mut Vec<u8>)
    ensures
        final(out)@ == old(out)@ + content_length_prefix(),
{
    out.push(67);
    out.push(111);
    out.push(110);
    out.push(116);
    out.push(101);
    out.push(110);
    out.push(116);
    out.push(45);
    out.push(76);
    out.push(101);
    out.push(110);
    out.push(103);
    out.push(116);
    out.push(104);
    out.push(58);
    out.push(32);
    proof {
        assert(out@ =~= old(out)@ + content_length_prefix());
    }
}

/// Appends a CRLF to `out`.
fn push_crlf(out: &mut Vec<u8>)
    ensures
        final(out)@ == old(out)@ + crlf(),
{
    out.push(13);
    out.push(10);
    proof {
        assert(out@ =~= old(out)@ + crlf());
    }
}

/// The bytes of `application/octet-stream`, as a value.
pub fn octet_stream_bytes() -> (r: Vec<u8>)
    ensures
        r@ == octet_stream(),
{
    let mut v: Vec<u8> = Vec::new();
    v.push(97);
    v.push(112);
    v.push(112);
    v.push(108);
    v.push(105);
    v.push(99);
    v.push(97);
    v.push(116);
    v.push(105);
    v.push(111);
    v.push(110);
    v.push(47);
    v.push(111);
    v.push(99);
    v.push(116);
    v.push(101);
    v.push(116);
    v.push(45);
    v.push(115);
    v.push(116);
    v.push(114);
    v.push(101);
    v.push(97);
    v.push(109);
    proof {
        assert(v@ =~= octet_stream());
    }
    v
}

/// Renders the full `200 OK` response for `r`.
pub fn resp200(r: Response) -> (out: Vec<u8>)
    ensures
        out@ == render_200(r@),
{
    let mut out: Vec<u8> = Vec::new();
    push_status_line_200(&mut out);
    match &r.encoding {
        Some(enc) => {
            match enc {
                Encoding::Gzip => push_content_encoding_gzip(&mut out),
            }
        },
        None => {},
    }
    push_content_type_prefix(&mut out);
    match &r.content_type {
        Some(ct) => push_all(&mut out, ct.as_slice()),
        None => push_text_plain(&mut out),
    }
    push_crlf(&mut out);
    push_content_length_prefix(&mut out);
    push_decimal(&mut out, r.content.len());
    push_crlf(&mut out);
    push_crlf(&mut out);
    push_all(&mut out, r.content.as_slice());
    proof {
        assert(out@ =~= render_200(r@));
    }
    out
}

/// Renders the bare `200 OK` response: status line and blank line only,
/// so no `Content-Length` header and no body.
pub fn resp200_bare() -> (r: Vec<u8>)
    ensures
        r@ == bare_ok_200(),
{
    let mut out: Vec<u8> = Vec::new();
    push_status_line_200(&mut out);
    push_crlf(&mut out);
    proof {
        assert(out@ =~= bare_ok_200());
    }
    out
}

/// Renders the bare `201 Created` response.
pub fn resp201() -> (r: Vec<u8>)
    ensures
        r@ == created_201(),
{
    let mut out: Vec<u8> = Vec::new();
    out.push(72);
    out.push(84);
    out.push(84);
    out.push(80);
    out.push(47);
    out.push(49);
    out.push(46);
    out.push(49);
    out.push(32);
    out.push(50);
    out.push(48);
    out.push(49);
    out.push(32);
    out.push(67);
    out.push(114);
    out.push(101);
    out.push(97);
    out.push(116);
    out.push(101);
    out.push(100);
    out.push(13);
    out.push(10);
    out.push(13);
    out.push(10);
    proof {
        assert(out@ =~= created_201());
    }
    out
}

/// Renders the bare `404 Not Found` response.
pub fn resp404() -> (r: Vec<u8>)
    ensures
        r@ == not_found_404(),
{
    let mut out: Vec<u8> = Vec::new();
    out.push(72);
    out.push(84);
    out.push(84);
    out.push(80);
    out.push(47);
    out.push(49);
    out.push(46);
    out.push(49);
    out.push(32);
    out.push(52);
    out.push(48);
    out.push(52);
    out.push(32);
    out.push(78);
    out.push(111);
    out.push(116);
    out.push(32);
    out.push(70);
    out.push(111);
    out.push(117);
    out.push(110);
    out.push(100);
    out.push(13);
    out.push(10);
    out.push(13);
    out.push(10);
    proof {
        assert(out@ =~= not_found_404());
    }
    out
}

} // verus!
