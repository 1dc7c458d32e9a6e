//! The wire parser: raw request bytes to a structured `Request`.
//!
//! The accepted subset is deliberately small. The raw text is split on CRLF
//! and empty lines are discarded; the first remaining line is
//! `method SP path SP version` (the version token is read but ignored);
//! every later line is a `Name: Value` header, split on the first `": "`
//! occurrence, with ASCII whitespace trimmed from the line, the name and the
//! value. Lines without a `": "` are dropped (a permissive, lossy skip).
//! Header names match case-sensitively, and the last occurrence of a
//! duplicated name wins. The body, present only for a POST that carries a
//! `Content-Length` header, is the last nonempty CRLF-delimited segment of
//! the whole buffer; the declared length is never consulted for the slice.

use vstd::prelude::*;
use crate::scan::bytes_eq;
use crate::scan::filter_nonempty;
use crate::scan::find2;
use crate::scan::find2_from;
use crate::scan::lemma_find2_props;
use crate::scan::nonempty_lines;
use crate::scan::split1;
use crate::scan::split1_from;
use crate::scan::split2;
use crate::scan::split2_from;
use crate::scan::trim;
use crate::scan::trim_ws;

verus! {

/// The request methods the server understands.
#[derive(Clone, Copy, Debug, PartialEq, Eq, Structural)]
pub enum HttpMethod {
    GET,
    POST,
}

/// The content encodings a client may negotiate.
#[derive(Clone, Copy, Debug, PartialEq, Eq, Structural)]
pub enum Encoding {
    Gzip,
}

/// Why a raw request was rejected.
#[derive(Clone, Copy, Debug, PartialEq, Eq, Structural)]
pub enum ParseError {
    /// No CRLF separates the request line from the headers.
    MissingLineBreak,
    /// The request line has fewer than two space-separated tokens,
    /// or there is no request line at all.
    BadRequestLine,
    /// The method token is neither `GET` nor `POST`.
    BadMethod,
}

/// The mathematical shape of a parsed request.
#[verifier::ext_equal]
pub ghost struct ReqModel {
    pub method: HttpMethod,
    pub path: Seq<u8>,
    pub user_agent: Option<Seq<u8>>,
    pub body: Option<Seq<u8>>,
    pub encoding: Option<Encoding>,
}

/// A parsed request, immutable after parsing.
#[derive(Debug)]
pub struct Request {
    pub method: HttpMethod,
    pub path: Vec<u8>,
    pub user_agent: Option<Vec<u8>>,
    pub body: Option<Vec<u8>>,
    pub encoding: Option<Encoding>,
}

impl View for Request {
    type V = ReqModel;

    open spec fn view(&self) -> ReqModel {
        ReqModel {
            method: self.method,
            path: self.path@,
            user_agent: self.user_agent.deep_view(),
            body: self.body.deep_view(),
            encoding: self.encoding,
        }
    }
}

/// The bytes of `GET`.
pub open spec fn get_token() -> Seq<u8> {
    seq![71u8, 69, 84]
}

/// The bytes of `POST`.
pub open spec fn post_token() -> Seq<u8> {
    seq![80u8, 79, 83, 84]
}

/// The bytes of the header name `User-Agent`.
pub open spec fn user_agent_name() -> Seq<u8> {
    seq![85u8, 115, 101, 114, 45, 65, 103, 101, 110, 116]
}

/// The bytes of the header name `Accept-Encoding`.
pub open spec fn accept_encoding_name() -> Seq<u8> {
    seq![65u8, 99, 99, 101, 112, 116, 45, 69, 110, 99, 111, 100, 105, 110, 103]
}

/// The bytes of the header name `Content-Length`.
pub open spec fn content_length_name() -> Seq<u8> {
    seq![67u8, 111, 110, 116, 101, 110, 116, 45, 76, 101, 110, 103, 116, 104]
}

/// The bytes of the token `gzip`.
pub open spec fn gzip_token() -> Seq<u8> {
    seq![103u8, 122, 105, 112]
}

/// The bytes of `GET`, as a value.
fn get_token_bytes() -> (r: Vec<u8>)
    ensures
        r@ == get_token(),
{
    let mut v: Vec<u8> = Vec::new();
    v.push(71);
    v.push(69);
    v.push(84);
    proof {
        assert(v@ =~= get_token());
    }
    v
}

/// The bytes of `POST`, as a value.
fn post_token_bytes() -> (r: Vec<u8>)
    ensures
        r@ == post_token(),
{
    let mut v: Vec<u8> = Vec::new();
    v.push(80);
    v.push(79);
    v.push(83);
    v.push(84);
    proof {
        assert(v@ =~= post_token());
    }
    v
}

/// The bytes of `User-Agent`, as a value.
fn user_agent_name_bytes() -> (r: Vec<u8>)
    ensures
        r@ == user_agent_name(),
{
    let mut v: Vec<u8> = Vec::new();
    v.push(85);
    v.push(115);
    v.push(101);
    v.push(114);
    v.push(45);
    v.push(65);
    v.push(103);
    v.push(101);
    v.push(110);
    v.push(116);
    proof {
        assert(v@ =~= user_agent_name());
    }
    v
}

/// The bytes of `Accept-Encoding`, as a value.
fn accept_encoding_name_bytes() -> (r: Vec<u8>)
    ensures
        r@ == accept_encoding_name(),
{
    let mut v: Vec<u8> = Vec::new();
    v.push(65);
    v.push(99);
    v.push(99);
    v.push(101);
    v.push(112);
    v.push(116);
    v.push(45);
    v.push(69);
    v.push(110);
    v.push(99);
    v.push(111);
    v.push(100);
    v.push(105);
    v.push(110);
    v.push(103);
    proof {
        assert(v@ =~= accept_encoding_name());
    }
    v
}

/// The bytes of `Content-Length`, as a value.
fn content_length_name_bytes() -> (r: Vec<u8>)
    ensures
        r@ == content_length_name(),
{
    let mut v: Vec<u8> = Vec::new();
    v.push(67);
    v.push(111);
    v.push(110);
    v.push(116);
    v.push(101);
    v.push(110);
    v.push(116);
    v.push(45);
    v.push(76);
    v.push(101);
    v.push(110);
    v.push(103);
    v.push(116);
    v.push(104);
    proof {
        assert(v@ =~= content_length_name());
    }
    v
}

/// The bytes of `gzip`, as a value.
fn gzip_token_bytes() -> (r: Vec<u8>)
    ensures
        r@ == gzip_token(),
{
    let mut v: Vec<u8> = Vec::new();
    v.push(103);
    v.push(122);
    v.push(105);
    v.push(112);
    proof {
        assert(v@ =~= gzip_token());
    }
    v
}

/// The name/value pair of a header line: the line is trimmed, cut at the
/// first `": "`, and both sides are trimmed; a line without `": "` is
/// not a header.
pub open spec fn header_parts(line: Seq<u8>) -> Option<(Seq<u8>, Seq<u8>)> {
    let t = trim_ws(line);
    match find2_from(t, 58, 32, 0) {
        None => None,
        Some(i) => Some((trim_ws(t.subrange(0, i)), trim_ws(t.subrange(i + 2, t.len() as int)))),
    }
}

/// The value of the last header line among `lines` whose name is `name`,
/// if any: a later occurrence of a duplicated name wins.
pub open spec fn lookup_header(lines: Seq<Seq<u8>>, name: Seq<u8>) -> Option<Seq<u8>>
    decreases lines.len(),
{
    if lines.len() == 0 {
        None
    } else {
        match header_parts(lines.last()) {
            Some(kv) => if kv.0 == name {
                Some(kv.1)
            } else {
                lookup_header(lines.drop_last(), name)
            },
            None => lookup_header(lines.drop_last(), name),
        }
    }
}

/// Splits one header line into its trimmed name and value.
pub fn split_header_line(line: &[u8]) -> (r: Option<(Vec<u8>, Vec<u8>)>)
    ensures
        match r {
            Some(kv) => header_parts(line@) == Some((kv.0@, kv.1@)),
            None => header_parts(line@) is None,
        },
{
    let t = trim(line);
    match find2(t, 58, 32, 0) {
        None => None,
        Some(i) => {
            proof {
                lemma_find2_props(t@, 58, 32, 0);
            }
            let tn: usize = t.len();
            let name = trim(vstd::slice::slice_subrange(t, 0, i));
            let value = trim(vstd::slice::slice_subrange(t, i + 2, tn));
            Some((vstd::slice::slice_to_vec(name), vstd::slice::slice_to_vec(value)))
        },
    }
}

/// Looks `name` up among the header lines `lines[from..]`, the last
/// occurrence winning.
pub fn find_header(lines: &Vec<Vec<u8>>, from: usize, name: &[u8]) -> (r: Option<Vec<u8>>)
    requires
        from <= lines@.len(),
    ensures
        match r {
            Some(v) => lookup_header(lines.deep_view().skip(from as int), name@) == Some(v@),
            None => lookup_header(lines.deep_view().skip(from as int), name@) is None,
        },
{
    let ghost region = lines.deep_view().skip(from as int);
    let mut acc: Option<Vec<u8>> = None;
    let mut i: usize = from;
    proof {
        assert(region.subrange(0, 0) =~~= Seq::<Seq<u8>>::empty());
    }
    while i < lines.len()
        invariant
            from <= i <= lines@.len(),
            region == lines.deep_view().skip(from as int),
            match acc {
                Some(v) => lookup_header(region.subrange(0, i - from), name@) == Some(v@),
                None => lookup_header(region.subrange(0, i - from), name@) is None,
            },
        decreases lines@.len() - i,
    {
        let ghost seen = region.subrange(0, i - from);
        proof {
            let seen2 = region.subrange(0, i + 1 - from);
            assert(seen2.drop_last() =~~= seen);
            assert(seen2.last() == lines.deep_view()[i as int]);
            assert(lines.deep_view()[i as int] =~= lines@[i as int]@);
        }
        match split_header_line(lines[i].as_slice()) {
            Some(kv) => {
                if bytes_eq(kv.0.as_slice(), name) {
                    acc = Some(kv.1);
                }
            },
            None => {},
        }
        i = i + 1;
    }
    proof {
        assert(region.subrange(0, i - from) =~~= region);
    }
    acc
}

/// What parsing returns, on every input: the structured request, or the
/// first applicable rejection. Parsing fails exactly when the input has no
/// CRLF at all, when no nonempty line precedes it (no request line), when
/// the request line has fewer than two space-separated tokens, or when the
/// method token is neither `GET` nor `POST`.
pub open spec fn spec_parse(raw: Seq<u8>) -> Result<ReqModel, ParseError> {
    if find2_from(raw, 13, 10, 0) is None {
        Err(ParseError::MissingLineBreak)
    } else {
        let lines = nonempty_lines(split2_from(raw, 13, 10, 0));
        if lines.len() == 0 {
            Err(ParseError::BadRequestLine)
        } else {
            let toks = split1_from(lines[0], 32, 0);
            if toks.len() < 2 {
                Err(ParseError::BadRequestLine)
            } else if toks[0] != get_token() && toks[0] != post_token() {
                Err(ParseError::BadMethod)
            } else {
                let method = if toks[0] == get_token() {
                    HttpMethod::GET
                } else {
                    HttpMethod::POST
                };
                let hdrs = lines.skip(1);
                let encoding = if lookup_header(hdrs, accept_encoding_name()) == Some(
                    gzip_token(),
                ) {
                    Some(Encoding::Gzip)
                } else {
                    None
                };
                let body = if method is POST && lookup_header(hdrs, content_length_name())
                    is Some {
                    Some(lines.last())
                } else {
                    None
                };
                Ok(
                    ReqModel {
                        method,
                        path: toks[1],
                        user_agent: lookup_header(hdrs, user_agent_name()),
                        body,
                        encoding,
                    },
                )
            }
        }
    }
}

/// Parses raw request bytes into a `Request`, exactly as `spec_parse`
/// describes.
pub fn parse_request(raw: &[u8]) -> (r: Result<Request, ParseError>)
    ensures
        match r {
            Ok(req) => spec_parse(raw@) == Ok::<ReqModel, ParseError>(req@),
            Err(e) => spec_parse(raw@) == Err::<ReqModel, ParseError>(e),
        },
{
    let first_break = find2(raw, 13, 10, 0);
    if first_break.is_none() {
        return Err(ParseError::MissingLineBreak);
    }
    let parts = split2(raw, 13, 10);
    let lines = filter_nonempty(&parts);
    if lines.len() == 0 {
        return Err(ParseError::BadRequestLine);
    }
    proof {
        assert(lines.deep_view()[0] =~= lines@[0]@);
    }
    let toks = split1(lines[0].as_slice(), 32);
    if toks.len() < 2 {
        return Err(ParseError::BadRequestLine);
    }
    proof {
        assert(toks.deep_view()[0] =~= toks@[0]@);
        assert(toks.deep_view()[1] =~= toks@[1]@);
    }
    let get_lit = get_token_bytes();
    let post_lit = post_token_bytes();
    let is_get = bytes_eq(toks[0].as_slice(), get_lit.as_slice());
    let is_post = bytes_eq(toks[0].as_slice(), post_lit.as_slice());
    if !is_get && !is_post {
        return Err(ParseError::BadMethod);
    }
    let method = if is_get {
        HttpMethod::GET
    } else {
        HttpMethod::POST
    };
    let ua_name = user_agent_name_bytes();
    let user_agent = find_header(&lines, 1, ua_name.as_slice());
    let ae_name = accept_encoding_name_bytes();
    let accept_encoding = find_header(&lines, 1, ae_name.as_slice());
    let gzip_lit = gzip_token_bytes();
    let encoding = match &accept_encoding {
        Some(v) => if bytes_eq(v.as_slice(), gzip_lit.as_slice()) {
            Some(Encoding::Gzip)
        } else {
            None
        },
        None => None,
    };
    let cl_name = content_length_name_bytes();
    let content_length = find_header(&lines, 1, cl_name.as_slice());
    let body = if is_post && content_length.is_some() {
        proof {
            assert(lines.deep_view()[lines@.len() - 1] =~= lines@[lines@.len() - 1]@);
        }
        Some(vstd::slice::slice_to_vec(lines[lines.len() - 1].as_slice()))
    } else {
        None
    };
    let path = vstd::slice::slice_to_vec(toks[1].as_slice());
    let req = Request { method, path, user_agent, body, encoding };
    proof {
        let s_lines = nonempty_lines(split2_from(raw@, 13, 10, 0));
        assert(s_lines == lines.deep_view());
        let s_toks = split1_from(s_lines[0], 32, 0);
        assert(s_toks == toks.deep_view());
        let hdrs = s_lines.skip(1);
        assert(s_lines.last() == lines.deep_view()[lines@.len() - 1]);
        assert(req@ =~= spec_parse(raw@).unwrap());
    }
    Ok(req)
}

} // verus!
