//! The route dispatcher and the per-connection step.
//!
//! Routing goes by the first path segment: `/` exactly answers a bare
//! `200 OK`; `echo/<value>` answers the value verbatim; `user-agent`
//! reflects the `User-Agent` header or answers `404` without one;
//! `files/<name>` asks for a file read (GET) or write (POST) under the
//! served directory. Everything else, a missing path segment, a missing
//! POST body, and an unconfigured served directory all answer `404`.
//!
//! File reads and writes are the caller's: the dispatcher only names the
//! file, and `file_read_response` / `file_write_response` turn the outcome
//! of the I/O, handed back as a plain value, into wire bytes. Any outcome
//! other than success answers `404`, deliberately also for write failures.

use vstd::prelude::*;
use crate::request::Encoding;
use crate::request::HttpMethod;
use crate::request::ParseError;
use crate::request::ReqModel;
use crate::request::Request;
use crate::request::parse_request;
use crate::request::spec_parse;
use crate::response::RespModel;
use crate::response::Response;
use crate::response::bare_ok_200;
use crate::response::created_201;
use crate::response::not_found_404;
use crate::response::octet_stream;
use crate::response::octet_stream_bytes;
use crate::response::render_200;
use crate::response::render_response;
use crate::response::resp200;
use crate::response::resp200_bare;
use crate::response::resp201;
use crate::response::resp404;
use crate::scan::bytes_eq;
use crate::scan::split1;
use crate::scan::split1_from;

verus! {

/// The mathematical shape of a dispatched action.
#[verifier::ext_equal]
pub ghost enum ActModel {
    /// Answer the bare `200 OK` for the root path.
    RootOk,
    /// Answer a structured response.
    Reply(RespModel),
    /// Read the named file under the served directory.
    ReadFile(Seq<u8>),
    /// Write the given contents to the named file under the served
    /// directory.
    WriteFile(Seq<u8>, Seq<u8>),
}

/// What a request routes to.
pub enum Action {
    /// Answer the bare `200 OK` for the root path.
    RootOk,
    /// Answer a structured response.
    Reply(Response),
    /// Read the named file under the served directory.
    ReadFile(Vec<u8>),
    /// Write the given contents to the named file under the served
    /// directory.
    WriteFile(Vec<u8>, Vec<u8>),
}

impl View for Action {
    type V = ActModel;

    open spec fn view(&self) -> ActModel {
        match self {
            Action::RootOk => ActModel::RootOk,
            Action::Reply(r) => ActModel::Reply(r@),
            Action::ReadFile(n) => ActModel::ReadFile(n@),
            Action::WriteFile(n, b) => ActModel::WriteFile(n@, b@),
        }
    }
}

/// The `404 Not Found` response model.
pub open spec fn not_found_model() -> RespModel {
    RespModel { status: 404, content: Seq::empty(), content_type: None, encoding: None }
}

/// The bytes of the path `/`.
pub open spec fn root_path() -> Seq<u8> {
    seq![47u8]
}

/// The bytes of the route segment `echo`.
pub open spec fn echo_segment() -> Seq<u8> {
    seq![101u8, 99, 104, 111]
}

/// The bytes of the route segment `user-agent`.
pub open spec fn user_agent_segment() -> Seq<u8> {
    seq![117u8, 115, 101, 114, 45, 97, 103, 101, 110, 116]
}

/// The bytes of the route segment `files`.
pub open spec fn files_segment() -> Seq<u8> {
    seq![102u8, 105, 108, 101, 115]
}

/// The bytes of `/`, as a value.
fn root_path_bytes() -> (r: Vec<u8>)
    ensures
        r@ == root_path(),
{
    let mut v: Vec<u8> = Vec::new();
    v.push(47);
    proof {
        assert(v@ =~= root_path());
    }
    v
}

/// The bytes of `echo`, as a value.
fn echo_segment_bytes() -> (r: Vec<u8>)
    ensures
        r@ == echo_segment(),
{
    let mut v: Vec<u8> = Vec::new();
    v.push(101);
    v.push(99);
    v.push(104);
    v.push(111);
    proof {
        assert(v@ =~= echo_segment());
    }
    v
}

/// The bytes of `user-agent`, as a value.
fn user_agent_segment_bytes() -> (r: Vec<u8>)
    ensures
        r@ == user_agent_segment(),
{
    let mut v: Vec<u8> = Vec::new();
    v.push(117);
    v.push(115);
    v.push(101);
    v.push(114);
    v.push(45);
    v.push(97);
    v.push(103);
    v.push(101);
    v.push(110);
    v.push(116);
    proof {
        assert(v@ =~= user_agent_segment());
    }
    v
}

/// The bytes of `files`, as a value.
fn files_segment_bytes() -> (r: Vec<u8>)
    ensures
        r@ == files_segment(),
{
    let mut v: Vec<u8> = Vec::new();
    v.push(102);
    v.push(105);
    v.push(108);
    v.push(101);
    v.push(115);
    proof {
        assert(v@ =~= files_segment());
    }
    v
}

/// Where a request routes, on every request: the action for its first
/// path segment, or a `404` reply where the route, a needed segment, the
/// served directory or a needed POST body is missing.
pub open spec fn spec_dispatch(req: ReqModel, has_directory: bool) -> ActModel {
    if req.path == root_path() {
        ActModel::RootOk
    } else {
        let segs = split1_from(req.path, 47, 0);
        if segs.len() < 2 {
            ActModel::Reply(not_found_model())
        } else if segs[1] == echo_segment() {
            if segs.len() < 3 {
                ActModel::Reply(not_found_model())
            } else {
                ActModel::Reply(
                    RespModel {
                        status: 200,
                        content: segs[2],
                        content_type: None,
                        encoding: req.encoding,
                    },
                )
            }
        } else if segs[1] == user_agent_segment() {
            match req.user_agent {
                Some(ua) => ActModel::Reply(
                    RespModel { status: 200, content: ua, content_type: None, encoding: None },
                ),
                None => ActModel::Reply(not_found_model()),
            }
        } else if segs[1] == files_segment() {
            if !has_directory || segs.len() < 3 {
                ActModel::Reply(not_found_model())
            } else {
                match req.method {
                    HttpMethod::GET => ActModel::ReadFile(segs[2]),
                    HttpMethod::POST => match req.body {
                        Some(b) => ActModel::WriteFile(segs[2], b),
                        None => ActModel::Reply(not_found_model()),
                    },
                }
            }
        } else {
            ActModel::Reply(not_found_model())
        }
    }
}

/// Routes a parsed request, exactly as `spec_dispatch` describes.
pub fn dispatch(req: &Request, has_directory: bool) -> (a: Action)
    ensures
        a@ == spec_dispatch(req@, has_directory),
{
    let root = root_path_bytes();
    if bytes_eq(req.path.as_slice(), root.as_slice()) {
        return Action::RootOk;
    }
    let segs = split1(req.path.as_slice(), 47);
    if segs.len() < 2 {
        return Action::Reply(not_found());
    }
    proof {
        assert(segs.deep_view()[1] =~= segs@[1]@);
    }
    let echo = echo_segment_bytes();
    let ua_seg = user_agent_segment_bytes();
    let files = files_segment_bytes();
    if bytes_eq(segs[1].as_slice(), echo.as_slice()) {
        if segs.len() < 3 {
            return Action::Reply(not_found());
        }
        proof {
            assert(segs.deep_view()[2] =~= segs@[2]@);
        }
        let content = vstd::slice::slice_to_vec(segs[2].as_slice());
        return Action::Reply(
            Response { status_code: 200, content, content_type: None, encoding: req.encoding },
        );
    }
    if bytes_eq(segs[1].as_slice(), ua_seg.as_slice()) {
        return match &req.user_agent {
            Some(ua) => {
                let content = vstd::slice::slice_to_vec(ua.as_slice());
                Action::Reply(
                    Response { status_code: 200, content, content_type: None, encoding: None },
                )
            },
            None => Action::Reply(not_found()),
        };
    }
    if bytes_eq(segs[1].as_slice(), files.as_slice()) {
        if !has_directory || segs.len() < 3 {
            return Action::Reply(not_found());
        }
        proof {
            assert(segs.deep_view()[2] =~= segs@[2]@);
        }
        let name = vstd::slice::slice_to_vec(segs[2].as_slice());
        return match req.method {
            HttpMethod::GET => Action::ReadFile(name),
            HttpMethod::POST => match &req.body {
                Some(b) => {
                    let contents = vstd::slice::slice_to_vec(b.as_slice());
                    Action::WriteFile(name, contents)
                },
                None => Action::Reply(not_found()),
            },
        };
    }
    Action::Reply(not_found())
}

/// The `404 Not Found` response, as a structured value.
fn not_found() -> (r: Response)
    ensures
        r@ == not_found_model(),
{
    let r = Response { status_code: 404, content: Vec::new(), content_type: None, encoding: None };
    proof {
        assert(r@ =~= not_found_model());
    }
    r
}

/// The mathematical shape of one connection step.
#[verifier::ext_equal]
pub ghost enum StepModel {
    /// The response bytes are ready to write.
    Done(Seq<u8>),
    /// The named file must be read; its outcome goes to
    /// `file_read_response`.
    NeedFileRead(Seq<u8>),
    /// The given contents must be written to the named file; the outcome
    /// goes to `file_write_response`.
    NeedFileWrite(Seq<u8>, Seq<u8>),
}

/// What one request asks of the caller.
#[derive(Debug)]
pub enum Step {
    /// The response bytes are ready to write.
    Done(Vec<u8>),
    /// The named file must be read; its outcome goes to
    /// `file_read_response`.
    NeedFileRead(Vec<u8>),
    /// The given contents must be written to the named file; the outcome
    /// goes to `file_write_response`.
    NeedFileWrite(Vec<u8>, Vec<u8>),
}

impl View for Step {
    type V = StepModel;

    open spec fn view(&self) -> StepModel {
        match self {
            Step::Done(b) => StepModel::Done(b@),
            Step::NeedFileRead(n) => StepModel::NeedFileRead(n@),
            Step::NeedFileWrite(n, b) => StepModel::NeedFileWrite(n@, b@),
        }
    }
}

/// The step an action asks for: rendered bytes for a reply, or the file
/// operation still owed.
pub open spec fn spec_step_of_action(a: ActModel) -> StepModel {
    match a {
        ActModel::RootOk => StepModel::Done(bare_ok_200()),
        ActModel::Reply(m) => StepModel::Done(render_response(m)),
        ActModel::ReadFile(n) => StepModel::NeedFileRead(n),
        ActModel::WriteFile(n, b) => StepModel::NeedFileWrite(n, b),
    }
}

/// What one connection's raw bytes lead to, on every input: a parse
/// rejection, response bytes, or a file operation owed by the caller.
pub open spec fn spec_handle(raw: Seq<u8>, has_directory: bool) -> Result<StepModel, ParseError> {
    match spec_parse(raw) {
        Ok(m) => Ok(spec_step_of_action(spec_dispatch(m, has_directory))),
        Err(e) => Err(e),
    }
}

/// Performs one connection step on raw request bytes: parse, route, and
/// render what can be rendered, exactly as `spec_handle` describes.
pub fn handle_request(raw: &[u8], has_directory: bool) -> (r: Result<Step, ParseError>)
    ensures
        match r {
            Ok(s) => spec_handle(raw@, has_directory) == Ok::<StepModel, ParseError>(s@),
            Err(e) => spec_handle(raw@, has_directory) == Err::<StepModel, ParseError>(e),
        },
{
    let req = match parse_request(raw) {
        Ok(req) => req,
        Err(e) => {
            return Err(e);
        },
    };
    let step = match dispatch(&req, has_directory) {
        Action::RootOk => Step::Done(resp200_bare()),
        Action::Reply(resp) => {
            if resp.status_code == 200 {
                Step::Done(resp200(resp))
            } else if resp.status_code == 201 {
                Step::Done(resp201())
            } else {
                Step::Done(resp404())
            }
        },
        Action::ReadFile(n) => Step::NeedFileRead(n),
        Action::WriteFile(n, b) => Step::NeedFileWrite(n, b),
    };
    Ok(step)
}

/// The wire bytes owed for a file read outcome: the file's bytes as
/// `application/octet-stream` on success, `404 Not Found` on any failure.
pub open spec fn spec_file_read_response(content: Option<Seq<u8>>) -> Seq<u8> {
    match content {
        Some(b) => render_200(
            RespModel { status: 200, content: b, content_type: Some(octet_stream()), encoding: None },
        ),
        None => not_found_404(),
    }
}

/// Renders the response for a file read outcome, exactly as
/// `spec_file_read_response` describes.
pub fn file_read_response(content: Option<Vec<u8>>) -> (r: Vec<u8>)
    ensures
        r@ == spec_file_read_response(content.deep_view()),
{
    match content {
        Some(b) => {
            let ghost b_view = b@;
            let out = resp200(
                Response {
                    status_code: 200,
                    content: b,
                    content_type: Some(octet_stream_bytes()),
                    encoding: None,
                },
            );
            proof {
                assert(spec_file_read_response(Some(b_view)) =~= out@);
            }
            out
        },
        None => resp404(),
    }
}

/// The wire bytes owed for a file write outcome: `201 Created` on success,
/// `404 Not Found` on any failure.
pub open spec fn spec_file_write_response(ok: bool) -> Seq<u8> {
    if ok {
        created_201()
    } else {
        not_found_404()
    }
}

/// Renders the response for a file write outcome, exactly as
/// `spec_file_write_response` describes.
pub fn file_write_response(ok: bool) -> (r: Vec<u8>)
    ensures
        r@ == spec_file_write_response(ok),
{
    if ok {
        resp201()
    } else {
        resp404()
    }
}

} // verus!
