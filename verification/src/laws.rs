//! The laws the protocol core obeys, each proved over the same spec
//! functions that the executable functions' contracts use.

use vstd::prelude::*;
use crate::dispatch::ActModel;
use crate::dispatch::StepModel;
use crate::dispatch::echo_segment;
use crate::dispatch::files_segment;
use crate::dispatch::not_found_model;
use crate::dispatch::root_path;
use crate::dispatch::spec_dispatch;
use crate::dispatch::spec_file_read_response;
use crate::dispatch::spec_file_write_response;
use crate::dispatch::spec_step_of_action;
use crate::dispatch::user_agent_segment;
use crate::request::Encoding;
use crate::request::ReqModel;
use crate::response::RespModel;
use crate::response::bare_ok_200;
use crate::response::content_encoding_gzip_line;
use crate::response::content_length_prefix;
use crate::response::content_type_prefix;
use crate::response::content_type_value;
use crate::response::created_201;
use crate::response::crlf;
use crate::response::dec_digits;
use crate::response::encoding_lines;
use crate::response::not_found_404;
use crate::response::octet_stream;
use crate::response::render_200;
use crate::response::status_line_200;
use crate::response::text_plain;
use crate::scan::find1_from;
use crate::scan::lemma_find1_absent;
use crate::scan::lemma_find1_exact;
use crate::scan::split1_from;

verus! {

/// A path of the form `/<seg>` with no further slash splits into the empty
/// segment and `seg`.
proof fn lemma_split_two_segments(p: Seq<u8>, seg: Seq<u8>)
    requires
        p == seq![47u8] + seg,
        forall|i: int| 0 <= i < seg.len() ==> seg[i] != 47,
    ensures
        split1_from(p, 47, 0) == seq![Seq::<u8>::empty(), seg],
{
    assert(p.len() == 1 + seg.len());
    assert(p[0] == 47);
    assert(forall|j: int| 1 <= j < p.len() ==> p[j] == seg[j - 1] && #[trigger] p[j] != 47);
    lemma_find1_absent(p, 47, 1);
    assert(split1_from(p, 47, 1) == seq![p.subrange(1, p.len() as int)]);
    assert(find1_from(p, 47, 0) == Some(0int));
    assert(split1_from(p, 47, 0) == seq![p.subrange(0, 0)] + seq![
        p.subrange(1, p.len() as int),
    ]);
    assert(p.subrange(0, 0) =~= Seq::<u8>::empty());
    assert(p.subrange(1, p.len() as int) =~= seg);
    assert(seq![p.subrange(0, 0)] + seq![p.subrange(1, p.len() as int)] =~~= seq![
        Seq::<u8>::empty(),
        seg,
    ]);
}

/// A path of the form `/<seg>/<rest>` with no further slash splits into
/// the empty segment, `seg` and `rest`.
proof fn lemma_split_three_segments(p: Seq<u8>, seg: Seq<u8>, rest: Seq<u8>)
    requires
        p == seq![47u8] + seg + seq![47u8] + rest,
        forall|i: int| 0 <= i < seg.len() ==> seg[i] != 47,
        forall|i: int| 0 <= i < rest.len() ==> rest[i] != 47,
    ensures
        split1_from(p, 47, 0) == seq![Seq::<u8>::empty(), seg, rest],
{
    let k = 1 + seg.len() as int;
    assert(p.len() == 2 + seg.len() + rest.len());
    assert(p[0] == 47);
    assert(forall|j: int| 1 <= j < k ==> p[j] == seg[j - 1] && #[trigger] p[j] != 47);
    assert(p[k] == 47);
    assert(forall|j: int| k + 1 <= j < p.len() ==> p[j] == rest[j - k - 1] && #[trigger] p[j]
        != 47);
    lemma_find1_exact(p, 47, 1, k);
    lemma_find1_absent(p, 47, k + 1);
    assert(split1_from(p, 47, k + 1) == seq![p.subrange(k + 1, p.len() as int)]);
    assert(split1_from(p, 47, 1) == seq![p.subrange(1, k)] + split1_from(p, 47, k + 1));
    assert(find1_from(p, 47, 0) == Some(0int));
    assert(split1_from(p, 47, 0) == seq![p.subrange(0, 0)] + (seq![p.subrange(1, k)] + seq![
        p.subrange(k + 1, p.len() as int),
    ]));
    assert(p.subrange(0, 0) =~= Seq::<u8>::empty());
    assert(p.subrange(1, k) =~= seg);
    assert(p.subrange(k + 1, p.len() as int) =~= rest);
    assert(seq![p.subrange(0, 0)] + (seq![p.subrange(1, k)] + seq![
        p.subrange(k + 1, p.len() as int),
    ]) =~~= seq![Seq::<u8>::empty(), seg, rest]);
}

/// Law: an echo request answers status 200 with the echoed value itself as
/// the body, a `Content-Length` of exactly the value's byte length, and
/// the request's own negotiated encoding.
pub proof fn lemma_echo_response(req: ReqModel, has_directory: bool, value: Seq<u8>)
    requires
        req.path == seq![47u8] + echo_segment() + seq![47u8] + value,
        forall|i: int| 0 <= i < value.len() ==> value[i] != 47,
    ensures
        spec_dispatch(req, has_directory) == ActModel::Reply(
            RespModel { status: 200, content: value, content_type: None, encoding: req.encoding },
        ),
        spec_step_of_action(spec_dispatch(req, has_directory)) == StepModel::Done(
            status_line_200() + encoding_lines(req.encoding) + content_type_prefix() + text_plain()
                + crlf() + content_length_prefix() + dec_digits(value.len()) + crlf() + crlf()
                + value,
        ),
{
    assert(forall|i: int| 0 <= i < echo_segment().len() ==> echo_segment()[i] != 47);
    lemma_split_three_segments(req.path, echo_segment(), value);
    assert(req.path.len() >= 6);
    assert(req.path != root_path());
}

/// Law: a 200 response carries a `Content-Encoding: gzip` header line
/// exactly when gzip was negotiated; without it, the status line is
/// followed directly by the remaining headers.
pub proof fn lemma_content_encoding_header(m: RespModel)
    requires
        m.status == 200,
    ensures
        ({
            let tail = content_type_prefix() + content_type_value(m.content_type) + crlf()
                + content_length_prefix() + dec_digits(m.content.len()) + crlf() + crlf()
                + m.content;
            &&& m.encoding == Some(Encoding::Gzip) ==> render_200(m) == status_line_200()
                + content_encoding_gzip_line() + tail
            &&& m.encoding is None ==> render_200(m) == status_line_200() + tail
        }),
{
    let tail = content_type_prefix() + content_type_value(m.content_type) + crlf()
        + content_length_prefix() + dec_digits(m.content.len()) + crlf() + crlf() + m.content;
    if m.encoding == Some(Encoding::Gzip) {
        assert(render_200(m) =~= status_line_200() + content_encoding_gzip_line() + tail);
    }
    if m.encoding is None {
        assert(encoding_lines(m.encoding) =~= Seq::<u8>::empty());
        assert(render_200(m) =~= status_line_200() + tail);
    }
}

/// Law: an echo response carries the `Content-Encoding: gzip` header line
/// exactly when the request negotiated gzip — which parsing grants iff the
/// request's `Accept-Encoding` header value is exactly `gzip` — and goes
/// straight from the status line to the remaining headers otherwise.
pub proof fn lemma_echo_content_encoding(req: ReqModel, has_directory: bool, value: Seq<u8>)
    requires
        req.path == seq![47u8] + echo_segment() + seq![47u8] + value,
        forall|i: int| 0 <= i < value.len() ==> value[i] != 47,
    ensures
        ({
            let tail = content_type_prefix() + text_plain() + crlf() + content_length_prefix()
                + dec_digits(value.len()) + crlf() + crlf() + value;
            &&& req.encoding == Some(Encoding::Gzip) ==> spec_step_of_action(
                spec_dispatch(req, has_directory),
            ) == StepModel::Done(status_line_200() + content_encoding_gzip_line() + tail)
            &&& req.encoding is None ==> spec_step_of_action(spec_dispatch(req, has_directory))
                == StepModel::Done(status_line_200() + tail)
        }),
{
    lemma_echo_response(req, has_directory, value);
    let m = RespModel { status: 200, content: value, content_type: None, encoding: req.encoding };
    lemma_content_encoding_header(m);
}

/// Law: the root path answers the bare `200 OK`, whose bytes hold no
/// header at all — in particular no `Content-Length` — and no body.
pub proof fn lemma_root_response(req: ReqModel, has_directory: bool)
    requires
        req.path == root_path(),
    ensures
        spec_dispatch(req, has_directory) == ActModel::RootOk,
        spec_step_of_action(spec_dispatch(req, has_directory)) == StepModel::Done(
            status_line_200() + crlf(),
        ),
{
    assert(bare_ok_200() =~= status_line_200() + crlf());
}

/// Law: a `/user-agent` request with a `User-Agent` header answers status
/// 200 with the header's value as the body; without one it answers 404.
pub proof fn lemma_user_agent_response(req: ReqModel, has_directory: bool)
    requires
        req.path == seq![47u8] + user_agent_segment(),
    ensures
        req.user_agent is Some ==> spec_dispatch(req, has_directory) == ActModel::Reply(
            RespModel {
                status: 200,
                content: req.user_agent.unwrap(),
                content_type: None,
                encoding: None,
            },
        ),
        req.user_agent is None ==> spec_dispatch(req, has_directory) == ActModel::Reply(
            not_found_model(),
        ),
        req.user_agent is None ==> spec_step_of_action(spec_dispatch(req, has_directory))
            == StepModel::Done(not_found_404()),
{
    assert(forall|i: int|
        0 <= i < user_agent_segment().len() ==> user_agent_segment()[i] != 47);
    lemma_split_two_segments(req.path, user_agent_segment());
    assert(req.path.len() == 11);
    assert(req.path != root_path());
    assert(user_agent_segment() != echo_segment()) by {
        assert(user_agent_segment().len() != echo_segment().len());
    }
}

/// Law: writing a file and reading it back round-trips. A POST to
/// `/files/<name>` carrying a body asks for exactly that body to be
/// written under `name` and a successful write answers `201 Created`;
/// a GET of the same path asks for a read of the same `name`, and when the
/// read hands back the bytes that were written, the answer is status 200
/// with exactly those bytes as the body. What the filesystem itself does
/// between the two requests is the caller's, not the library's.
pub proof fn lemma_files_round_trip(
    post_req: ReqModel,
    get_req: ReqModel,
    name: Seq<u8>,
    contents: Seq<u8>,
)
    requires
        post_req.method is POST,
        post_req.body == Some(contents),
        post_req.path == seq![47u8] + files_segment() + seq![47u8] + name,
        get_req.method is GET,
        get_req.path == post_req.path,
        forall|i: int| 0 <= i < name.len() ==> name[i] != 47,
    ensures
        spec_dispatch(post_req, true) == ActModel::WriteFile(name, contents),
        spec_file_write_response(true) == created_201(),
        spec_dispatch(get_req, true) == ActModel::ReadFile(name),
        spec_file_read_response(Some(contents)) == render_200(
            RespModel {
                status: 200,
                content: contents,
                content_type: Some(octet_stream()),
                encoding: None,
            },
        ),
{
    assert(forall|i: int| 0 <= i < files_segment().len() ==> files_segment()[i] != 47);
    lemma_split_three_segments(post_req.path, files_segment(), name);
    assert(post_req.path.len() >= 7);
    assert(post_req.path != root_path());
    assert(files_segment() != echo_segment()) by {
        assert(files_segment().len() != echo_segment().len());
    }
    assert(files_segment() != user_agent_segment()) by {
        assert(files_segment().len() != user_agent_segment().len());
    }
}

/// Law: a GET of `/files/<name>` asks for a read of `name`, and a read
/// that fails — a missing file among else — answers `404 Not Found`.
pub proof fn lemma_files_missing(req: ReqModel, name: Seq<u8>)
    requires
        req.method is GET,
        req.path == seq![47u8] + files_segment() + seq![47u8] + name,
        forall|i: int| 0 <= i < name.len() ==> name[i] != 47,
    ensures
        spec_dispatch(req, true) == ActModel::ReadFile(name),
        spec_file_read_response(None) == not_found_404(),
{
    assert(forall|i: int| 0 <= i < files_segment().len() ==> files_segment()[i] != 47);
    lemma_split_three_segments(req.path, files_segment(), name);
    assert(req.path.len() >= 7);
    assert(req.path != root_path());
    assert(files_segment() != echo_segment()) by {
        assert(files_segment().len() != echo_segment().len());
    }
    assert(files_segment() != user_agent_segment()) by {
        assert(files_segment().len() != user_agent_segment().len());
    }
}

/// Law: a request whose path is not the root and whose first segment names
/// none of the known routes answers `404 Not Found`, whatever the method.
pub proof fn lemma_unknown_route(req: ReqModel, has_directory: bool)
    requires
        req.path != root_path(),
        ({
            let segs = split1_from(req.path, 47, 0);
            segs.len() < 2 || (segs[1] != echo_segment() && segs[1] != user_agent_segment()
                && segs[1] != files_segment())
        }),
    ensures
        spec_dispatch(req, has_directory) == ActModel::Reply(not_found_model()),
        spec_step_of_action(spec_dispatch(req, has_directory)) == StepModel::Done(
            not_found_404(),
        ),
{
}

} // verus!

