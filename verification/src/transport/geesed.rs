//! Geesed transport: the `connect_profile` handshake and the socket path.
//!
//! The handshake is one JSON-RPC line each way. After it the socket is a raw
//! byte relay to goose.

use crate::json::{
    compact, law_well_keyed_is_keyed, lemma_object_view, member_views, parsed, plain, reads_as,
    well_keyed, Json, JsonView,
};
use crate::path::{join, joined, path_bytes, path_from};
use crate::text::{concat, trim_end, trimmed_end};
use crate::tool_call::push_member;
use std::path::PathBuf;
use vstd::prelude::*;
use vstd::utf8::encode_utf8;

verus! {

/// Errors that can occur when connecting to geesed's ACP socket.
#[derive(Debug)]
pub enum GeesedError {
    ProfileNotFound,
    ProfileInUse,
    GooseBinaryUnavailable(String),
    SpawnFailed(String),
    /// The words of the I/O error.
    SocketConnect(String),
    Protocol(String),
}

/// The model of a [`GeesedError`].
pub ghost enum GeesedErrorView {
    ProfileNotFound,
    ProfileInUse,
    GooseBinaryUnavailable(Seq<char>),
    SpawnFailed(Seq<char>),
    SocketConnect(Seq<char>),
    Protocol(Seq<char>),
}

impl View for GeesedError {
    type V = GeesedErrorView;

    open spec fn view(&self) -> GeesedErrorView {
        match self {
            GeesedError::ProfileNotFound => GeesedErrorView::ProfileNotFound,
            GeesedError::ProfileInUse => GeesedErrorView::ProfileInUse,
            GeesedError::GooseBinaryUnavailable(m) => GeesedErrorView::GooseBinaryUnavailable(m@),
            GeesedError::SpawnFailed(m) => GeesedErrorView::SpawnFailed(m@),
            GeesedError::SocketConnect(m) => GeesedErrorView::SocketConnect(m@),
            GeesedError::Protocol(m) => GeesedErrorView::Protocol(m@),
        }
    }
}

impl GeesedErrorView {
    /// The words of the error.
    pub open spec fn words(self) -> Seq<char> {
        match self {
            GeesedErrorView::ProfileNotFound => "profile not found"@,
            GeesedErrorView::ProfileInUse => "profile already in use by another client"@,
            GeesedErrorView::GooseBinaryUnavailable(m) => "goose binary not available: "@ + m,
            GeesedErrorView::SpawnFailed(m) => "goose failed to spawn: "@ + m,
            GeesedErrorView::SocketConnect(m) => "could not connect to geesed acp socket: "@ + m,
            GeesedErrorView::Protocol(m) => "protocol error: "@ + m,
        }
    }
}

impl GeesedError {
    /// The words of the error.
    pub fn message(&self) -> (res: String)
        ensures
            res@ == self@.words(),
    {
        match self {
            GeesedError::ProfileNotFound => "profile not found".to_owned(),
            GeesedError::ProfileInUse => "profile already in use by another client".to_owned(),
            GeesedError::GooseBinaryUnavailable(m) => concat(
                "goose binary not available: ",
                m.as_str(),
            ),
            GeesedError::SpawnFailed(m) => concat("goose failed to spawn: ", m.as_str()),
            GeesedError::SocketConnect(m) => concat(
                "could not connect to geesed acp socket: ",
                m.as_str(),
            ),
            GeesedError::Protocol(m) => concat("protocol error: ", m.as_str()),
        }
    }
}

/// The request that asks geesed for a profile.
pub open spec fn connect_request(profile: Seq<char>) -> JsonView {
    JsonView::Object(
        seq![
            ("jsonrpc"@, JsonView::String("2.0"@)),
            ("id"@, JsonView::Int(1)),
            ("method"@, JsonView::String("connect_profile"@)),
            ("params"@, JsonView::Object(seq![("name"@, JsonView::String(profile))])),
        ],
    )
}

/// The error that geesed reports under a JSON-RPC error code.
pub open spec fn error_of_code(code: int, message: Seq<char>) -> GeesedErrorView {
    if code == -32001 {
        GeesedErrorView::ProfileNotFound
    } else if code == -32020 {
        GeesedErrorView::ProfileInUse
    } else if code == -32010 {
        GeesedErrorView::GooseBinaryUnavailable(message)
    } else if code == -32011 {
        GeesedErrorView::SpawnFailed(message)
    } else {
        GeesedErrorView::Protocol(message)
    }
}

/// The code of a JSON-RPC error object, 0 where it has none.
pub open spec fn error_code(error: JsonView) -> int {
    match error.get("code"@) {
        Some(JsonView::Int(code)) => code,
        _ => 0,
    }
}

/// The message of a JSON-RPC error object.
pub open spec fn error_message(error: JsonView) -> Seq<char> {
    match error.get_str("message"@) {
        Some(message) => message,
        None => "unknown error"@,
    }
}

/// What geesed's answer means: a refusal where it has an `error` member.
pub open spec fn refusal(response: JsonView) -> Option<GeesedErrorView> {
    match response.get("error"@) {
        Some(error) => Some(error_of_code(error_code(error), error_message(error))),
        None => None,
    }
}

/// What the line that was read in answer to the request means. An empty line
/// is the end of the stream.
pub open spec fn line_refusal(line: Seq<char>) -> Option<GeesedErrorView> {
    if line.len() == 0 {
        Some(GeesedErrorView::Protocol("connection closed before handshake response"@))
    } else {
        match parsed(trimmed_end(line)) {
            Ok(response) => refusal(response),
            Err(words) => Some(GeesedErrorView::Protocol(words)),
        }
    }
}

/// Geesed transport handle.
#[derive(Debug)]
pub struct GeesedTransport;

impl GeesedTransport {
    /// The line that asks geesed for a profile. It reads as the request.
    pub fn request_line(profile: &str) -> (res: String)
        ensures
            res@ == compact(connect_request(profile@)) + "\n"@,
            reads_as(res@.drop_last(), connect_request(profile@)),
    {
        let mut params: Vec<(String, Json)> = Vec::new();
        push_member(&mut params, "name", Json::String(profile.to_owned()));
        assert(member_views(params@) =~= seq![("name"@, JsonView::String(profile@))]);
        proof {
            lemma_object_view(params);
        }
        let mut request: Vec<(String, Json)> = Vec::new();
        push_member(&mut request, "jsonrpc", Json::String("2.0".to_owned()));
        push_member(&mut request, "id", Json::Int(1));
        push_member(&mut request, "method", Json::String("connect_profile".to_owned()));
        push_member(&mut request, "params", Json::Object(params));
        proof {
            lemma_object_view(request);
            assert(member_views(request@) =~= connect_request(profile@)->Object_0);
            lemma_request_keys(profile@);
            lemma_request_plain(profile@);
            law_well_keyed_is_keyed(connect_request(profile@));
        }
        let mut line: String = Json::Object(request).to_text();
        line.append("\n");
        proof {
            reveal_strlit("\n");
            assert(line@.drop_last() =~= compact(connect_request(profile@)));
        }
        line
    }

    /// Reads geesed's answer.
    pub fn accept(response: &Json) -> (res: Result<(), GeesedError>)
        ensures
            refusal(response@) == (match res {
                Ok(_) => None,
                Err(e) => Some(e@),
            }),
    {
        match response.get("error") {
            Some(error) => {
                let code: i64 = match error.get("code") {
                    Some(Json::Int(code)) => *code,
                    _ => 0,
                };
                let message: String = match error.get_str("message") {
                    Some(message) => message.to_owned(),
                    None => "unknown error".to_owned(),
                };
                if code == -32001 {
                    Err(GeesedError::ProfileNotFound)
                } else if code == -32020 {
                    Err(GeesedError::ProfileInUse)
                } else if code == -32010 {
                    Err(GeesedError::GooseBinaryUnavailable(message))
                } else if code == -32011 {
                    Err(GeesedError::SpawnFailed(message))
                } else {
                    Err(GeesedError::Protocol(message))
                }
            },
            None => Ok(()),
        }
    }

    /// Reads the line that came in answer to the request. An empty line is the
    /// end of the stream.
    pub fn accept_line(line: &str) -> (res: Result<(), GeesedError>)
        ensures
            line_refusal(line@) == (match res {
                Ok(_) => None,
                Err(e) => Some(e@),
            }),
    {
        if crate::text::str_eq(line, "") {
            proof {
                reveal_strlit("");
            }
            return Err(
                GeesedError::Protocol("connection closed before handshake response".to_owned()),
            );
        }
        proof {
            reveal_strlit("");
            assert(line@.len() == 0 ==> line@ =~= ""@);
        }
        match Json::parse(trim_end(line)) {
            Ok(response) => GeesedTransport::accept(&response),
            Err(words) => Err(GeesedError::Protocol(words)),
        }
    }
}

proof fn lemma_request_keys(profile: Seq<char>)
    ensures
        well_keyed(connect_request(profile)),
{
    reveal_strlit("jsonrpc");
    reveal_strlit("id");
    reveal_strlit("method");
    reveal_strlit("params");
    assert("jsonrpc"@.len() == 7 && "id"@.len() == 2);
    assert("method"@[0] != "params"@[0]);
    assert("method"@.len() == 6 && "params"@.len() == 6);
    reveal_with_fuel(well_keyed, 3);
}

/// No key of the request is one that `serde_json` keeps for itself.
proof fn lemma_request_plain(profile: Seq<char>)
    ensures
        plain(connect_request(profile), 127),
{
    reveal_strlit("$serde_json::private::");
    reveal_strlit("jsonrpc");
    reveal_strlit("id");
    reveal_strlit("method");
    reveal_strlit("params");
    reveal_strlit("name");
    assert("jsonrpc"@.len() == 7 && "id"@.len() == 2 && "method"@.len() == 6);
    assert("params"@.len() == 6 && "name"@.len() == 4);
    assert("$serde_json::private::"@.len() == 22);
    let members = connect_request(profile)->Object_0;
    reveal_with_fuel(plain, 3);
    assert forall|k: int| 0 <= k < members.len() implies plain(
        (#[trigger] members[k]).1,
        126,
    ) by {}
}

/// The directory of geesed's sockets: `geese` below `XDG_RUNTIME_DIR`, or
/// `.cache/geese` below `HOME`, or below `/tmp` where neither is set.
pub open spec fn runtime_dir_bytes(xdg: Option<Seq<u8>>, home: Option<Seq<u8>>) -> Seq<u8> {
    match xdg {
        Some(dir) => joined(dir, encode_utf8("geese"@)),
        None => {
            let home = match home {
                Some(home) => home,
                None => encode_utf8("/tmp"@),
            };
            joined(joined(home, encode_utf8(".cache"@)), encode_utf8("geese"@))
        },
    }
}

/// The bytes of an optional path.
pub open spec fn opt_path(path: Option<PathBuf>) -> Option<Seq<u8>> {
    match path {
        Some(path) => Some(path_bytes(path)),
        None => None,
    }
}

/// The directory of geesed's sockets, from the values of `XDG_RUNTIME_DIR` and
/// `HOME`.
pub fn runtime_dir(xdg: Option<PathBuf>, home: Option<PathBuf>) -> (res: PathBuf)
    ensures
        path_bytes(res) == runtime_dir_bytes(opt_path(xdg), opt_path(home)),
{
    proof {
        reveal_strlit("geese");
        reveal_strlit(".cache");
    }
    match xdg {
        Some(dir) => join(&dir, "geese"),
        None => {
            let home = match home {
                Some(home) => home,
                None => path_from("/tmp"),
            };
            join(&join(&home, ".cache"), "geese")
        },
    }
}

/// The path of geesed's ACP socket, from the values of `XDG_RUNTIME_DIR` and
/// `HOME`.
pub fn acp_socket_path(xdg: Option<PathBuf>, home: Option<PathBuf>) -> (res: PathBuf)
    ensures
        path_bytes(res) == joined(
            runtime_dir_bytes(opt_path(xdg), opt_path(home)),
            encode_utf8("acp.sock"@),
        ),
{
    proof {
        reveal_strlit("acp.sock");
    }
    join(&runtime_dir(xdg, home), "acp.sock")
}

/// The request asks for the profile by its name, under the method that geesed
/// knows.
pub proof fn law_request_names_the_profile(profile: Seq<char>)
    ensures
        connect_request(profile).get("jsonrpc"@) == Some(JsonView::String("2.0"@)),
        connect_request(profile).get("id"@) == Some(JsonView::Int(1)),
        connect_request(profile).get("method"@) == Some(JsonView::String("connect_profile"@)),
        connect_request(profile).get("params"@) is Some,
        connect_request(profile).get("params"@)->0.get("name"@) == Some(JsonView::String(profile)),
{
    reveal_strlit("jsonrpc");
    reveal_strlit("id");
    reveal_strlit("method");
    reveal_strlit("params");
    assert("jsonrpc"@.len() == 7 && "id"@.len() == 2);
    assert("method"@[0] != "params"@[0]);
    assert("method"@.len() == 6 && "params"@.len() == 6);
    reveal_with_fuel(crate::json::lookup, 5);
    let members = connect_request(profile)->Object_0;
    assert(members.drop_first()[0] == members[1]);
    assert(members.drop_first().drop_first()[0] == members[2]);
    assert(members.drop_first().drop_first().drop_first()[0] == members[3]);
}

/// An answer is a refusal exactly where it has an error. The code of the error
/// says which refusal it is, and an unknown code, or none, is a breach of the
/// protocol. The words are those of the error.
pub proof fn law_answers(response: JsonView, error: JsonView, code: int, message: Seq<char>)
    ensures
        response.get("error"@) is None ==> refusal(response) is None,
        response.get("error"@) == Some(error) && error.get("message"@) == Some(
            JsonView::String(message),
        ) ==> {
            &&& error.get("code"@) == Some(JsonView::Int(-32001)) ==> refusal(response) == Some(
                GeesedErrorView::ProfileNotFound,
            )
            &&& error.get("code"@) == Some(JsonView::Int(-32020)) ==> refusal(response) == Some(
                GeesedErrorView::ProfileInUse,
            )
            &&& error.get("code"@) == Some(JsonView::Int(-32010)) ==> refusal(response) == Some(
                GeesedErrorView::GooseBinaryUnavailable(message),
            )
            &&& error.get("code"@) == Some(JsonView::Int(-32011)) ==> refusal(response) == Some(
                GeesedErrorView::SpawnFailed(message),
            )
            &&& error.get("code"@) is None ==> refusal(response) == Some(
                GeesedErrorView::Protocol(message),
            )
            &&& code != -32001 && code != -32020 && code != -32010 && code != -32011 && error.get(
                "code"@,
            ) == Some(JsonView::Int(code)) ==> refusal(response) == Some(
                GeesedErrorView::Protocol(message),
            )
        },
        response.get("error"@) == Some(error) && error.get("message"@) is None && error.get(
            "code"@,
        ) is None ==> refusal(response) == Some(GeesedErrorView::Protocol("unknown error"@)),
{
}

/// The line that answers is read as JSON without the white space at its end. The
/// end of the stream, or a line that is no JSON, is a breach of the protocol.
pub proof fn law_answer_line(line: Seq<char>, response: JsonView, words: Seq<char>)
    ensures
        line.len() == 0 ==> line_refusal(line) == Some(
            GeesedErrorView::Protocol("connection closed before handshake response"@),
        ),
        line.len() > 0 && parsed(trimmed_end(line)) == Ok::<JsonView, Seq<char>>(response)
            ==> line_refusal(line) == refusal(response),
        line.len() > 0 && parsed(trimmed_end(line)) == Err::<JsonView, Seq<char>>(words)
            ==> line_refusal(line) == Some(GeesedErrorView::Protocol(words)),
{
}

/// The sockets lie below the runtime directory where there is one, else below
/// the cache of the home directory.
pub proof fn law_runtime_dir(xdg: Seq<u8>, home: Seq<u8>, other: Option<Seq<u8>>)
    ensures
        runtime_dir_bytes(Some(xdg), other) == joined(xdg, encode_utf8("geese"@)),
        runtime_dir_bytes(None, Some(home)) == joined(
            joined(home, encode_utf8(".cache"@)),
            encode_utf8("geese"@),
        ),
        runtime_dir_bytes(None, None) == joined(
            joined(encode_utf8("/tmp"@), encode_utf8(".cache"@)),
            encode_utf8("geese"@),
        ),
{
}

/// The words of an error say what went wrong, with the words that came with it.
pub proof fn law_error_words(m: Seq<char>)
    ensures
        GeesedErrorView::ProfileNotFound.words() == "profile not found"@,
        GeesedErrorView::ProfileInUse.words() == "profile already in use by another client"@,
        GeesedErrorView::GooseBinaryUnavailable(m).words() == "goose binary not available: "@ + m,
        GeesedErrorView::SpawnFailed(m).words() == "goose failed to spawn: "@ + m,
        GeesedErrorView::SocketConnect(m).words() == "could not connect to geesed acp socket: "@
            + m,
        GeesedErrorView::Protocol(m).words() == "protocol error: "@ + m,
{
}

} // verus!
