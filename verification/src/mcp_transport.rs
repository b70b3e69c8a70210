//! JSON-RPC 2.0 envelopes of the remote MCP transports: request bodies,
//! response parsing, the `data:` payloads of SSE event streams, and request
//! headers.
use vstd::prelude::*;
use vstd::string::StringExecFns;
use crate::edit::{occurs, occurs_in};
use crate::file_ops::{is_error, ErrorKind, ToolError};
use crate::json::{json_get, json_parse, json_str, member_value, parse_json, JsonNumber, JsonValue};
use crate::str_map::{entries_map, sorted_keys, StrMap};
use crate::text::{chars_of, lines, lines_of, push_str, string_of, sub_chars, trim, trim_chars};

verus! {

/// The id of a JSON-RPC request or response.
#[derive(Debug, Clone, PartialEq, Eq)]
pub enum JsonRpcId {
    Number(u64),
    String(String),
    Null,
}

/// The `error` member of a JSON-RPC response.
#[derive(Debug, PartialEq)]
pub struct JsonRpcError {
    pub code: i64,
    pub message: String,
    pub data: Option<JsonValue>,
}

/// A JSON-RPC response envelope; `T` is what the result is held as.
#[derive(Debug, PartialEq)]
pub struct JsonRpcResponse<T> {
    pub jsonrpc: String,
    pub id: JsonRpcId,
    pub result: Option<T>,
    pub error: Option<JsonRpcError>,
}

// ---------------------------------------------------------------------------
// Requests
// ---------------------------------------------------------------------------

/// The JSON value of a request id.
pub open spec fn id_json(id: JsonRpcId) -> JsonValue {
    match id {
        JsonRpcId::Number(n) => JsonValue::Number(JsonNumber::PosInt(n)),
        JsonRpcId::String(s) => JsonValue::String(s),
        JsonRpcId::Null => JsonValue::Null,
    }
}

/// Whether `body` is the request object for `id`, `method` and `params`:
/// its members, in the sorted order `serde_json` keeps, are `id`,
/// `jsonrpc` (`"2.0"`), `method` and `params` (`null` when there are none).
pub open spec fn is_request(body: JsonValue, id: JsonRpcId, method: Seq<char>, params: Option<JsonValue>) -> bool {
    &&& body matches JsonValue::Object(ms)
    &&& ms.len() == 4
    &&& ms@[0].0@ == "id"@ && ms@[0].1 == id_json(id)
    &&& ms@[1].0@ == "jsonrpc"@ && (ms@[1].1 matches JsonValue::String(v) && v@ == "2.0"@)
    &&& ms@[2].0@ == "method"@ && (ms@[2].1 matches JsonValue::String(m) && m@ == method)
    &&& ms@[3].0@ == "params"@ && ms@[3].1 == match params {
        Some(p) => p,
        None => JsonValue::Null,
    }
}

/// Builds a JSON-RPC 2.0 request body.
pub fn build_jsonrpc_request(id: &JsonRpcId, method: &str, params: Option<JsonValue>) -> (body: JsonValue)
    ensures
        is_request(body, *id, method@, params),
{
    let id_value = match id {
        JsonRpcId::Number(n) => JsonValue::Number(JsonNumber::PosInt(*n)),
        JsonRpcId::String(s) => JsonValue::String(s.clone()),
        JsonRpcId::Null => JsonValue::Null,
    };
    let params_value = match params {
        Some(p) => p,
        None => JsonValue::Null,
    };
    let mut ms: Vec<(String, JsonValue)> = Vec::new();
    ms.push((String::from_str("id"), id_value));
    ms.push((String::from_str("jsonrpc"), JsonValue::String(String::from_str("2.0"))));
    ms.push((String::from_str("method"), JsonValue::String(String::from_str(method))));
    ms.push((String::from_str("params"), params_value));
    JsonValue::Object(ms)
}

// ---------------------------------------------------------------------------
// Responses
// ---------------------------------------------------------------------------

/// The `jsonrpc` member of a response when it is a string, else the empty
/// string.
pub open spec fn json_version(v: JsonValue) -> Seq<char> {
    match json_str(json_get(v, "jsonrpc"@)) {
        Some(s) => s,
        None => ""@,
    }
}

/// What `serde_json::Value::as_i64` makes of a value.
pub open spec fn json_i64(v: Option<JsonValue>) -> Option<i64> {
    match v {
        Some(JsonValue::Number(JsonNumber::PosInt(u))) => if u <= i64::MAX {
            Some(u as i64)
        } else {
            None
        },
        Some(JsonValue::Number(JsonNumber::NegInt(i))) => Some(i),
        _ => None,
    }
}

/// The id of a response: a number (0 when it is not a non-negative
/// integer), a string, or null for anything else.
pub open spec fn response_id(v: JsonValue) -> JsonRpcId {
    match json_get(v, "id"@) {
        Some(JsonValue::Number(n)) => JsonRpcId::Number(
            match n {
                JsonNumber::PosInt(u) => u,
                _ => 0,
            },
        ),
        Some(JsonValue::String(s)) => JsonRpcId::String(s),
        _ => JsonRpcId::Null,
    }
}

/// Whether `err` is what the `error` member `e` of a response becomes: its
/// `code` (-1 when it is not an `i64`), its `message` (`unknown error` when
/// it is not a string) and its `data`.
pub open spec fn error_matches(err: Option<JsonRpcError>, e: Option<JsonValue>) -> bool {
    match e {
        None => err is None,
        Some(ev) => {
            &&& err matches Some(x)
            &&& x.code == match json_i64(json_get(ev, "code"@)) {
                Some(c) => c,
                None => -1i64,
            }
            &&& x.message@ == match json_str(json_get(ev, "message"@)) {
                Some(m) => m,
                None => "unknown error"@,
            }
            &&& x.data == json_get(ev, "data"@)
        },
    }
}

/// Whether `r` is what parsing the response document `v` gives: an
/// `InvalidData` error naming the version unless it is `"2.0"`, else the
/// envelope with the id, the error and the raw result of `v`.
pub open spec fn rpc_outcome(r: Result<JsonRpcResponse<JsonValue>, ToolError>, v: JsonValue) -> bool {
    if json_version(v) != "2.0"@ {
        r is Err && is_error(
            r->Err_0,
            ErrorKind::InvalidData,
            "unsupported jsonrpc version: "@ + json_version(v),
        )
    } else {
        &&& r matches Ok(resp)
        &&& resp.jsonrpc@ == "2.0"@
        &&& resp.id == response_id(v)
        &&& error_matches(resp.error, json_get(v, "error"@))
        &&& resp.result == json_get(v, "result"@)
    }
}

/// Removing a member with another name keeps the first member named `k`.
proof fn lemma_member_value_remove(s: Seq<(String, JsonValue)>, i: int, k: Seq<char>)
    requires
        0 <= i < s.len(),
        s[i].0@ != k,
    ensures
        member_value(s.remove(i), k) == member_value(s, k),
    decreases i,
{
    if i == 0 {
        assert(s.remove(0) =~= s.drop_first());
    } else {
        let t = s.remove(i);
        assert(t[0] == s[0]);
        if s[0].0@ != k {
            assert(t.drop_first() =~= s.drop_first().remove(i - 1));
            lemma_member_value_remove(s.drop_first(), i - 1, k);
        }
    }
}

/// Takes the first member named `key` out of an object's members; the
/// members left keep their first member of every other name.
fn take_member(ms: Vec<(String, JsonValue)>, key: &str) -> (r: (
    Option<JsonValue>,
    Vec<(String, JsonValue)>,
))
    ensures
        r.0 == member_value(ms@, key@),
        forall|k: Seq<char>| k != key@ ==> member_value(r.1@, k) == member_value(ms@, k),
{
    let ghost orig = ms@;
    let mut members = ms;
    assert(members@ == orig);
    let mut i: usize = 0;
    assert(members@.skip(0) =~= members@);
    while i < members.len()
        invariant
            0 <= i <= members.len(),
            members@ == orig,
            orig == ms@,
            member_value(orig, key@) == member_value(orig.skip(i as int), key@),
        decreases members.len() - i,
    {
        assert(orig.skip(i as int).drop_first() =~= orig.skip(i + 1));
        assert(orig.skip(i as int)[0] == orig[i as int]);
        if crate::text::str_eq(members[i].0.as_str(), key) {
            let pair = members.remove(i);
            assert(pair == orig[i as int]);
            assert(member_value(orig, key@) == Some(pair.1));
            proof {
                assert forall|k: Seq<char>| k != key@ implies member_value(members@, k)
                    == member_value(orig, k) by {
                    lemma_member_value_remove(orig, i as int, k);
                }
            }
            return (Some(pair.1), members);
        }
        i = i + 1;
    }
    assert(orig.skip(i as int) =~= Seq::<(String, JsonValue)>::empty());
    (None, members)
}

/// The `error` member of a response as an error value.
fn error_from_json(e: JsonValue) -> (r: JsonRpcError)
    ensures
        error_matches(Some(r), Some(e)),
{
    let code: i64 = match e.get("code") {
        Some(JsonValue::Number(JsonNumber::PosInt(u))) => if *u <= 9223372036854775807u64 {
            *u as i64
        } else {
            -1
        },
        Some(JsonValue::Number(JsonNumber::NegInt(i))) => *i,
        _ => -1,
    };
    let message = match e.get("message") {
        Some(m) => match m.as_str() {
            Some(s) => String::from_str(s),
            None => String::from_str("unknown error"),
        },
        None => String::from_str("unknown error"),
    };
    let ghost ev = e;
    let data = match e {
        JsonValue::Object(ms) => take_member(ms, "data").0,
        _ => None,
    };
    JsonRpcError { code, message, data }
}

/// Parses a JSON-RPC 2.0 response document into the response envelope,
/// keeping the result as raw JSON.
pub fn parse_jsonrpc_response(json: JsonValue) -> (r: Result<JsonRpcResponse<JsonValue>, ToolError>)
    ensures
        rpc_outcome(r, json),
{
    let ghost v = json;
    let version = match json.get("jsonrpc") {
        Some(x) => match x.as_str() {
            Some(s) => String::from_str(s),
            None => String::new(),
        },
        None => String::new(),
    };
    proof {
        reveal_strlit("");
    }
    assert(version@ == json_version(v));
    assert(v == json);
    if !crate::text::str_eq(version.as_str(), "2.0") {
        assert(json_version(json) != "2.0"@);
        let mut m = String::new();
        push_str(&mut m, "unsupported jsonrpc version: ");
        push_str(&mut m, version.as_str());
        return Err(ToolError::new(ErrorKind::InvalidData, m));
    }
    let id = match json.get("id") {
        Some(JsonValue::Number(n)) => JsonRpcId::Number(
            match n {
                JsonNumber::PosInt(u) => *u,
                _ => 0,
            },
        ),
        Some(JsonValue::String(s)) => JsonRpcId::String(s.clone()),
        _ => JsonRpcId::Null,
    };
    match json {
        JsonValue::Object(members) => {
            let (err_v, rest) = take_member(members, "error");
            proof {
                reveal_strlit("error");
                reveal_strlit("result");
                assert("result"@ != "error"@) by {
                    assert("result"@[0] != "error"@[0]);
                }
            }
            let (res_v, _unused) = take_member(rest, "result");
            let error = match err_v {
                Some(e) => Some(error_from_json(e)),
                None => None,
            };
            Ok(JsonRpcResponse { jsonrpc: String::from_str("2.0"), id, result: res_v, error })
        },
        _ => {
            assert(json_version(v) == ""@);
            proof {
                reveal_strlit("2.0");
            }
            Err(ToolError::new(ErrorKind::InvalidData, String::new()))
        },
    }
}

// ---------------------------------------------------------------------------
// Server-sent events
// ---------------------------------------------------------------------------

/// The data of an SSE line: what follows `data: ` (or, failing that,
/// `data:`), trimmed; `None` for a line that carries no data.
pub open spec fn sse_data(line: Seq<char>) -> Option<Seq<char>> {
    if "data: "@.is_prefix_of(line) {
        Some(trim(line.skip(6)))
    } else if "data:"@.is_prefix_of(line) {
        Some(trim(line.skip(5)))
    } else {
        None
    }
}

/// The non-empty data of the lines, in order.
pub open spec fn data_payloads(ls: Seq<Seq<char>>) -> Seq<Seq<char>>
    decreases ls.len(),
{
    if ls.len() == 0 {
        Seq::empty()
    } else {
        let rest = data_payloads(ls.drop_last());
        match sse_data(ls.last()) {
            Some(p) => if p.len() > 0 {
                rest.push(p)
            } else {
                rest
            },
            None => rest,
        }
    }
}

/// The non-empty data payloads of an SSE event stream, line by line.
pub open spec fn sse_payloads(text: Seq<char>) -> Seq<Seq<char>> {
    data_payloads(lines(text))
}

/// The first payload that the response parser accepts: a JSON document
/// whose `jsonrpc` member is `"2.0"`.
pub open spec fn first_rpc_document(ps: Seq<Seq<char>>) -> Option<JsonValue>
    decreases ps.len(),
{
    if ps.len() == 0 {
        None
    } else {
        match json_parse(ps[0]) {
            Ok(v) => if json_version(v) == "2.0"@ {
                Some(v)
            } else {
                first_rpc_document(ps.drop_first())
            },
            Err(_) => first_rpc_document(ps.drop_first()),
        }
    }
}

/// The characters of each string.
pub open spec fn string_views(v: Seq<String>) -> Seq<Seq<char>> {
    v.map_values(|s: String| s@)
}

/// Whether `v` begins with the characters of `p`.
fn starts_with_chars(v: &[char], p: &str) -> (b: bool)
    ensures
        b == p@.is_prefix_of(v@),
{
    let q = chars_of(p);
    if q.len() > v.len() {
        return false;
    }
    let mut i: usize = 0;
    while i < q.len()
        invariant
            0 <= i <= q.len() <= v.len(),
            q@ == p@,
            forall|j: int| 0 <= j < i ==> v@[j] == q@[j],
        decreases q.len() - i,
    {
        if v[i] != q[i] {
            assert(v@.subrange(0, q.len() as int)[i as int] != q@[i as int]);
            return false;
        }
        i = i + 1;
    }
    assert(v@.subrange(0, q.len() as int) =~= q@);
    true
}

/// The data of one SSE line.
fn line_data(line: &[char]) -> (r: Option<Vec<char>>)
    ensures
        match r {
            Some(d) => sse_data(line@) == Some(d@),
            None => sse_data(line@) is None,
        },
{
    proof {
        reveal_strlit("data: ");
        reveal_strlit("data:");
    }
    if starts_with_chars(line, "data: ") {
        let rest = sub_chars(line, 6, line.len());
        assert(rest@ =~= line@.skip(6));
        Some(trim_chars(rest.as_slice()))
    } else if starts_with_chars(line, "data:") {
        let rest = sub_chars(line, 5, line.len());
        assert(rest@ =~= line@.skip(5));
        Some(trim_chars(rest.as_slice()))
    } else {
        None
    }
}

/// The non-empty `data:` payloads of an SSE event stream, in order.
pub fn sse_data_payloads(text: &str) -> (r: Vec<String>)
    ensures
        string_views(r@) == sse_payloads(text@),
{
    let v = chars_of(text);
    let ls = lines_of(v.as_slice());
    let ghost lv = crate::text::views(ls@);
    let mut out: Vec<String> = Vec::new();
    let mut i: usize = 0;
    assert(lv.take(0) =~= Seq::<Seq<char>>::empty());
    assert(string_views(out@) =~= Seq::<Seq<char>>::empty());
    while i < ls.len()
        invariant
            0 <= i <= ls.len(),
            lv == crate::text::views(ls@),
            lv == lines(text@),
            string_views(out@) == data_payloads(lv.take(i as int)),
        decreases ls.len() - i,
    {
        assert(lv.take(i + 1).drop_last() =~= lv.take(i as int));
        assert(lv.take(i + 1).last() == ls@[i as int]@);
        match line_data(ls[i].as_slice()) {
            Some(d) => {
                if d.len() > 0 {
                    let s = string_of(d.as_slice());
                    proof {
                        assert(string_views(out@.push(s)) =~= string_views(out@).push(s@));
                    }
                    out.push(s);
                }
            },
            None => {},
        }
        i = i + 1;
    }
    assert(lv.take(ls.len() as int) =~= lv);
    out
}

/// The message of a stream that holds no JSON-RPC response.
pub open spec fn msg_no_sse_response() -> Seq<char> {
    "no JSON-RPC response found in SSE event stream"@
}

/// Parses an SSE event stream body: the response is the first data payload
/// that parses successfully as a JSON-RPC 2.0 response; payloads that do not
/// are skipped.
pub fn parse_sse_response(text: &str) -> (r: Result<JsonRpcResponse<JsonValue>, ToolError>)
    ensures
        match first_rpc_document(sse_payloads(text@)) {
            Some(v) => rpc_outcome(r, v),
            None => r is Err && is_error(r->Err_0, ErrorKind::InvalidData, msg_no_sse_response()),
        },
{
    let ps = sse_data_payloads(text);
    let ghost pv = string_views(ps@);
    let mut i: usize = 0;
    assert(pv.skip(0) =~= pv);
    while i < ps.len()
        invariant
            0 <= i <= ps.len(),
            pv == string_views(ps@),
            pv == sse_payloads(text@),
            first_rpc_document(pv) == first_rpc_document(pv.skip(i as int)),
        decreases ps.len() - i,
    {
        assert(pv.skip(i as int).drop_first() =~= pv.skip(i + 1));
        assert(pv.skip(i as int)[0] == ps@[i as int]@);
        match parse_json(ps[i].as_str()) {
            Ok(json) => {
                let ghost v = json;
                let r = parse_jsonrpc_response(json);
                if r.is_ok() {
                    return r;
                }
                proof {
                    reveal_strlit("2.0");
                }
                assert(json_version(v) != "2.0"@);
            },
            Err(_) => {},
        }
        i = i + 1;
    }
    assert(pv.skip(i as int) =~= Seq::<Seq<char>>::empty());
    Err(ToolError::new(ErrorKind::InvalidData, String::from_str("no JSON-RPC response found in SSE event stream")))
}

/// What the body of an HTTP reply to a JSON-RPC request gives: an event
/// stream is searched for its response; any other body is a JSON document,
/// an `InvalidData` error carrying the parser's message when it is not.
pub open spec fn http_outcome(
    r: Result<JsonRpcResponse<JsonValue>, ToolError>,
    content_type: Seq<char>,
    body: Seq<char>,
) -> bool {
    if occurs(content_type, "text/event-stream"@) {
        match first_rpc_document(sse_payloads(body)) {
            Some(v) => rpc_outcome(r, v),
            None => r is Err && is_error(r->Err_0, ErrorKind::InvalidData, msg_no_sse_response()),
        }
    } else {
        match json_parse(body) {
            Ok(v) => rpc_outcome(r, v),
            Err(m) => r is Err && is_error(r->Err_0, ErrorKind::InvalidData, m),
        }
    }
}

/// Parses the body of an HTTP reply by its content type.
pub fn parse_http_response(content_type: &str, body: &str) -> (r: Result<JsonRpcResponse<JsonValue>, ToolError>)
    ensures
        http_outcome(r, content_type@, body@),
{
    let ct = chars_of(content_type);
    let marker = chars_of("text/event-stream");
    if occurs_in(ct.as_slice(), marker.as_slice()) {
        parse_sse_response(body)
    } else {
        match parse_json(body) {
            Ok(json) => parse_jsonrpc_response(json),
            Err(m) => Err(ToolError::new(ErrorKind::InvalidData, m)),
        }
    }
}

// ---------------------------------------------------------------------------
// Headers
// ---------------------------------------------------------------------------

/// The headers of a map as name-value pairs, in name order.
pub fn headers_from_map(map: &StrMap<String>) -> (r: Vec<(String, String)>)
    ensures
        sorted_keys(r@),
        entries_map(r@) == map@,
{
    let e = map.entries();
    let mut out: Vec<(String, String)> = Vec::new();
    let mut i: usize = 0;
    while i < e.len()
        invariant
            0 <= i <= e.len(),
            out@.len() == i,
            forall|j: int| 0 <= j < i ==> #[trigger] out@[j] == e@[j],
        decreases e.len() - i,
    {
        out.push((e[i].0.clone(), e[i].1.clone()));
        i = i + 1;
    }
    assert(out@ =~= e@);
    out
}

/// A request built for an id reads back, as a response document, that id
/// and the protocol version `2.0`.
pub proof fn law_request_id_reads_back(body: JsonValue, id: JsonRpcId, method: Seq<char>, params: Option<JsonValue>)
    requires
        is_request(body, id, method, params),
    ensures
        response_id(body) == id,
        json_version(body) == "2.0"@,
{
    reveal_strlit("id");
    reveal_strlit("jsonrpc");
    reveal_strlit("method");
    reveal_strlit("params");
    if let JsonValue::Object(ms) = body {
        let s = ms@;
        assert(s[0].0@ == "id"@);
        assert(member_value(s, "id"@) == Some(s[0].1));
        assert(s.drop_first()[0] == s[1]);
        assert(s[1].0@ != "id"@ ==> true);
        assert("id"@ != "jsonrpc"@);
        assert(member_value(s, "jsonrpc"@) == member_value(s.drop_first(), "jsonrpc"@));
        assert(member_value(s.drop_first(), "jsonrpc"@) == Some(s[1].1));
    }
}

/// Every payload taken from an event stream is non-empty.
pub proof fn law_payloads_are_not_empty(ls: Seq<Seq<char>>)
    ensures
        forall|i: int| 0 <= i < data_payloads(ls).len() ==> (#[trigger] data_payloads(ls)[i]).len() > 0,
    decreases ls.len(),
{
    if ls.len() > 0 {
        let rest = data_payloads(ls.drop_last());
        law_payloads_are_not_empty(ls.drop_last());
        assert forall|i: int| 0 <= i < data_payloads(ls).len() implies (#[trigger] data_payloads(
            ls,
        )[i]).len() > 0 by {
            if i < rest.len() {
                assert(data_payloads(ls)[i] == rest[i]);
            }
        }
    }
}

} // verus!
