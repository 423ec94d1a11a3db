//! The JSON-RPC side of the MCP client: request bodies, request ids, the
//! authorization header, and the reading of responses and tool results.
use vstd::prelude::*;
use crate::json::{Json, JVal, jv, entry, entries_view, lemma_obj_view};
use crate::args::Args;
use crate::text::{chars_of, string_of, find_spec, find_seq, push_i64, push_u64, int_text, nat_text, join, views, join_strings};

verus! {

/// The MCP protocol version the client speaks.
pub const MCP_PROTOCOL_VERSION: &'static str = "2025-06-18";

/// The name and version of an MCP client or server.
#[derive(Debug, Clone)]
pub struct ClientInfo {
    pub name: String,
    pub version: String,
}

/// A content part of a tool result; only text parts carry text.
#[derive(Debug, Clone)]
pub struct ToolContent {
    pub text: Option<String>,
}

/// The server's answer to `initialize`.
#[derive(Debug, Clone)]
pub struct InitializeResult {
    pub protocol_version: String,
    pub server_info: ClientInfo,
}

/// The lines that report a successful connection: protocol version, and the
/// server's name and version.
pub open spec fn connected_text(r: InitializeResult) -> Seq<char> {
    "✅ 连接成功!\n   协议版本: "@ + r.protocol_version@ + "\n   服务端: "@ + r.server_info.name@ + " v"@
        + r.server_info.version@
}

/// The report of a successful connection (see [`connected_text`]).
pub fn connected_report(r: &InitializeResult) -> (t: String)
    ensures
        t@ == connected_text(*r),
{
    let mut t = "✅ 连接成功!\n   协议版本: ".to_owned();
    t.append(r.protocol_version.as_str());
    t.append("\n   服务端: ");
    t.append(r.server_info.name.as_str());
    t.append(" v");
    t.append(r.server_info.version.as_str());
    t
}

/// The ids of successive requests: 1, 2, 3, … (wrapping at `u64::MAX`).
#[derive(Debug, Clone)]
pub struct RequestIds {
    pub next: u64,
}

impl RequestIds {
    pub fn new() -> (r: RequestIds)
        ensures
            r.next == 1,
    {
        RequestIds { next: 1 }
    }

    /// The id for the next request.
    pub fn next_id(&mut self) -> (r: u64)
        ensures
            r == old(self).next,
            final(self).next == following_id(old(self).next),
    {
        let id = self.next;
        self.next = if id == u64::MAX { 0 } else { id + 1 };
        id
    }
}

/// The id handed out after `id`: one more, wrapping to 0 after `u64::MAX`.
pub open spec fn following_id(id: u64) -> u64 {
    if id == u64::MAX { 0 } else { (id + 1) as u64 }
}

/// The id of the call `k` calls after the one that hands out `id`.
pub open spec fn id_after(id: u64, k: nat) -> u64
    decreases k,
{
    if k == 0 { id } else { following_id(id_after(id, (k - 1) as nat)) }
}

proof fn lemma_id_after_value(id: u64, k: nat)
    ensures
        id_after(id, k) as int == (id + k) % 0x1_0000_0000_0000_0000,
    decreases k,
{
    if k > 0 {
        lemma_id_after_value(id, (k - 1) as nat);
        let p = (id + k - 1) % 0x1_0000_0000_0000_0000int;
        vstd::arithmetic::div_mod::lemma_add_mod_noop(id + k - 1, 1, 0x1_0000_0000_0000_0000int);
        assert(1int % 0x1_0000_0000_0000_0000int == 1);
        assert(p < 0x1_0000_0000_0000_0000int);
        if p + 1 == 0x1_0000_0000_0000_0000int {
            vstd::arithmetic::div_mod::lemma_mod_self_0(0x1_0000_0000_0000_0000int);
        } else {
            vstd::arithmetic::div_mod::lemma_small_mod((p + 1) as nat, 0x1_0000_0000_0000_0000nat);
        }
    }
}

/// Request ids never repeat within a session: of fewer than 2^64 successive
/// calls of `next_id` on one counter, no two hand out the same id.
pub proof fn lemma_request_ids_distinct(id: u64, j: nat, k: nat)
    requires
        j < k < 0x1_0000_0000_0000_0000,
    ensures
        id_after(id, j) != id_after(id, k),
{
    lemma_id_after_value(id, j);
    lemma_id_after_value(id, k);
    let m = 0x1_0000_0000_0000_0000int;
    if id_after(id, j) == id_after(id, k) {
        vstd::arithmetic::div_mod::lemma_fundamental_div_mod(id + j, m);
        vstd::arithmetic::div_mod::lemma_fundamental_div_mod(id + k, m);
        let qj = (id + j) / m;
        let qk = (id + k) / m;
        assert(0 <= id + j < 2 * m);
        assert(0 <= id + k < 2 * m);
        vstd::arithmetic::div_mod::lemma_div_pos_is_pos(id + j, m);
        assert(qj < 2) by {
            vstd::arithmetic::div_mod::lemma_div_is_ordered(id + j, 2 * m, m);
            vstd::arithmetic::div_mod::lemma_div_by_multiple(2, m);
        }
        assert(qk < 2) by {
            vstd::arithmetic::div_mod::lemma_div_is_ordered(id + k, 2 * m, m);
            vstd::arithmetic::div_mod::lemma_div_by_multiple(2, m);
        }
        vstd::arithmetic::div_mod::lemma_div_pos_is_pos(id + k, m);
        assert(m * qk - m * qj == k - j);
        assert(qk == qj + 1 || qk == qj);
        if qk == qj + 1 {
            assert(m * qk == m * qj + m) by (nonlinear_arith) requires qk == qj + 1;
        }
    }
}

/// A JSON-RPC 2.0 request: `{"jsonrpc": "2.0", "id": id, "method": method, "params": params}`.
pub fn jsonrpc_request(id: u64, method: &str, params: Json) -> (r: Json)
    ensures
        r@ == JVal::Obj(
            seq![
                ("jsonrpc"@, JVal::Str("2.0"@)),
                ("id"@, JVal::Int(id as int)),
                ("method"@, JVal::Str(method@)),
                ("params"@, params@),
            ],
        ),
{
    let ghost pv = params@;
    let mut a = Args::new();
    a.text("jsonrpc", "2.0");
    a.put("id", Json::UInt(id));
    a.text("method", method);
    a.put("params", params);
    assert(a.spec_entries() =~= seq![
        ("jsonrpc"@, JVal::Str("2.0"@)),
        ("id"@, JVal::Int(id as int)),
        ("method"@, JVal::Str(method@)),
        ("params"@, pv),
    ]);
    a.build()
}

/// The client's own name and version: `mcd-cli` and `version`.
pub fn client_info(version: &str) -> (r: ClientInfo)
    ensures
        r.name@ == "mcd-cli"@,
        r.version@ == version@,
{
    ClientInfo { name: "mcd-cli".to_owned(), version: version.to_owned() }
}

/// The `initialize` parameters: protocol version, no capabilities, and the
/// client's name and version.
pub fn initialize_params(client: &ClientInfo) -> (r: Json)
    ensures
        r@ == JVal::Obj(
            seq![
                ("protocolVersion"@, JVal::Str(MCP_PROTOCOL_VERSION@)),
                ("capabilities"@, JVal::Obj(Seq::empty())),
                ("clientInfo"@, JVal::Obj(seq![("name"@, JVal::Str(client.name@)), ("version"@, JVal::Str(client.version@))])),
            ],
        ),
{
    let mut info = Args::new();
    info.text("name", client.name.as_str());
    info.text("version", client.version.as_str());
    assert(info.spec_entries() =~= seq![("name"@, JVal::Str(client.name@)), ("version"@, JVal::Str(client.version@))]);
    let info = info.build();
    let ghost iv = info@;
    let caps = crate::args::no_args();
    let mut a = Args::new();
    a.text("protocolVersion", MCP_PROTOCOL_VERSION);
    a.put("capabilities", caps);
    a.put("clientInfo", info);
    assert(a.spec_entries() =~= seq![
        ("protocolVersion"@, JVal::Str(MCP_PROTOCOL_VERSION@)),
        ("capabilities"@, JVal::Obj(Seq::empty())),
        ("clientInfo"@, iv),
    ]);
    a.build()
}

/// The `tools/call` parameters: `{"name": name, "arguments": arguments}`.
pub fn call_tool_params(name: &str, arguments: Json) -> (r: Json)
    ensures
        r@ == JVal::Obj(seq![("name"@, JVal::Str(name@)), ("arguments"@, arguments@)]),
{
    let ghost av = arguments@;
    let mut a = Args::new();
    a.text("name", name);
    a.put("arguments", arguments);
    assert(a.spec_entries() =~= seq![("name"@, JVal::Str(name@)), ("arguments"@, av)]);
    a.build()
}

/// The `Authorization` header value for a token.
pub fn bearer(token: &str) -> (r: String)
    ensures
        r@ == "Bearer "@ + token@,
{
    let mut s = String::new();
    s.append("Bearer ");
    s.append(token);
    s
}

/// Why a request failed.
#[derive(Debug, Clone)]
pub enum RpcError {
    /// The server answered with a JSON-RPC error.
    Mcp { code: i64, message: String },
    /// The server answered with neither a result nor an error.
    Empty,
    /// The server answered with an HTTP status other than success: the
    /// status code, its reason phrase and the body of the answer.
    Http { status: u16, reason: String, body: String },
}

/// The text of a request failure.
pub open spec fn rpc_error_text(e: RpcError) -> Seq<char> {
    match e {
        RpcError::Mcp { code, message } => "MCP error "@ + int_text(code as int) + ": "@ + message@,
        RpcError::Empty => "Empty result from MCP server"@,
        RpcError::Http { status, reason, body } => "HTTP "@ + nat_text(status as nat) + " "@ + reason@ + ": "@
            + body@,
    }
}

impl RpcError {
    pub fn message(&self) -> (r: String)
        ensures
            r@ == rpc_error_text(*self),
    {
        let mut s = String::new();
        match self {
            RpcError::Mcp { code, message } => {
                s.append("MCP error ");
                push_i64(&mut s, *code);
                s.append(": ");
                s.append(message.as_str());
            },
            RpcError::Empty => {
                s.append("Empty result from MCP server");
            },
            RpcError::Http { status, reason, body } => {
                s.append("HTTP ");
                push_u64(&mut s, *status as u64);
                s.append(" ");
                s.append(reason.as_str());
                s.append(": ");
                s.append(body.as_str());
            },
        }
        proof {
            assert(s@ =~= rpc_error_text(*self));
        }
        s
    }
}

/// The outcome of a response: its error when it has one, else its result,
/// else `Empty`.
pub fn response_outcome<R>(result: Option<R>, error: Option<(i64, String)>) -> (r: Result<R, RpcError>)
    ensures
        match error {
            Some(e) => r matches Err(RpcError::Mcp { code, message }) && code == e.0 && message == e.1,
            None => match result {
                Some(v) => r == Ok::<R, RpcError>(v),
                None => r matches Err(RpcError::Empty),
            },
        },
{
    match error {
        Some((code, message)) => Err(RpcError::Mcp { code, message }),
        None => match result {
            Some(v) => Ok(v),
            None => Err(RpcError::Empty),
        },
    }
}

/// Whether an HTTP status is a success: `200..=299`.
pub fn http_ok(status: u16) -> (r: bool)
    ensures
        r == (200 <= status <= 299),
{
    200 <= status && status <= 299
}

/// The failure of a request answered with an HTTP status other than
/// success, with the status's reason phrase and the body of the answer.
pub fn http_error(status: u16, reason: &str, body: String) -> (r: RpcError)
    ensures
        r matches RpcError::Http { status: s, reason: p, body: b } && s == status && p@ == reason@ && b == body,
{
    RpcError::Http { status, reason: reason.to_owned(), body }
}

/// The text parts of a tool result, concatenated.
pub open spec fn tool_text_spec(parts: Seq<ToolContent>) -> Seq<char>
    decreases parts.len(),
{
    if parts.len() == 0 {
        Seq::empty()
    } else {
        tool_text_spec(parts.drop_last()) + match parts.last().text {
            Some(t) => t@,
            None => Seq::empty(),
        }
    }
}

/// Concatenates the text parts of a tool result.
pub fn tool_text(parts: &Vec<ToolContent>) -> (r: String)
    ensures
        r@ == tool_text_spec(parts@),
{
    let mut s = String::new();
    let mut i: usize = 0;
    while i < parts.len()
        invariant
            i <= parts@.len(),
            s@ == tool_text_spec(parts@.take(i as int)),
        decreases parts@.len() - i,
    {
        assert(parts@.take(i + 1).drop_last() =~= parts@.take(i as int));
        match &parts[i].text {
            Some(t) => s.append(t.as_str()),
            None => {},
        }
        proof {
            assert(s@ =~= tool_text_spec(parts@.take(i + 1)));
        }
        i += 1;
    }
    assert(parts@.take(parts@.len() as int) =~= parts@);
    s
}

/// The marker where the JSON part of a text result starts.
pub open spec fn success_marker() -> Seq<char> {
    seq!['{', '"', 's', 'u', 'c', 'c', 'e', 's', 's', '"', ':']
}

/// The JSON part of a text tool result: the text from the first `{"success":` on.
pub fn success_json_text(text: &str) -> (r: Option<String>)
    ensures
        match r {
            Some(t) => find_spec(text@, success_marker()) matches Some(i) && t@ == text@.skip(i),
            None => find_spec(text@, success_marker()) is None,
        },
{
    let cs = chars_of(text);
    let pat: Vec<char> = vec!['{', '"', 's', 'u', 'c', 'c', 'e', 's', 's', '"', ':'];
    assert(pat@ =~= success_marker());
    match find_seq(&cs, &pat) {
        Some(i) => {
            let r = string_of(&cs, i, cs.len());
            assert(cs@.subrange(i as int, cs@.len() as int) =~= text@.skip(i as int));
            Some(r)
        },
        None => None,
    }
}

/// The `data` member of a parsed response, `Null` when it has none.
pub fn data_of(parsed: &Json) -> (r: Json)
    ensures
        r@ == parsed@.field("data"@),
{
    match parsed.get("data") {
        Some(d) => d.deep_clone(),
        None => Json::Null,
    }
}

/// The payload of a structured tool result: its `data` member, or the whole
/// result when it has none.
pub fn structured_payload(structured: &Json) -> (r: Json)
    ensures
        r@ == match structured@.get("data"@) {
            Some(d) => d,
            None => structured@,
        },
{
    match structured.get("data") {
        Some(d) => d.deep_clone(),
        None => structured.deep_clone(),
    }
}

} // verus!
