//! The Bevy Remote Protocol client core: configuration, request ids, the
//! JSON-RPC 2.0 request and response rules, and the typed operations'
//! parameters and result handling.

use std::time::Duration;
use vstd::prelude::*;
use crate::dap::{get_string, str_member, u64_member};
use crate::encoding::{base64_of, encode_base64};
use crate::json::{member, JsonValue};
use crate::text::{append_chars, append_str, chars_of, dec, decimal_chars, string_of};

verus! {

pub assume_specification[ Duration::from_secs ](secs: u64) -> Duration;

/// The endpoint a client talks to when none is configured.
pub open spec fn default_endpoint() -> Seq<char> {
    "http://127.0.0.1:15721"@
}

/// Where and how long to wait for the game runtime.
pub struct BrpConfig {
    pub endpoint: String,
    pub timeout: Duration,
}

impl BrpConfig {
    /// A configuration with the given endpoint and timeout.
    pub fn new(endpoint: &str, timeout: Duration) -> (r: Self)
        ensures
            r.endpoint@ == endpoint@,
            r.timeout == timeout,
    {
        BrpConfig { endpoint: String::from_str(endpoint), timeout }
    }

    /// The endpoint from an override (the `BRP_ENDPOINT` environment
    /// variable) or the default, and the timeout from an override (given in
    /// milliseconds by `BRP_TIMEOUT_MS`) or 30 seconds.
    pub fn from_overrides(endpoint: Option<String>, timeout: Option<Duration>) -> (r: Self)
        ensures
            match endpoint {
                Some(e) => r.endpoint@ == e@,
                None => r.endpoint@ == default_endpoint(),
            },
            timeout matches Some(t) ==> r.timeout == t,
    {
        let endpoint = match endpoint {
            Some(e) => e,
            None => String::from_str("http://127.0.0.1:15721"),
        };
        let timeout = match timeout {
            Some(t) => t,
            None => Duration::from_secs(30),
        };
        BrpConfig { endpoint, timeout }
    }
}

impl Default for BrpConfig {
    fn default() -> (r: Self)
        ensures
            r.endpoint@ == default_endpoint(),
    {
        BrpConfig { endpoint: String::from_str("http://127.0.0.1:15721"), timeout: Duration::from_secs(30) }
    }
}

/// An error of a BRP call.
pub enum BrpError {
    /// The HTTP exchange failed.
    Connection(String),
    /// No answer within this many seconds.
    Timeout(u64),
    /// The runtime answered with a JSON-RPC error.
    JsonRpc { code: i32, message: String, data: Option<JsonValue> },
    /// A body could not be decoded.
    Deserialize(String),
    Io(String),
    /// The answer broke the protocol.
    InvalidResponse(String),
}

impl BrpError {
    /// A JSON-RPC error without data.
    pub fn json_rpc(code: i32, message: &str) -> (r: Self)
        ensures
            r matches BrpError::JsonRpc { code: c, message: m, data } && c == code && m@
                == message@ && data is None,
    {
        BrpError::JsonRpc { code, message: String::from_str(message), data: None }
    }

    /// A JSON-RPC error with data.
    pub fn json_rpc_with_data(code: i32, message: &str, data: JsonValue) -> (r: Self)
        ensures
            r matches BrpError::JsonRpc { code: c, message: m, data: d } && c == code && m@
                == message@ && d == Some(data),
    {
        BrpError::JsonRpc { code, message: String::from_str(message), data: Some(data) }
    }

    /// The human-readable text of the error.
    pub fn message(&self) -> (r: String)
        ensures
            self matches BrpError::InvalidResponse(m) ==> r@ == "Invalid response: "@ + m@,
            self matches BrpError::Timeout(n) ==> r@ == "Request timeout after "@ + dec(n as nat)
                + "s"@,
            self matches BrpError::JsonRpc { code, message, .. } ==> r@ == "JSON-RPC error: "@
                + signed_dec(code as int) + " - "@ + message@,
    {
        match self {
            BrpError::Connection(m) => crate::text::concat2("Connection error: ", m.as_str()),
            BrpError::Timeout(n) => {
                let mut out = chars_of("Request timeout after ");
                let d = decimal_chars(*n);
                append_chars(&mut out, &d);
                append_str(&mut out, "s");
                string_of(&out)
            },
            BrpError::JsonRpc { code, message, .. } => {
                let mut out = chars_of("JSON-RPC error: ");
                let d = signed_decimal(*code);
                append_chars(&mut out, &d);
                append_str(&mut out, " - ");
                append_str(&mut out, message.as_str());
                string_of(&out)
            },
            BrpError::Deserialize(m) => crate::text::concat2("Deserialization error: ", m.as_str()),
            BrpError::Io(m) => crate::text::concat2("IO error: ", m.as_str()),
            BrpError::InvalidResponse(m) => crate::text::concat2("Invalid response: ", m.as_str()),
        }
    }
}

/// The decimal text of a signed integer.
pub open spec fn signed_dec(n: int) -> Seq<char> {
    if n < 0 {
        "-"@ + dec((-n) as nat)
    } else {
        dec(n as nat)
    }
}

fn signed_decimal(n: i32) -> (r: Vec<char>)
    ensures
        r@ == signed_dec(n as int),
{
    if n < 0 {
        let mut out = chars_of("-");
        let m: u64 = (-(n as i64)) as u64;
        let d = decimal_chars(m);
        append_chars(&mut out, &d);
        proof {
            reveal_strlit("-");
        }
        out
    } else {
        decimal_chars(n as u64)
    }
}

/// The id counter of a client: ids start at 1 and every request takes the next.
pub struct RequestIds {
    pub next: u64,
}

impl RequestIds {
    pub fn new() -> (r: Self)
        ensures
            r.next == 1,
    {
        RequestIds { next: 1 }
    }

    /// Takes the next id. `None` once ids are exhausted.
    pub fn allocate(&mut self) -> (r: Option<u64>)
        ensures
            old(self).next < u64::MAX ==> r == Some(old(self).next) && final(self).next == old(
                self,
            ).next + 1,
            old(self).next == u64::MAX ==> r is None && final(self).next == old(self).next,
    {
        if self.next == u64::MAX {
            return None;
        }
        let id = self.next;
        self.next = self.next + 1;
        Some(id)
    }
}

/// JSON-RPC ids strictly increase: `first` is the id `allocate` gave on `a0`
/// (leaving `a1`), and `second` the id a later `allocate` gives on `a2`.
pub proof fn law_rpc_ids_increase(a0: RequestIds, a1: RequestIds, a2: RequestIds, first: u64, second: u64)
    requires
        first == a0.next,
        a1.next == a0.next + 1,
        a2.next >= a1.next,
        second == a2.next,
    ensures
        second > first,
{
}

/// The request `{jsonrpc: "2.0", method, id, params?}`; `params` is left out when absent.
pub fn rpc_request(method: &str, id: u64, params: Option<JsonValue>) -> (r: JsonValue)
    ensures
        str_member(r, "jsonrpc"@) == Some("2.0"@),
        str_member(r, "method"@) == Some(method@),
        u64_member(r, "id"@) == Some(id),
        r.field("params"@) == params,
{
    let mut e: Vec<(String, JsonValue)> = Vec::new();
    e.push(member("jsonrpc", JsonValue::from_str("2.0")));
    e.push(member("method", JsonValue::from_str(method)));
    e.push(member("id", JsonValue::Uint(id)));
    let has_params = params.is_some();
    if let Some(p) = params {
        e.push(member("params", p));
    }
    proof {
        reveal_strlit("jsonrpc");
        reveal_strlit("method");
        reveal_strlit("id");
        reveal_strlit("params");
        assert("jsonrpc"@.len() == 7 && "id"@.len() == 2 && "method"@.len() == 6
            && "params"@.len() == 6);
        assert("method"@ != "params"@) by {
            assert("method"@[0] != "params"@[0]);
        }
        crate::dap_flows::lemma_entries_get_at(e@, "jsonrpc"@, 0);
        crate::dap_flows::lemma_entries_get_at(e@, "method"@, 1);
        crate::dap_flows::lemma_entries_get_at(e@, "id"@, 2);
        if has_params {
            crate::dap_flows::lemma_entries_get_at(e@, "params"@, 3);
        } else {
            crate::dap_flows::lemma_entries_get_absent(e@, "params"@);
        }
    }
    JsonValue::Object(e)
}

pub open spec fn is_success_status(status: u16) -> bool {
    200 <= status && status < 300
}

/// What a response says, in the model.
pub enum RpcOutcome {
    HttpFailure,
    Malformed,
    IdMismatch { got: u64 },
    Result,
    Error,
}

/// The rules a response is held to: a 2xx status; a body with `jsonrpc`,
/// the request's `id`, and `result` or an `error` with an integer `code` and
/// a `message`.
pub open spec fn rpc_outcome(expected_id: u64, status: u16, body: JsonValue) -> RpcOutcome {
    if !is_success_status(status) {
        RpcOutcome::HttpFailure
    } else if str_member(body, "jsonrpc"@) is None || u64_member(body, "id"@) is None {
        RpcOutcome::Malformed
    } else if body.field("result"@) is None && !error_well_formed(body) {
        RpcOutcome::Malformed
    } else if u64_member(body, "id"@) != Some(expected_id) {
        RpcOutcome::IdMismatch { got: u64_member(body, "id"@)->Some_0 }
    } else if body.field("result"@) is Some {
        RpcOutcome::Result
    } else {
        RpcOutcome::Error
    }
}

pub open spec fn error_well_formed(body: JsonValue) -> bool {
    match body.field("error"@) {
        Some(e) => match e.field("code"@) {
            Some(c) => c.i64_of() is Some && i32::MIN <= c.i64_of()->Some_0 <= i32::MAX
                && str_member(e, "message"@) is Some,
            None => false,
        },
        None => false,
    }
}

/// Checks a response to request `expected_id` that came with HTTP status
/// `status` (`status_text` is its display form) and JSON body `body`.
pub fn check_rpc_response(expected_id: u64, status: u16, status_text: &str, body: JsonValue) -> (r: Result<JsonValue, BrpError>)
    ensures
        match rpc_outcome(expected_id, status, body) {
            RpcOutcome::HttpFailure => r matches Err(BrpError::InvalidResponse(m)) && m@
                == "HTTP error: "@ + status_text@,
            RpcOutcome::Malformed => r matches Err(BrpError::InvalidResponse(_)),
            RpcOutcome::IdMismatch { got } => r matches Err(BrpError::InvalidResponse(m)) && m@
                == "Response ID mismatch: expected "@ + dec(expected_id as nat) + ", got "@ + dec(
                got as nat,
            ),
            RpcOutcome::Result => r == Ok::<JsonValue, BrpError>(body.field("result"@)->Some_0),
            RpcOutcome::Error => r matches Err(BrpError::JsonRpc { code, message, .. })
                && code as i64 == body.field("error"@)->Some_0.field("code"@)->Some_0.i64_of()->Some_0
                && message@ == str_member(body.field("error"@)->Some_0, "message"@)->Some_0,
        },
{
    if !(200 <= status && status < 300) {
        return Err(BrpError::InvalidResponse(crate::text::concat2("HTTP error: ", status_text)));
    }
    let has_jsonrpc = get_string(&body, "jsonrpc").is_some();
    let id = match body.get("id") {
        Some(x) => x.as_u64(),
        None => None,
    };
    let has_result = body.get("result").is_some();
    let error_parts: Option<(i32, String)> = match body.get("error") {
        Some(e) => {
            let code = match e.get("code") {
                Some(c) => c.as_i64(),
                None => None,
            };
            match (code, get_string(e, "message")) {
                (Some(c), Some(m)) => if i32::MIN as i64 <= c && c <= i32::MAX as i64 {
                    Some((c as i32, m))
                } else {
                    None
                },
                _ => None,
            }
        },
        None => None,
    };
    let got = match id {
        Some(g) => g,
        None => {
            return Err(BrpError::InvalidResponse(String::from_str("Malformed JSON-RPC response")));
        },
    };
    if !has_jsonrpc || (!has_result && error_parts.is_none()) {
        return Err(BrpError::InvalidResponse(String::from_str("Malformed JSON-RPC response")));
    }
    if got != expected_id {
        let mut m = chars_of("Response ID mismatch: expected ");
        let d1 = decimal_chars(expected_id);
        append_chars(&mut m, &d1);
        append_str(&mut m, ", got ");
        let d2 = decimal_chars(got);
        append_chars(&mut m, &d2);
        return Err(BrpError::InvalidResponse(string_of(&m)));
    }
    if has_result {
        match body.take("result") {
            Some(v) => Ok(v),
            None => Err(BrpError::InvalidResponse(String::from_str("Malformed JSON-RPC response"))),
        }
    } else {
        match error_parts {
            Some((code, message)) => {
                let data = match body.take("error") {
                    Some(e) => e.take("data"),
                    None => None,
                };
                Err(BrpError::JsonRpc { code, message, data })
            },
            None => Err(BrpError::InvalidResponse(String::from_str("Malformed JSON-RPC response"))),
        }
    }
}

/// Which spawned entities a clear removes.
#[derive(PartialEq, Eq, Structural, Clone, Copy, Debug)]
pub enum ClearTarget {
    All,
    Assets,
    Primitives,
}

/// The tag component a clear filters on.
pub open spec fn clear_tag(target: ClearTarget) -> Seq<char> {
    match target {
        ClearTarget::All => "bevy_ai_remote::AxiomSpawned"@,
        ClearTarget::Assets => "bevy_ai_remote::AxiomRemoteAsset"@,
        ClearTarget::Primitives => "bevy_ai_remote::AxiomPrimitive"@,
    }
}

fn components_object(components: Vec<JsonValue>) -> (r: JsonValue)
    ensures
        r.field("components"@) matches Some(c) && c.array_of() == Some(components@),
{
    let ghost items = components@;
    let mut d: Vec<(String, JsonValue)> = Vec::new();
    d.push(member("components", JsonValue::Array(components)));
    proof {
        crate::dap_flows::lemma_entries_get_at(d@, "components"@, 0);
    }
    JsonValue::Object(d)
}

/// `world.query` parameters: `{data: {components}}`, the component names in order.
pub fn query_params(components: &Vec<String>) -> (r: JsonValue)
    ensures
        r.field("data"@) matches Some(d) && d.field("components"@) matches Some(c) && c.array_of()
            matches Some(list) && list.len() == components@.len() && forall|i: int|
            0 <= i < list.len() ==> list[i].str_of() == Some(components@[i]@),
{
    let mut list: Vec<JsonValue> = Vec::new();
    let mut i: usize = 0;
    while i < components.len()
        invariant
            i <= components@.len(),
            list@.len() == i,
            forall|j: int| 0 <= j < i ==> list@[j].str_of() == Some(components@[j]@),
        decreases components@.len() - i,
    {
        list.push(JsonValue::Str(components[i].clone()));
        i += 1;
    }
    let ghost items = list@;
    let data = components_object(list);
    let mut e: Vec<(String, JsonValue)> = Vec::new();
    e.push(member("data", data));
    proof {
        crate::dap_flows::lemma_entries_get_at(e@, "data"@, 0);
    }
    JsonValue::Object(e)
}

/// The `world.query` parameters of a clear: no components, filtered with the
/// target's tag: `{data: {components: []}, filter: {with: [tag]}}`.
pub fn clear_query_params(target: ClearTarget) -> (r: JsonValue)
    ensures
        r is Object,
        r.field("filter"@) matches Some(f) && f.field("with"@) matches Some(w) && w.array_of()
            matches Some(tags) && tags.len() == 1 && tags[0].str_of() == Some(clear_tag(target)),
{
    let tag = match target {
        ClearTarget::All => JsonValue::from_str("bevy_ai_remote::AxiomSpawned"),
        ClearTarget::Assets => JsonValue::from_str("bevy_ai_remote::AxiomRemoteAsset"),
        ClearTarget::Primitives => JsonValue::from_str("bevy_ai_remote::AxiomPrimitive"),
    };
    let mut with: Vec<JsonValue> = Vec::new();
    with.push(tag);
    let mut f: Vec<(String, JsonValue)> = Vec::new();
    f.push(member("with", JsonValue::Array(with)));
    let mut e: Vec<(String, JsonValue)> = Vec::new();
    e.push(member("data", components_object(Vec::new())));
    e.push(member("filter", JsonValue::Object(f)));
    proof {
        reveal_strlit("data");
        reveal_strlit("filter");
        reveal_strlit("with");
        assert("data"@.len() == 4 && "filter"@.len() == 6);
        crate::dap_flows::lemma_entries_get_at(e@, "filter"@, 1);
        crate::dap_flows::lemma_entries_get_at(f@, "with"@, 0);
    }
    JsonValue::Object(e)
}

/// The entities a `world.query` result lists: the `entity` member of each
/// element that has one, in order.
pub open spec fn listed_entities(items: Seq<JsonValue>) -> Seq<JsonValue>
    decreases items.len(),
{
    if items.len() == 0 {
        Seq::empty()
    } else {
        match items[0].field("entity"@) {
            Some(e) => seq![e] + listed_entities(items.drop_first()),
            None => listed_entities(items.drop_first()),
        }
    }
}

pub open spec fn expected_array_text() -> Seq<char> {
    "Expected array from world.query"@
}

/// The entities a clear despawns, from the `world.query` result; one
/// `world.despawn_entity` is sent for each, and each counts as removed.
pub fn clear_plan(result: JsonValue) -> (r: Result<Vec<JsonValue>, BrpError>)
    ensures
        match result.array_of() {
            Some(items) => r matches Ok(es) && es@ == listed_entities(items),
            None => r matches Err(BrpError::InvalidResponse(m)) && m@ == expected_array_text(),
        },
{
    match result {
        JsonValue::Array(items) => {
            let ghost all = items@;
            let mut rest = items;
            let mut out: Vec<JsonValue> = Vec::new();
            assert(out@ + listed_entities(rest@) =~= listed_entities(all));
            while rest.len() > 0
                invariant
                    listed_entities(all) == out@ + listed_entities(rest@),
                decreases rest@.len(),
            {
                let ghost before = rest@;
                let item = rest.remove(0);
                assert(rest@ =~= before.drop_first());
                match item.take("entity") {
                    Some(v) => {
                        let ghost prev = out@;
                        out.push(v);
                        assert(prev + (seq![v] + listed_entities(rest@)) =~= out@ + listed_entities(rest@));
                    },
                    None => {},
                }
            }
            assert(out@ + Seq::<JsonValue>::empty() =~= out@);
            Ok(out)
        },
        _ => Err(BrpError::InvalidResponse(String::from_str("Expected array from world.query"))),
    }
}

/// A spawned entity that the tag query of a clear lists is among the
/// entities the clear despawns, so the count removed is at least one.
pub proof fn law_spawned_entity_is_cleared(items: Seq<JsonValue>, k: int, entity: JsonValue)
    requires
        0 <= k < items.len(),
        items[k].field("entity"@) == Some(entity),
    ensures
        listed_entities(items).contains(entity),
        listed_entities(items).len() >= 1,
    decreases k,
{
    if k == 0 {
        assert(listed_entities(items)[0] == entity);
    } else {
        assert(items.drop_first()[k - 1] == items[k]);
        law_spawned_entity_is_cleared(items.drop_first(), k - 1, entity);
        let tail = listed_entities(items.drop_first());
        let i = choose|i: int| 0 <= i < tail.len() && tail[i] == entity;
        match items[0].field("entity"@) {
            Some(e) => {
                assert((seq![e] + tail)[i + 1] == entity);
            },
            None => {},
        }
    }
}

/// The `world.despawn_entity` parameters: `{entity}`.
pub fn despawn_params(entity: JsonValue) -> (r: JsonValue)
    ensures
        r.field("entity"@) == Some(entity),
{
    let mut e: Vec<(String, JsonValue)> = Vec::new();
    e.push(member("entity", entity));
    proof {
        crate::dap_flows::lemma_entries_get_at(e@, "entity"@, 0);
    }
    JsonValue::Object(e)
}

/// A `Transform` component: translation, rotation and scale, each a list of numbers.
pub fn transform_component(translation: Vec<JsonValue>, rotation: Vec<JsonValue>, scale: Vec<JsonValue>) -> (r: JsonValue)
    ensures
        r.field("translation"@) matches Some(t) && t.array_of() == Some(translation@),
        r.field("rotation"@) matches Some(q) && q.array_of() == Some(rotation@),
        r.field("scale"@) matches Some(s) && s.array_of() == Some(scale@),
{
    broadcast use crate::json::lemma_entries_get_push;
    proof {
        reveal_strlit("translation");
        reveal_strlit("rotation");
        reveal_strlit("scale");
        assert("translation"@.len() == 11 && "rotation"@.len() == 8 && "scale"@.len() == 5);
    }
    let ghost (tv, rv, sv) = (translation@, rotation@, scale@);
    let mut t: Vec<(String, JsonValue)> = Vec::new();
    t.push(member("translation", JsonValue::Array(translation)));
    t.push(member("rotation", JsonValue::Array(rotation)));
    t.push(member("scale", JsonValue::Array(scale)));
    JsonValue::Object(t)
}

/// The `world.spawn_entity` parameters of a primitive:
/// `{components: {AxiomPrimitive: {primitive_type}, Transform: {...}}}`.
pub fn spawn_params(primitive_type: &str, transform: JsonValue) -> (r: JsonValue)
    ensures
        r.field("components"@) matches Some(c) && (c.field(primitive_key()) matches Some(p)
            && str_member(p, "primitive_type"@) == Some(primitive_type@)) && c.field(
            transform_key(),
        ) == Some(transform),
{
    let mut prim: Vec<(String, JsonValue)> = Vec::new();
    prim.push(member("primitive_type", JsonValue::from_str(primitive_type)));
    let mut comps: Vec<(String, JsonValue)> = Vec::new();
    comps.push(member("bevy_ai_remote::AxiomPrimitive", JsonValue::Object(prim)));
    comps.push(member("bevy_transform::components::transform::Transform", transform));
    proof {
        reveal_strlit("bevy_ai_remote::AxiomPrimitive");
        reveal_strlit("bevy_transform::components::transform::Transform");
        assert(primitive_key().len() != transform_key().len());
        crate::dap_flows::lemma_entries_get_at(prim@, "primitive_type"@, 0);
        crate::dap_flows::lemma_entries_get_at(comps@, primitive_key(), 0);
        crate::dap_flows::lemma_entries_get_at(comps@, transform_key(), 1);
    }
    let mut e: Vec<(String, JsonValue)> = Vec::new();
    e.push(member("components", JsonValue::Object(comps)));
    proof {
        crate::dap_flows::lemma_entries_get_at(e@, "components"@, 0);
    }
    JsonValue::Object(e)
}

pub open spec fn primitive_key() -> Seq<char> {
    "bevy_ai_remote::AxiomPrimitive"@
}

pub open spec fn asset_key() -> Seq<char> {
    "bevy_ai_remote::AxiomRemoteAsset"@
}

pub open spec fn transform_key() -> Seq<char> {
    "bevy_transform::components::transform::Transform"@
}

/// The `world.spawn_entity` parameters of an uploaded asset: the file name,
/// its bytes in standard base64, the optional subdirectory (`null` when
/// absent), and the transform.
pub fn upload_params(filename: &str, bytes: &[u8], subdir: Option<String>, transform: JsonValue) -> (r: JsonValue)
    requires
        bytes@.len() <= usize::MAX / 2,
    ensures
        r.field("components"@) matches Some(c) && (c.field(asset_key()) matches Some(a)
            && str_member(a, "filename"@) == Some(filename@) && str_member(a, "data_base64"@)
            == Some(base64_of(bytes@)) && (subdir is None ==> a.field("subdir"@) == Some(
            JsonValue::Null,
        ))) && c.field(transform_key()) == Some(transform),
{
    let data = encode_base64(bytes);
    let sub = match subdir {
        Some(s) => JsonValue::Str(s),
        None => JsonValue::Null,
    };
    let mut asset: Vec<(String, JsonValue)> = Vec::new();
    asset.push(member("filename", JsonValue::from_str(filename)));
    asset.push(member("data_base64", JsonValue::Str(data)));
    asset.push(member("subdir", sub));
    let mut comps: Vec<(String, JsonValue)> = Vec::new();
    comps.push(member("bevy_ai_remote::AxiomRemoteAsset", JsonValue::Object(asset)));
    comps.push(member("bevy_transform::components::transform::Transform", transform));
    proof {
        reveal_strlit("filename");
        reveal_strlit("data_base64");
        reveal_strlit("subdir");
        reveal_strlit("bevy_ai_remote::AxiomRemoteAsset");
        reveal_strlit("bevy_transform::components::transform::Transform");
        assert("filename"@.len() == 8 && "data_base64"@.len() == 11 && "subdir"@.len() == 6);
        assert(asset_key().len() != transform_key().len());
        crate::dap_flows::lemma_entries_get_at(asset@, "filename"@, 0);
        crate::dap_flows::lemma_entries_get_at(asset@, "data_base64"@, 1);
        crate::dap_flows::lemma_entries_get_at(asset@, "subdir"@, 2);
        crate::dap_flows::lemma_entries_get_at(comps@, asset_key(), 0);
        crate::dap_flows::lemma_entries_get_at(comps@, transform_key(), 1);
    }
    let mut e: Vec<(String, JsonValue)> = Vec::new();
    e.push(member("components", JsonValue::Object(comps)));
    proof {
        crate::dap_flows::lemma_entries_get_at(e@, "components"@, 0);
    }
    JsonValue::Object(e)
}

/// The standard base64 text of an asset's bytes, as an upload carries it.
pub fn asset_data_base64(bytes: &[u8]) -> (r: String)
    requires
        bytes@.len() <= usize::MAX / 2,
    ensures
        r@ == base64_of(bytes@),
{
    encode_base64(bytes)
}

pub open spec fn missing_entity_text() -> Seq<char> {
    "Missing 'entity' in spawn response"@
}

/// The id of a spawned entity, in decimal: the `entity` member of the
/// `world.spawn_entity` result, which must be a non-negative integer.
pub fn spawn_entity_id(result: &JsonValue) -> (r: Result<String, BrpError>)
    ensures
        match u64_member(*result, "entity"@) {
            Some(n) => r matches Ok(s) && s@ == dec(n as nat),
            None => r matches Err(BrpError::InvalidResponse(m)) && m@ == missing_entity_text(),
        },
{
    match result.get("entity") {
        Some(e) => match e.as_u64() {
            Some(n) => {
                let d = decimal_chars(n);
                Ok(string_of(&d))
            },
            None => Err(BrpError::InvalidResponse(String::from_str("Missing 'entity' in spawn response"))),
        },
        None => Err(BrpError::InvalidResponse(String::from_str("Missing 'entity' in spawn response"))),
    }
}

/// The id of an uploaded asset's entity: the result itself when it is a
/// string or a non-negative integer (in decimal).
pub fn upload_entity_id(result: &JsonValue) -> (r: Result<String, BrpError>)
    ensures
        result.str_of() matches Some(s) ==> (r matches Ok(x) && x@ == s),
        result.u64_of() matches Some(n) ==> (r matches Ok(x) && x@ == dec(n as nat)),
        result.str_of() is None && result.u64_of() is None ==> r is Err,
{
    match result.as_str() {
        Some(s) => Ok(s.clone()),
        None => match result.as_u64() {
            Some(n) => {
                let d = decimal_chars(n);
                Ok(string_of(&d))
            },
            None => Err(BrpError::InvalidResponse(String::from_str("Expected entity ID as string"))),
        },
    }
}

/// The `rpc.discover` method a liveness check calls.
pub fn ping_method() -> (r: &'static str)
    ensures
        r@ == "rpc.discover"@,
{
    "rpc.discover"
}

} // verus!
