//! The JSON-RPC request record, its identifier issuance, and its mapping to
//! and from a JSON document.

use vstd::prelude::*;

use crate::json::{copy_value, lemma_key_position, member, Json, JsonNumber, JsonValue};

verus! {

/// Issues request identifiers in increasing order, starting at 1.
pub struct IdGenerator {
    next: u64,
}

impl View for IdGenerator {
    type V = u64;

    /// The identifier that the next request will receive.
    closed spec fn view(&self) -> u64 {
        self.next
    }
}

/// One issuance: `id` was handed out by a generator in state `before`,
/// which moved to state `after`.
pub open spec fn issues(before: u64, after: u64, id: u64) -> bool {
    id == before && after == before + 1
}

impl IdGenerator {
    #[verifier::type_invariant]
    spec fn starts_at_one(&self) -> bool {
        self.next >= 1
    }

    /// A generator whose first identifier is 1.
    pub fn new() -> (r: IdGenerator)
        ensures
            r@ == 1,
    {
        IdGenerator { next: 1 }
    }

    /// Whether every identifier has been handed out.
    pub fn is_exhausted(&self) -> (r: bool)
        ensures
            r == (self@ == u64::MAX),
    {
        self.next == u64::MAX
    }

    /// Hands out the next identifier.
    pub fn next_id(&mut self) -> (r: u64)
        requires
            old(self)@ < u64::MAX,
        ensures
            issues(old(self)@, final(self)@, r),
            r >= 1,
    {
        proof {
            use_type_invariant(&*self);
        }
        let r = self.next;
        *self = IdGenerator { next: r + 1 };
        r
    }
}

/// Identifiers handed out by a chain of issuances from a generator are
/// strictly increasing, hence pairwise distinct, and each is at least 1.
pub proof fn lemma_issued_ids_distinct(states: Seq<u64>, ids: Seq<u64>)
    requires
        states.len() == ids.len() + 1,
        states[0] >= 1,
        forall|k: int| 0 <= k < ids.len() ==> issues(states[k], states[k + 1], #[trigger] ids[k]),
    ensures
        forall|a: int, b: int| 0 <= a < b < ids.len() ==> ids[a] < ids[b],
        forall|a: int| 0 <= a < ids.len() ==> ids[a] >= 1,
{
    assert forall|k: int| 0 <= k <= ids.len() implies states[0] + k == #[trigger] states[k] by {
        lemma_states_advance(states, ids, k);
    }
    assert forall|a: int, b: int| 0 <= a < b < ids.len() implies ids[a] < ids[b] by {
        assert(issues(states[a], states[a + 1], ids[a]));
        assert(issues(states[b], states[b + 1], ids[b]));
        assert(states[a] == states[0] + a);
        assert(states[b] == states[0] + b);
    }
    assert forall|a: int| 0 <= a < ids.len() implies ids[a] >= 1 by {
        assert(issues(states[a], states[a + 1], ids[a]));
        assert(states[a] == states[0] + a);
    }
}

proof fn lemma_states_advance(states: Seq<u64>, ids: Seq<u64>, k: int)
    requires
        states.len() == ids.len() + 1,
        forall|j: int| 0 <= j < ids.len() ==> issues(states[j], states[j + 1], #[trigger] ids[j]),
        0 <= k <= ids.len(),
    ensures
        states[k] == states[0] + k,
    decreases k,
{
    if k > 0 {
        lemma_states_advance(states, ids, k - 1);
        assert(issues(states[k - 1], states[k], ids[k - 1]));
    }
}

/// A member of the request record.
#[derive(Clone, Copy, Debug, PartialEq, Eq)]
pub enum RequestField {
    Jsonrpc,
    Method,
    Params,
    Id,
}

/// Why a JSON document is not a request record.
#[derive(Clone, Copy, Debug, PartialEq, Eq)]
pub enum DecodeError {
    /// The document is not an object.
    NotAnObject,
    /// The object has no member for this field.
    MissingField(RequestField),
    /// The member for this field has the wrong type.
    InvalidType(RequestField),
}

/// The mathematical view of a request.
pub struct RequestView {
    pub jsonrpc: Seq<char>,
    pub method: Seq<char>,
    pub params: Json,
    pub id: u64,
}

/// A JSON-RPC call: protocol version, method name, parameters and identifier.
pub struct RpcRequest {
    jsonrpc: String,
    method: String,
    params: JsonValue,
    id: u64,
}

impl View for RpcRequest {
    type V = RequestView;

    closed spec fn view(&self) -> RequestView {
        RequestView {
            jsonrpc: self.jsonrpc@,
            method: self.method@,
            params: self.params@,
            id: self.id,
        }
    }
}

/// The JSON document of a request: an object with the members `jsonrpc`,
/// `method`, `params` and `id`, in that order.
pub open spec fn request_document(r: RequestView) -> Json {
    Json::Object(
        seq![
            ("jsonrpc"@, Json::String(r.jsonrpc)),
            ("method"@, Json::String(r.method)),
            ("params"@, r.params),
            ("id"@, Json::Number(JsonNumber::PosInt(r.id))),
        ],
    )
}

/// The text held by the member `key`.
pub open spec fn text_member(doc: Json, key: Seq<char>, field: RequestField) -> Result<
    Seq<char>,
    DecodeError,
> {
    match member(doc, key) {
        None => Err(DecodeError::MissingField(field)),
        Some(Json::String(s)) => Ok(s),
        Some(_) => Err(DecodeError::InvalidType(field)),
    }
}

/// The unsigned 64-bit integer held by the member `id`.
pub open spec fn id_member(doc: Json) -> Result<u64, DecodeError> {
    match member(doc, "id"@) {
        None => Err(DecodeError::MissingField(RequestField::Id)),
        Some(Json::Number(JsonNumber::PosInt(n))) => Ok(n),
        Some(_) => Err(DecodeError::InvalidType(RequestField::Id)),
    }
}

/// The request that a JSON document describes, or the first defect found,
/// checking the fields in the order `jsonrpc`, `method`, `params`, `id`.
/// Members with other keys are ignored.
pub open spec fn decode_request(doc: Json) -> Result<RequestView, DecodeError> {
    if !(doc is Object) {
        Err(DecodeError::NotAnObject)
    } else {
        match text_member(doc, "jsonrpc"@, RequestField::Jsonrpc) {
            Err(e) => Err(e),
            Ok(jsonrpc) => match text_member(doc, "method"@, RequestField::Method) {
                Err(e) => Err(e),
                Ok(method) => match member(doc, "params"@) {
                    None => Err(DecodeError::MissingField(RequestField::Params)),
                    Some(params) => match id_member(doc) {
                        Err(e) => Err(e),
                        Ok(id) => Ok(RequestView { jsonrpc, method, params, id }),
                    },
                },
            },
        }
    }
}

/// Decoding the document of a request gives back that request.
pub proof fn lemma_request_round_trip(r: RequestView)
    ensures
        decode_request(request_document(r)) == Ok::<RequestView, DecodeError>(r),
{
    reveal_strlit("jsonrpc");
    reveal_strlit("method");
    reveal_strlit("params");
    reveal_strlit("id");
    let members = request_document(r)->Object_0;
    lemma_key_position(members, "jsonrpc"@, 0);
    assert(members[0].0[0] != "method"@[0]);
    lemma_key_position(members, "method"@, 1);
    assert(members[0].0[0] != "params"@[0]);
    assert(members[1].0[0] != "params"@[0]);
    lemma_key_position(members, "params"@, 2);
    assert(members[0].0[0] != "id"@[0]);
    assert(members[1].0[0] != "id"@[0]);
    assert(members[2].0[0] != "id"@[0]);
    lemma_key_position(members, "id"@, 3);
}

impl Clone for RpcRequest {
    fn clone(&self) -> (r: Self)
        ensures
            r@ == self@,
    {
        RpcRequest {
            jsonrpc: self.jsonrpc.clone(),
            method: self.method.clone(),
            params: copy_value(&self.params),
            id: self.id,
        }
    }
}

impl RpcRequest {
    /// A request with version "2.0", an empty method, null parameters and
    /// the generator's next identifier.
    pub fn new(ids: &mut IdGenerator) -> (r: RpcRequest)
        requires
            old(ids)@ < u64::MAX,
        ensures
            r@ == (RequestView {
                jsonrpc: "2.0"@,
                method: Seq::empty(),
                params: Json::Null,
                id: old(ids)@,
            }),
            issues(old(ids)@, final(ids)@, r@.id),
            r@.id >= 1,
    {
        let id = ids.next_id();
        RpcRequest {
            jsonrpc: String::from_str("2.0"),
            method: String::new(),
            params: JsonValue::Null,
            id,
        }
    }

    /// The request as a JSON document.
    pub fn to_json(&self) -> (r: JsonValue)
        ensures
            r@ == request_document(self@),
    {
        let mut members: Vec<(String, JsonValue)> = Vec::new();
        members.push((String::from_str("jsonrpc"), JsonValue::String(self.jsonrpc.clone())));
        members.push((String::from_str("method"), JsonValue::String(self.method.clone())));
        members.push((String::from_str("params"), copy_value(&self.params)));
        members.push((String::from_str("id"), JsonValue::Number(JsonNumber::PosInt(self.id))));
        assert(members@[0].1@ == Json::String(self@.jsonrpc));
        assert(members@[1].1@ == Json::String(self@.method));
        assert(members@[3].1@ == Json::Number(JsonNumber::PosInt(self@.id)));
        let r = JsonValue::Object(members);
        assert(r@->Object_0 =~= request_document(self@)->Object_0);
        r
    }

    /// The request that a JSON document describes.
    pub fn from_json(json: JsonValue) -> (r: Result<RpcRequest, DecodeError>)
        ensures
            match r {
                Ok(q) => decode_request(json@) == Ok::<RequestView, DecodeError>(q@),
                Err(e) => decode_request(json@) == Err::<RequestView, DecodeError>(e),
            },
    {
        match &json {
            JsonValue::Object(_) => {},
            _ => {
                return Err(DecodeError::NotAnObject);
            },
        }
        let jsonrpc = match json.get("jsonrpc") {
            None => {
                return Err(DecodeError::MissingField(RequestField::Jsonrpc));
            },
            Some(JsonValue::String(s)) => s.clone(),
            Some(_) => {
                return Err(DecodeError::InvalidType(RequestField::Jsonrpc));
            },
        };
        let method = match json.get("method") {
            None => {
                return Err(DecodeError::MissingField(RequestField::Method));
            },
            Some(JsonValue::String(s)) => s.clone(),
            Some(_) => {
                return Err(DecodeError::InvalidType(RequestField::Method));
            },
        };
        let params = match json.get("params") {
            None => {
                return Err(DecodeError::MissingField(RequestField::Params));
            },
            Some(p) => copy_value(p),
        };
        let id = match json.get("id") {
            None => {
                return Err(DecodeError::MissingField(RequestField::Id));
            },
            Some(v) => match v.as_u64() {
                Some(n) => n,
                None => {
                    return Err(DecodeError::InvalidType(RequestField::Id));
                },
            },
        };
        Ok(RpcRequest { jsonrpc, method, params, id })
    }

    /// The request's identifier.
    pub fn id(&self) -> (r: u64)
        ensures
            r == self@.id,
    {
        self.id
    }

    /// The name of the method to call.
    pub fn method(&self) -> (r: &str)
        ensures
            r@ == self@.method,
    {
        self.method.as_str()
    }

    /// Replaces the method name; returns the request for chaining.
    pub fn set_method(&mut self, method: String) -> (r: &mut Self)
        ensures
            (*r)@ == (RequestView { method: method@, ..old(self)@ }),
            *final(self) == *final(r),
    {
        self.method = method;
        self
    }

    /// The call's parameters.
    pub fn params(&self) -> (r: &JsonValue)
        ensures
            r@ == self@.params,
    {
        &self.params
    }

    /// Replaces the parameters; returns the request for chaining.
    pub fn set_params(&mut self, params: JsonValue) -> (r: &mut Self)
        ensures
            (*r)@ == (RequestView { params: params@, ..old(self)@ }),
            *final(self) == *final(r),
    {
        self.params = params;
        self
    }
}

} // verus!
