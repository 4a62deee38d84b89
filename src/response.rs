//! The JSON-RPC response: a JSON document read through lenient accessors.

use vstd::prelude::*;

use crate::json::{
    accepts_members, copy_value, lemma_key_position, lemma_store_other, lemma_store_same, member,
    member_or_null, with_member, Json, JsonNumber, JsonValue,
};

verus! {

/// The document of a fresh response: version "2.0" and the identifier.
pub open spec fn response_document(id: u64) -> Json {
    Json::Object(
        seq![("jsonrpc"@, Json::String("2.0"@)), ("id"@, Json::Number(JsonNumber::PosInt(id)))],
    )
}

/// The identifier of a response document: the member `id` where it is an
/// unsigned 64-bit integer, and 0 otherwise.
pub open spec fn response_id(doc: Json) -> u64 {
    match member(doc, "id"@) {
        Some(Json::Number(n)) => match n.spec_as_u64() {
            Some(k) => k,
            None => 0,
        },
        _ => 0,
    }
}

/// A fresh response reads back its identifier, and a null result and error.
pub proof fn lemma_fresh_response(id: u64)
    ensures
        response_id(response_document(id)) == id,
        member_or_null(response_document(id), "result"@) == Json::Null,
        member_or_null(response_document(id), "error"@) == Json::Null,
{
    reveal_strlit("jsonrpc");
    reveal_strlit("id");
    reveal_strlit("result");
    reveal_strlit("error");
    let members = response_document(id)->Object_0;
    assert(members[0].0[0] != "id"@[0]);
    lemma_key_position(members, "id"@, 1);
    assert(members[0].0[0] != "result"@[0]);
    assert(members[1].0[0] != "result"@[0]);
    lemma_key_position(members, "result"@, 2);
    assert(members[0].0[0] != "error"@[0]);
    assert(members[1].0[0] != "error"@[0]);
    lemma_key_position(members, "error"@, 2);
}

/// Setting the result never changes the error or the identifier, and
/// setting the error never changes the result or the identifier; each
/// reads back the value set.
pub proof fn lemma_result_error_independent(doc: Json, v: Json)
    requires
        accepts_members(doc),
    ensures
        member_or_null(with_member(doc, "result"@, v), "result"@) == v,
        member_or_null(with_member(doc, "result"@, v), "error"@) == member_or_null(doc, "error"@),
        response_id(with_member(doc, "result"@, v)) == response_id(doc),
        member_or_null(with_member(doc, "error"@, v), "error"@) == v,
        member_or_null(with_member(doc, "error"@, v), "result"@) == member_or_null(doc, "result"@),
        response_id(with_member(doc, "error"@, v)) == response_id(doc),
{
    reveal_strlit("id");
    reveal_strlit("result");
    reveal_strlit("error");
    assert("result"@[0] != "error"@[0]);
    assert("result"@[0] != "id"@[0]);
    assert("error"@[0] != "id"@[0]);
    let members = match doc {
        Json::Object(m) => m,
        _ => Seq::empty(),
    };
    lemma_store_same(members, "result"@, v);
    lemma_store_other(members, "result"@, v, "error"@);
    lemma_store_other(members, "result"@, v, "id"@);
    lemma_store_same(members, "error"@, v);
    lemma_store_other(members, "error"@, v, "result"@);
    lemma_store_other(members, "error"@, v, "id"@);
}

/// A JSON-RPC reply held as a JSON document, with the conventional members
/// `jsonrpc`, `id`, `result` and `error`.
pub struct RpcResponse {
    value: JsonValue,
}

impl View for RpcResponse {
    type V = Json;

    closed spec fn view(&self) -> Json {
        self.value@
    }
}

impl Clone for RpcResponse {
    fn clone(&self) -> (r: Self)
        ensures
            r@ == self@,
    {
        RpcResponse { value: copy_value(&self.value) }
    }
}

impl RpcResponse {
    /// A response holding only the version "2.0" and `id`.
    pub fn new(id: u64) -> (r: RpcResponse)
        ensures
            r@ == response_document(id),
    {
        let mut members: Vec<(String, JsonValue)> = Vec::new();
        members.push((String::from_str("jsonrpc"), JsonValue::String(String::from_str("2.0"))));
        members.push((String::from_str("id"), JsonValue::Number(JsonNumber::PosInt(id))));
        assert(members@[0].1@ == Json::String("2.0"@));
        assert(members@[1].1@ == Json::Number(JsonNumber::PosInt(id)));
        let value = JsonValue::Object(members);
        assert(value@->Object_0 =~= response_document(id)->Object_0);
        RpcResponse { value }
    }

    /// Wraps a document as it is.
    pub fn from_json(value: JsonValue) -> (r: RpcResponse)
        ensures
            r@ == value@,
    {
        RpcResponse { value }
    }

    /// The whole document.
    pub fn as_json(&self) -> (r: &JsonValue)
        ensures
            r@ == self@,
    {
        &self.value
    }

    /// The identifier, or 0 where the member `id` is absent or not an
    /// unsigned 64-bit integer.
    pub fn id(&self) -> (r: u64)
        ensures
            r == response_id(self@),
    {
        match self.value.get("id") {
            Some(v) => match v.as_u64() {
                Some(k) => k,
                None => 0,
            },
            None => 0,
        }
    }

    /// The member `result`, or null where it is absent.
    pub fn result(&self) -> (r: &JsonValue)
        ensures
            r@ == member_or_null(self@, "result"@),
    {
        match self.value.get("result") {
            Some(v) => v,
            None => &JsonValue::Null,
        }
    }

    /// Sets the member `result`, leaving every other member as it was.
    pub fn set_result(&mut self, result: JsonValue)
        requires
            accepts_members(old(self)@),
        ensures
            final(self)@ == with_member(old(self)@, "result"@, result@),
    {
        self.value.insert(String::from_str("result"), result);
    }

    /// The member `error`, or null where it is absent.
    pub fn error(&self) -> (r: &JsonValue)
        ensures
            r@ == member_or_null(self@, "error"@),
    {
        match self.value.get("error") {
            Some(v) => v,
            None => &JsonValue::Null,
        }
    }

    /// Sets the member `error`, leaving every other member as it was.
    pub fn set_error(&mut self, error: JsonValue)
        requires
            accepts_members(old(self)@),
        ensures
            final(self)@ == with_member(old(self)@, "error"@, error@),
    {
        self.value.insert(String::from_str("error"), error);
    }
}

} // verus!
