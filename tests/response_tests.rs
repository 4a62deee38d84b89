use ink_rpc::{JsonNumber, JsonValue, RpcRequest, IdGenerator, RpcResponse};

fn lib_value(v: serde_json::Value) -> JsonValue {
    match v {
        serde_json::Value::Null => JsonValue::Null,
        serde_json::Value::Bool(b) => JsonValue::Bool(b),
        serde_json::Value::Number(n) => JsonValue::Number(if let Some(u) = n.as_u64() {
            JsonNumber::PosInt(u)
        } else if let Some(i) = n.as_i64() {
            JsonNumber::NegInt(i)
        } else {
            JsonNumber::Float(n.as_f64().unwrap().to_bits())
        }),
        serde_json::Value::String(s) => JsonValue::String(s),
        serde_json::Value::Array(items) => {
            JsonValue::Array(items.into_iter().map(lib_value).collect())
        }
        serde_json::Value::Object(m) => {
            JsonValue::Object(m.into_iter().map(|(k, v)| (k, lib_value(v))).collect())
        }
    }
}

fn plain_value(v: &JsonValue) -> serde_json::Value {
    match v {
        JsonValue::Null => serde_json::Value::Null,
        JsonValue::Bool(b) => serde_json::Value::Bool(*b),
        JsonValue::Number(JsonNumber::PosInt(u)) => serde_json::Value::from(*u),
        JsonValue::Number(JsonNumber::NegInt(i)) => serde_json::Value::from(*i),
        JsonValue::Number(JsonNumber::Float(bits)) => serde_json::Value::from(f64::from_bits(*bits)),
        JsonValue::String(s) => serde_json::Value::String(s.clone()),
        JsonValue::Array(items) => serde_json::Value::Array(items.iter().map(plain_value).collect()),
        JsonValue::Object(members) => {
            let mut m = serde_json::Map::new();
            for (k, v) in members {
                m.insert(k.clone(), plain_value(v));
            }
            serde_json::Value::Object(m)
        }
    }
}

fn json(text: &str) -> JsonValue {
    lib_value(serde_json::from_str(text).unwrap())
}

#[test]
fn test_new_response() {
    let response = RpcResponse::new(123);

    assert_eq!(response.id(), 123);
    let doc = plain_value(response.as_json());
    assert_eq!(doc["jsonrpc"], "2.0");
    assert_eq!(doc["id"], 123);
    assert!(!response.as_json().get("result").is_some());
}

#[test]
fn test_new_response_zero_id() {
    let response = RpcResponse::new(0);

    assert_eq!(response.id(), 0);
    let doc = plain_value(response.as_json());
    assert_eq!(doc["jsonrpc"], "2.0");
    assert_eq!(doc["id"], 0);
}

#[test]
fn test_new_response_large_id() {
    let large_id = u64::MAX;
    let response = RpcResponse::new(large_id);

    assert_eq!(response.id(), large_id);
    assert_eq!(plain_value(response.as_json())["id"], large_id);
}

#[test]
fn test_from_json() {
    let json_value = json(r#"{"jsonrpc": "2.0", "id": 456, "result": "success"}"#);

    let response = RpcResponse::from_json(json_value.clone());

    assert_eq!(response.id(), 456);
    assert_eq!(response.result(), &json(r#""success""#));
    assert_eq!(response.as_json(), &json_value);
}

#[test]
fn test_from_json_with_error() {
    let json_value = json(
        r#"{
            "jsonrpc": "2.0",
            "id": 789,
            "error": {
                "code": -1,
                "message": "Something went wrong"
            }
        }"#,
    );

    let response = RpcResponse::from_json(json_value.clone());

    assert_eq!(response.id(), 789);
    assert_eq!(response.as_json(), &json_value);
    assert_eq!(response.result(), &JsonValue::Null);
}

#[test]
fn test_as_json() {
    let mut response = RpcResponse::new(42);
    response.set_result(json(r#"{"data": [1, 2, 3]}"#));

    let json_ref = plain_value(response.as_json());
    assert_eq!(json_ref["jsonrpc"], "2.0");
    assert_eq!(json_ref["id"], 42);
    assert_eq!(json_ref["result"], plain_value(&json(r#"{"data": [1, 2, 3]}"#)));
}

#[test]
fn test_id_extraction() {
    let response = RpcResponse::new(999);
    assert_eq!(response.id(), 999);
}

#[test]
fn test_id_missing_returns_zero() {
    let json_without_id = json(r#"{"jsonrpc": "2.0", "result": "test"}"#);

    let response = RpcResponse::from_json(json_without_id);
    assert_eq!(response.id(), 0);
}

#[test]
fn test_id_invalid_type_returns_zero() {
    let json_with_string_id = json(r#"{"jsonrpc": "2.0", "id": "not_a_number", "result": "test"}"#);

    let response = RpcResponse::from_json(json_with_string_id);
    assert_eq!(response.id(), 0);
}

#[test]
fn test_result_getter() {
    let mut response = RpcResponse::new(1);

    assert_eq!(response.result(), &JsonValue::Null);

    response.set_result(json(r#""success""#));
    assert_eq!(response.result(), &json(r#""success""#));

    let complex_result = json(
        r#"{
            "status": "ok",
            "data": {
                "items": [1, 2, 3],
                "count": 3
            }
        }"#,
    );
    response.set_result(complex_result.clone());
    assert_eq!(response.result(), &complex_result);
}

#[test]
fn test_set_result_string() {
    let mut response = RpcResponse::new(1);
    response.set_result(json(r#""hello world""#));

    assert_eq!(response.result(), &json(r#""hello world""#));
    assert_eq!(plain_value(response.as_json())["result"], "hello world");
}

#[test]
fn test_set_result_number() {
    let mut response = RpcResponse::new(1);
    response.set_result(json("42"));

    assert_eq!(response.result(), &json("42"));
    assert_eq!(plain_value(response.as_json())["result"], 42);
}

#[test]
fn test_set_result_boolean() {
    let mut response = RpcResponse::new(1);
    response.set_result(json("true"));

    assert_eq!(response.result(), &json("true"));
    assert_eq!(plain_value(response.as_json())["result"], true);
}

#[test]
fn test_set_result_array() {
    let mut response = RpcResponse::new(1);
    let array_result = json(r#"[1, "two", 3.0, true]"#);
    response.set_result(array_result.clone());

    assert_eq!(response.result(), &array_result);
    assert_eq!(plain_value(response.as_json())["result"], plain_value(&array_result));
}

#[test]
fn test_set_result_object() {
    let mut response = RpcResponse::new(1);
    let object_result = json(
        r#"{
            "name": "John Doe",
            "age": 30,
            "active": true,
            "scores": [95, 87, 92]
        }"#,
    );
    response.set_result(object_result.clone());

    assert_eq!(response.result(), &object_result);
    assert_eq!(plain_value(response.as_json())["result"], plain_value(&object_result));
}

#[test]
fn test_set_result_null() {
    let mut response = RpcResponse::new(1);
    response.set_result(JsonValue::Null);

    assert_eq!(response.result(), &JsonValue::Null);
    assert_eq!(plain_value(response.as_json())["result"], serde_json::Value::Null);
}

#[test]
fn test_set_result_overwrites_previous() {
    let mut response = RpcResponse::new(1);

    response.set_result(json(r#""first""#));
    assert_eq!(response.result(), &json(r#""first""#));

    response.set_result(json(r#""second""#));
    assert_eq!(response.result(), &json(r#""second""#));

    response.set_result(json(r#"{"final": "value"}"#));
    assert_eq!(response.result(), &json(r#"{"final": "value"}"#));
}

#[test]
fn test_error_getter() {
    let mut response = RpcResponse::new(1);

    assert_eq!(response.error(), &JsonValue::Null);

    response.set_error(json(r#"{"code": -1, "message": "Test error"}"#));
    assert_eq!(response.error(), &json(r#"{"code": -1, "message": "Test error"}"#));

    let complex_error = json(
        r#"{
            "code": -32600,
            "message": "Invalid Request",
            "data": {
                "details": "Missing required parameter",
                "line": 42
            }
        }"#,
    );
    response.set_error(complex_error.clone());
    assert_eq!(response.error(), &complex_error);
}

#[test]
fn test_set_error_standard_codes() {
    let mut response = RpcResponse::new(1);

    response.set_error(json(r#"{"code": -32700, "message": "Parse error"}"#));
    assert_eq!(response.error(), &json(r#"{"code": -32700, "message": "Parse error"}"#));
    assert_eq!(plain_value(response.as_json())["error"]["code"], -32700);

    response.set_error(json(r#"{"code": -32600, "message": "Invalid Request"}"#));
    assert_eq!(response.error(), &json(r#"{"code": -32600, "message": "Invalid Request"}"#));
    assert_eq!(plain_value(response.as_json())["error"]["code"], -32600);

    response.set_error(json(r#"{"code": -32601, "message": "Method not found"}"#));
    assert_eq!(response.error(), &json(r#"{"code": -32601, "message": "Method not found"}"#));
    assert_eq!(plain_value(response.as_json())["error"]["code"], -32601);
}

#[test]
fn test_set_error_with_data() {
    let mut response = RpcResponse::new(1);
    let error_with_data = json(
        r#"{
            "code": -32602,
            "message": "Invalid params",
            "data": {
                "expected": "string",
                "received": "number",
                "parameter": "username"
            }
        }"#,
    );
    response.set_error(error_with_data.clone());

    assert_eq!(response.error(), &error_with_data);
    assert_eq!(plain_value(response.as_json())["error"], plain_value(&error_with_data));
}

#[test]
fn test_set_error_null() {
    let mut response = RpcResponse::new(1);
    response.set_error(JsonValue::Null);

    assert_eq!(response.error(), &JsonValue::Null);
    assert_eq!(plain_value(response.as_json())["error"], serde_json::Value::Null);
}

#[test]
fn test_set_error_overwrites_previous() {
    let mut response = RpcResponse::new(1);

    response.set_error(json(r#"{"code": -1, "message": "first error"}"#));
    assert_eq!(response.error(), &json(r#"{"code": -1, "message": "first error"}"#));

    response.set_error(json(r#"{"code": -2, "message": "second error"}"#));
    assert_eq!(response.error(), &json(r#"{"code": -2, "message": "second error"}"#));

    response.set_error(json(r#"{"code": -32700, "message": "Parse error"}"#));
    assert_eq!(response.error(), &json(r#"{"code": -32700, "message": "Parse error"}"#));
}

#[test]
fn test_error_and_result_independence() {
    let mut response = RpcResponse::new(1);

    response.set_result(json(r#""success""#));
    assert_eq!(response.result(), &json(r#""success""#));
    assert_eq!(response.error(), &JsonValue::Null);

    response.set_error(json(r#"{"code": -1, "message": "error"}"#));
    assert_eq!(response.result(), &json(r#""success""#));
    assert_eq!(response.error(), &json(r#"{"code": -1, "message": "error"}"#));

    response.set_result(json(r#""updated""#));
    assert_eq!(response.result(), &json(r#""updated""#));
    assert_eq!(response.error(), &json(r#"{"code": -1, "message": "error"}"#));
}

// ---------------------------------------------------------------------------
// Further cases
// ---------------------------------------------------------------------------

#[test]
fn fresh_response_document_is_exact() {
    let response = RpcResponse::new(5);
    let expected = JsonValue::Object(vec![
        ("jsonrpc".to_string(), JsonValue::String("2.0".to_string())),
        ("id".to_string(), JsonValue::Number(JsonNumber::PosInt(5))),
    ]);
    assert_eq!(response.as_json(), &expected);
    assert_eq!(response.result(), &JsonValue::Null);
    assert_eq!(response.error(), &JsonValue::Null);
}

#[test]
fn set_result_appends_then_replaces_in_place() {
    let mut response = RpcResponse::new(5);
    response.set_result(json("1"));
    response.set_error(json("2"));
    response.set_result(json("3"));
    let expected = json(r#"{"jsonrpc": "2.0", "id": 5, "result": 3, "error": 2}"#);
    assert_eq!(response.as_json(), &expected);
    assert_eq!(response.id(), 5);
}

#[test]
fn set_result_on_null_document_makes_an_object() {
    let mut response = RpcResponse::from_json(JsonValue::Null);
    assert_eq!(response.id(), 0);
    response.set_error(json(r#""bad""#));
    assert_eq!(response.as_json(), &json(r#"{"error": "bad"}"#));
    assert_eq!(response.result(), &JsonValue::Null);
}

#[test]
fn id_degrades_for_negative_float_and_non_object() {
    assert_eq!(RpcResponse::from_json(json(r#"{"id": -4}"#)).id(), 0);
    assert_eq!(RpcResponse::from_json(json(r#"{"id": 4.0}"#)).id(), 0);
    assert_eq!(RpcResponse::from_json(json(r#"[1, 2]"#)).id(), 0);
    assert_eq!(RpcResponse::from_json(json(r#"{"id": "not_a_number"}"#)).id(), 0);
}

#[test]
fn accessors_degrade_on_non_object_document() {
    let response = RpcResponse::from_json(json(r#""text""#));
    assert_eq!(response.result(), &JsonValue::Null);
    assert_eq!(response.error(), &JsonValue::Null);
}

#[test]
fn success_round_trip_scenario() {
    let mut ids = IdGenerator::new();
    let mut request = RpcRequest::new(&mut ids);
    request
        .set_method("get_balance".to_string())
        .set_params(json(r#"{"account": "123"}"#));
    let mut response = RpcResponse::new(request.id());
    response.set_result(json(r#"{"balance": 1749.25}"#));
    assert_eq!(plain_value(response.result())["balance"], 1749.25);
    assert_eq!(response.id(), request.id());
}

#[test]
fn error_round_trip_scenario() {
    let mut ids = IdGenerator::new();
    let mut request = RpcRequest::new(&mut ids);
    request.set_method("withdraw_funds".to_string());
    let mut response = RpcResponse::new(request.id());
    response.set_error(json(r#"{"code": -32001, "message": "Insufficient funds"}"#));
    assert_eq!(plain_value(response.error())["code"], -32001);
    assert_eq!(response.result(), &JsonValue::Null);
    assert_eq!(response.id(), request.id());
}

#[test]
fn value_get_and_as_u64() {
    let v = json(r#"{"a": 7, "b": -7, "c": "7"}"#);
    assert_eq!(v.get("a").and_then(|x| x.as_u64()), Some(7));
    assert_eq!(v.get("b").and_then(|x| x.as_u64()), None);
    assert_eq!(v.get("c").and_then(|x| x.as_u64()), None);
    assert!(v.get("d").is_none());
    assert!(json("[1]").get("a").is_none());
}

#[test]
fn value_insert_replaces_and_appends() {
    let mut v = json(r#"{"a": 1, "b": 2}"#);
    v.insert("a".to_string(), json("10"));
    v.insert("c".to_string(), json("3"));
    assert_eq!(v, json(r#"{"a": 10, "b": 2, "c": 3}"#));
}

#[test]
fn value_clone_is_equal() {
    let v = json(r#"{"x": [1, {"y": null}, -2.5, "s"], "z": false}"#);
    assert_eq!(v.clone(), v);
}

#[test]
fn cloned_response_has_same_document() {
    let mut response = RpcResponse::new(3);
    response.set_result(json(r#"{"ok": [true]}"#));
    let copy = response.clone();
    assert_eq!(copy.as_json(), response.as_json());
}
