use jsonrpc_client::client::{complete, complete_as, HttpReply, HttpRequest, RpcClient};
use jsonrpc_client::envelope::{read_envelope, read_error_object, request_envelope};
use jsonrpc_client::error::{EnvelopeFault, HttpError, JsonError, RpcError, ShapeError};
use jsonrpc_client::json::Json;
use jsonrpc_client::shape::{FieldKind, FieldSpec, RecordShape, Untyped};

fn text(s: &str) -> Json {
    Json::Str(s.to_string())
}

fn ok(body: &str) -> Result<HttpReply, HttpError> {
    Ok(HttpReply { status: 200, body: body.as_bytes().to_vec() })
}

#[test]
fn getblockcount_succeeds_with_100() {
    let mut client = RpcClient::new("http://127.0.0.1:8332");
    let mut seen: Vec<HttpRequest> = Vec::new();
    let outcome = client.call("getblockcount", vec![], &Untyped, |request| {
        seen.push(request);
        ok(r#"{"result":100,"error":null,"id":0}"#)
    });
    assert_eq!(outcome, Ok(Json::Int(100)));
    assert_eq!(seen.len(), 1);
    assert_eq!(seen[0].url, "http://127.0.0.1:8332");
    assert_eq!(seen[0].auth, None);
    assert_eq!(seen[0].id, 0);
    assert_eq!(
        seen[0].body,
        br#"{"id":0,"jsonrpc":"2.0","method":"getblockcount","params":[]}"#.to_vec()
    );
}

#[test]
fn block_not_found_fails_with_code_minus_8() {
    let mut client = RpcClient::new("http://127.0.0.1:8332");
    client.prepare("getblockcount", vec![]);
    let outcome = client.call("getblock", vec![text("deadbeef"), Json::Int(3)], &Untyped, |request| {
        assert_eq!(request.id, 1);
        assert_eq!(
            request.body,
            br#"{"id":1,"jsonrpc":"2.0","method":"getblock","params":["deadbeef",3]}"#.to_vec()
        );
        ok(r#"{"result":null,"error":{"code":-8,"message":"Block not found"},"id":1}"#)
    });
    assert_eq!(
        outcome,
        Err(RpcError::Rpc { code: -8, message: "Block not found".to_string(), data: None })
    );
}

#[test]
fn every_call_has_a_greater_id_than_the_calls_before() {
    let mut client = RpcClient::new("http://node");
    let mut ids = Vec::new();
    for _ in 0..5 {
        ids.push(client.prepare("ping", vec![]).id);
    }
    let _ = client.call("ping", vec![], &Untyped, |request| {
        ids.push(request.id);
        Err(HttpError::Connection { detail: "refused".to_string() })
    });
    ids.push(client.prepare("ping", vec![]).id);
    assert_eq!(ids, vec![0, 1, 2, 3, 4, 5, 6]);
}

#[test]
fn two_clients_count_on_their_own() {
    let mut a = RpcClient::new("http://a");
    let mut b = RpcClient::new("http://b");
    assert_eq!(a.prepare("m", vec![]).id, 0);
    assert_eq!(a.prepare("m", vec![]).id, 1);
    assert_eq!(b.prepare("m", vec![]).id, 0);
    assert_eq!(a.prepare("m", vec![]).id, 2);
}

#[test]
fn the_id_in_the_body_is_the_id_of_the_request() {
    let mut client = RpcClient::new("http://node");
    for expected in 0..3 {
        let request = client.prepare("m", vec![]);
        let body = Json::parse(&request.body).unwrap();
        assert_eq!(body.get("id"), Some(&Json::Int(expected)));
        assert_eq!(request.id, expected as u64);
    }
}

#[test]
fn the_request_carries_endpoint_and_credentials() {
    let mut plain = RpcClient::new("http://node:1");
    let request = plain.prepare("m", vec![]);
    assert_eq!(request.url, "http://node:1");
    assert_eq!(request.auth, None);

    let mut client = RpcClient::with_auth("http://node:2", "alice", "secret");
    for _ in 0..2 {
        let request = client.prepare("m", vec![]);
        assert_eq!(request.url, "http://node:2");
        assert_eq!(request.auth, Some(("alice".to_string(), "secret".to_string())));
    }
}

#[test]
fn the_envelope_holds_version_id_method_and_params() {
    let doc = request_envelope(7, "getblock", vec![text("deadbeef"), Json::Int(3)]);
    assert_eq!(doc.get("jsonrpc"), Some(&text("2.0")));
    assert_eq!(doc.get("id"), Some(&Json::UInt(7)));
    assert_eq!(doc.get("method"), Some(&text("getblock")));
    assert_eq!(doc.get("params"), Some(&Json::Array(vec![text("deadbeef"), Json::Int(3)])));
    match doc {
        Json::Object(members) => assert_eq!(members.len(), 4),
        other => panic!("{:?}", other),
    }
}

#[test]
fn params_go_out_in_their_order() {
    let mut client = RpcClient::new("http://node");
    let request = client.prepare(
        "m",
        vec![Json::Int(2), Json::Int(1), Json::Real("0.5".to_string()), Json::Null],
    );
    assert_eq!(request.body, br#"{"id":0,"jsonrpc":"2.0","method":"m","params":[2,1,0.5,null]}"#.to_vec());
}

#[test]
fn a_status_outside_the_success_range_is_a_transport_failure() {
    let body = br#"{"result":100,"error":null,"id":0}"#.to_vec();
    for status in [0u16, 100, 199, 300, 301, 400, 401, 404, 500, 503, 599, 65535] {
        let outcome = complete("m", Ok(HttpReply { status, body: body.clone() }));
        assert_eq!(outcome, Err(RpcError::Http(HttpError::Status { status })));
    }
    for status in [200u16, 201, 204, 299] {
        let outcome = complete("m", Ok(HttpReply { status, body: body.clone() }));
        assert_eq!(outcome, Ok(Json::Int(100)));
    }
}

#[test]
fn a_failed_status_hides_a_protocol_error_in_the_body() {
    let outcome = complete(
        "m",
        Ok(HttpReply {
            status: 500,
            body: br#"{"result":null,"error":{"code":-8,"message":"Block not found"},"id":1}"#.to_vec(),
        }),
    );
    assert_eq!(outcome, Err(RpcError::Http(HttpError::Status { status: 500 })));
}

#[test]
fn a_transport_failure_is_handed_on() {
    let outcome = complete("m", Err(HttpError::Connection { detail: "timed out".to_string() }));
    assert_eq!(
        outcome,
        Err(RpcError::Http(HttpError::Connection { detail: "timed out".to_string() }))
    );
    let outcome = complete("m", Err(HttpError::Status { status: 502 }));
    assert_eq!(outcome, Err(RpcError::Http(HttpError::Status { status: 502 })));
}

#[test]
fn an_error_comes_before_a_result() {
    let outcome = complete(
        "m",
        ok(r#"{"result":100,"error":{"code":-32601,"message":"Method not found"},"id":0}"#),
    );
    assert_eq!(
        outcome,
        Err(RpcError::Rpc { code: -32601, message: "Method not found".to_string(), data: None })
    );
}

#[test]
fn the_data_of_an_error_is_kept() {
    let outcome = complete(
        "m",
        ok(r#"{"error":{"code":1,"message":"no","data":{"why":[1,2]}},"id":0}"#),
    );
    assert_eq!(
        outcome,
        Err(RpcError::Rpc {
            code: 1,
            message: "no".to_string(),
            data: Some(Json::Object(vec![(
                "why".to_string(),
                Json::Array(vec![Json::Int(1), Json::Int(2)])
            )])),
        })
    );
    let outcome = complete("m", ok(r#"{"error":{"code":1,"message":"no","data":null},"id":0}"#));
    assert_eq!(outcome, Err(RpcError::Rpc { code: 1, message: "no".to_string(), data: None }));
}

#[test]
fn a_response_without_result_and_error_is_a_missing_result() {
    let missing = Err(RpcError::MissingResult { method: "getblockcount".to_string() });
    for body in [
        r#"{"result":null,"error":null,"id":0}"#,
        r#"{"error":null,"id":0}"#,
        r#"{"result":null,"id":0}"#,
        r#"{"id":0}"#,
        r#"{"id":null}"#,
    ] {
        assert_eq!(complete("getblockcount", ok(body)), missing);
    }
}

#[test]
fn a_result_of_any_kind_but_null_is_handed_on() {
    assert_eq!(complete("m", ok(r#"{"result":false,"id":0}"#)), Ok(Json::Bool(false)));
    assert_eq!(complete("m", ok(r#"{"result":0,"id":0}"#)), Ok(Json::Int(0)));
    assert_eq!(complete("m", ok(r#"{"result":"","id":0}"#)), Ok(text("")));
    assert_eq!(complete("m", ok(r#"{"result":[],"id":0}"#)), Ok(Json::Array(vec![])));
    assert_eq!(complete("m", ok(r#"{"result":{},"id":"x"}"#)), Ok(Json::Object(vec![])));
    assert_eq!(
        complete("m", ok(r#"{"result":0.5,"error":null,"id":0,"more":1}"#)),
        Ok(Json::Real("0.5".to_string()))
    );
}

#[test]
fn a_body_that_is_no_json_is_an_encoding_failure() {
    for body in ["", "<html>", "{\"result\":1", "result"] {
        match complete("m", ok(body)) {
            Err(RpcError::Json(JsonError::Syntax { detail })) => assert!(!detail.is_empty()),
            other => panic!("{:?}", other),
        }
    }
}

#[test]
fn a_document_that_is_no_envelope_is_an_encoding_failure() {
    let fault = |f| Err(RpcError::Json(JsonError::Envelope(f)));
    for body in ["[100,null,0]", "100", "null", "\"x\""] {
        assert_eq!(complete("m", ok(body)), fault(EnvelopeFault::NotAnObject));
    }
    for body in [r#"{}"#, r#"{"result":100,"error":null}"#, r#"{"error":{"code":1,"message":"m"}}"#] {
        assert_eq!(complete("m", ok(body)), fault(EnvelopeFault::MissingId));
    }
    for body in [
        r#"{"error":"boom","id":0}"#,
        r#"{"error":[],"id":0}"#,
        r#"{"error":{},"id":0}"#,
        r#"{"error":{"code":"1","message":"m"},"id":0}"#,
        r#"{"error":{"code":1.5,"message":"m"},"id":0}"#,
        r#"{"error":{"code":9223372036854775808,"message":"m"},"id":0}"#,
        r#"{"error":{"code":1},"id":0}"#,
        r#"{"error":{"code":1,"message":null},"id":0}"#,
        r#"{"error":{"message":"m"},"id":0}"#,
        r#"{"result":100,"error":false,"id":0}"#,
    ] {
        assert_eq!(complete("m", ok(body)), fault(EnvelopeFault::MalformedError));
    }
}

#[test]
fn read_envelope_takes_a_tree_written_by_hand() {
    let doc = Json::Object(vec![
        ("id".to_string(), Json::Int(0)),
        ("error".to_string(), Json::Object(vec![
            ("code".to_string(), Json::UInt(5)),
            ("message".to_string(), text("m")),
        ])),
    ]);
    assert_eq!(
        read_envelope("m", &doc),
        Err(RpcError::Rpc { code: 5, message: "m".to_string(), data: None })
    );
    let doc = Json::Object(vec![
        ("id".to_string(), Json::Int(0)),
        ("result".to_string(), Json::Int(1)),
        ("result".to_string(), Json::Int(2)),
    ]);
    assert_eq!(read_envelope("m", &doc), Ok(Json::Int(2)));
}

#[test]
fn read_error_object_wants_a_code_of_64_bits_and_a_message() {
    let object = |code: Json| {
        Json::Object(vec![("code".to_string(), code), ("message".to_string(), text("m"))])
    };
    assert_eq!(read_error_object(&object(Json::Int(i64::MIN))), Some((i64::MIN, "m".to_string(), None)));
    assert_eq!(read_error_object(&object(Json::UInt(i64::MAX as u64))), Some((i64::MAX, "m".to_string(), None)));
    assert_eq!(read_error_object(&object(Json::UInt(i64::MAX as u64 + 1))), None);
    assert_eq!(read_error_object(&object(Json::Real("1.0".to_string()))), None);
    assert_eq!(read_error_object(&Json::Null), None);
}

#[test]
fn the_counter_moves_whatever_the_outcome() {
    let mut client = RpcClient::new("http://node");
    let failed = client.call("m", vec![], &Untyped, |_| Ok(HttpReply { status: 500, body: vec![] }));
    assert_eq!(failed, Err(RpcError::Http(HttpError::Status { status: 500 })));
    let refused = client.call("m", vec![], &Untyped, |_| ok(r#"{"error":{"code":1,"message":"m"},"id":1}"#));
    assert_eq!(refused, Err(RpcError::Rpc { code: 1, message: "m".to_string(), data: None }));
    assert_eq!(client.prepare("m", vec![]).id, 2);
}

#[test]
fn a_result_of_another_shape_is_an_encoding_failure() {
    let shape = RecordShape {
        fields: vec![FieldSpec { name: "hash".to_string(), kind: FieldKind::Text, required: true }],
    };
    let outcome = complete_as(&shape, "m", ok(r#"{"result":{"hash":5},"id":0}"#));
    assert_eq!(
        outcome,
        Err(RpcError::Json(JsonError::Shape(ShapeError::WrongKind { name: "hash".to_string() })))
    );
    let outcome = complete_as(&shape, "m", ok(r#"{"result":[1],"id":0}"#));
    assert_eq!(outcome, Err(RpcError::Json(JsonError::Shape(ShapeError::NotAnObject))));
    let outcome = complete_as(&shape, "m", ok(r#"{"result":{"hash":5},"error":{"code":2,"message":"e"},"id":0}"#));
    assert_eq!(outcome, Err(RpcError::Rpc { code: 2, message: "e".to_string(), data: None }));
    let outcome = complete_as(&shape, "m", ok(r#"{"result":null,"id":0}"#));
    assert_eq!(outcome, Err(RpcError::MissingResult { method: "m".to_string() }));
}
