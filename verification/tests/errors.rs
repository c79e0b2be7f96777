use jsonrpc_client::error::{
    append_integer, append_natural, EnvelopeFault, HttpError, JsonError, RpcError,
    ShapeError,
};
use jsonrpc_client::json::Json;

#[test]
fn every_kind_of_failure_says_what_it_is() {
    let e = RpcError::Http(HttpError::Connection { detail: "connection refused".to_string() });
    assert_eq!(e.describe(), "http error: connection refused");
    let e = RpcError::Http(HttpError::Status { status: 503 });
    assert_eq!(e.describe(), "http error: status 503");
    let e = RpcError::Json(JsonError::Syntax { detail: "expected value at line 1 column 1".to_string() });
    assert_eq!(e.describe(), "json error: expected value at line 1 column 1");
    let e = RpcError::Rpc {
        code: -8,
        message: "Block not found".to_string(),
        data: Some(Json::Int(1)),
    };
    assert_eq!(e.describe(), "rpc error -8: Block not found");
    let e = RpcError::Rpc { code: 0, message: "".to_string(), data: None };
    assert_eq!(e.describe(), "rpc error 0: ");
    let e = RpcError::MissingResult { method: "getblockcount".to_string() };
    assert_eq!(e.describe(), "missing result for rpc call getblockcount");
}

#[test]
fn a_syntax_error_says_what_the_parser_said() {
    match Json::parse(b"{") {
        Err(e) => {
            let detail = e.describe();
            assert_eq!(detail, "EOF while parsing an object at line 1 column 1");
            assert_eq!(RpcError::Json(e).describe(), format!("json error: {}", detail));
        }
        Ok(doc) => panic!("{:?}", doc),
    }
}

#[test]
fn envelope_faults_have_messages_of_their_own() {
    assert_eq!(EnvelopeFault::NotAnObject.describe(), "the response is not an object");
    assert_eq!(EnvelopeFault::MissingId.describe(), "the response has no id");
    assert_eq!(
        EnvelopeFault::MalformedError.describe(),
        "the error of the response is no error object"
    );
    assert_eq!(
        RpcError::Json(JsonError::Envelope(EnvelopeFault::MissingId)).describe(),
        "json error: the response has no id"
    );
}

#[test]
fn shape_errors_name_the_field() {
    assert_eq!(ShapeError::NotAnObject.describe(), "the payload is not an object");
    assert_eq!(
        ShapeError::MissingField { name: "hash".to_string() }.describe(),
        "missing field hash"
    );
    assert_eq!(
        ShapeError::WrongKind { name: "height".to_string() }.describe(),
        "field of another kind than declared: height"
    );
    assert_eq!(ShapeError::NoVariant.describe(), "the payload has the shape of no variant");
    assert_eq!(
        RpcError::Json(JsonError::Shape(ShapeError::NoVariant)).describe(),
        "json error: the payload has the shape of no variant"
    );
    assert_eq!(
        JsonError::Shape(ShapeError::MissingField { name: "".to_string() }).describe(),
        "missing field "
    );
}

#[test]
fn a_status_is_written_in_decimal() {
    for (status, text) in [(0u16, "status 0"), (9, "status 9"), (10, "status 10"), (404, "status 404"), (65535, "status 65535")] {
        assert_eq!(HttpError::Status { status }.describe(), text);
    }
}

#[test]
fn integers_are_written_in_decimal() {
    for n in [0i64, 1, 9, 10, 11, 99, 100, 101, 32601, i64::MAX, -1, -9, -10, -32601, i64::MIN + 1, i64::MIN] {
        let mut text = "x".to_string();
        append_integer(&mut text, n);
        assert_eq!(text, format!("x{}", n));
    }
    for n in [0u64, 5, 10, 1234567890, u64::MAX] {
        let mut text = String::new();
        append_natural(&mut text, n);
        assert_eq!(text, format!("{}", n));
    }
}
