use lightning_prune::json::{json_to_text, parse_u64, Json};
use lightning_prune::rpc::{
    decode_request, decode_response, encode_request, encode_response, with_info, DecodeErr,
    JsonRpcV2, JsonRpcV2Id, RpcError, RpcParams, RpcReq, RpcRes, RpcResult,
};

fn text(j: &Json) -> String {
    json_to_text(j)
}

fn req(id: Option<JsonRpcV2Id>, method: &str, params: RpcParams) -> RpcReq {
    RpcReq { id, jsonrpc: JsonRpcV2, method: method.to_owned(), params }
}

#[test]
fn serializer_exact_texts() {
    assert_eq!(text(&Json::Null), "null");
    assert_eq!(text(&Json::Bool(true)), "true");
    assert_eq!(text(&Json::Bool(false)), "false");
    assert_eq!(text(&Json::Num(0)), "0");
    assert_eq!(text(&Json::Num(600)), "600");
    assert_eq!(text(&Json::Num(-42)), "-42");
    assert_eq!(text(&Json::Num(i64::MIN)), "-9223372036854775808");
    assert_eq!(text(&Json::Str("hi".to_owned())), "\"hi\"");
    assert_eq!(
        text(&Json::Str("a\"b\\c\nd".to_owned())),
        "\"a\\\"b\\\\c\\u000ad\""
    );
    assert_eq!(
        text(&Json::Arr(vec![Json::Num(1), Json::Null, Json::Str("x".to_owned())])),
        "[1,null,\"x\"]"
    );
    assert_eq!(
        text(&Json::Obj(vec![
            ("a".to_owned(), Json::Num(1)),
            ("b".to_owned(), Json::Arr(Vec::new())),
        ])),
        "{\"a\":1,\"b\":[]}"
    );
}

#[test]
fn request_roundtrip_positional() {
    let r = req(
        Some(JsonRpcV2Id::Num(7)),
        "getinfo",
        RpcParams::ByPosition(vec![Json::Num(1), Json::Str("x".to_owned())]),
    );
    let wire = encode_request(&r);
    let back = decode_request(&wire).unwrap();
    assert_eq!(text(&encode_request(&back)), text(&encode_request(&r)));
    assert!(matches!(back.id, Some(JsonRpcV2Id::Num(7))));
    assert_eq!(back.method, "getinfo");
    match back.params {
        RpcParams::ByPosition(a) => assert_eq!(a.len(), 2),
        _ => panic!("expected positional parameters"),
    }
}

#[test]
fn request_roundtrip_named() {
    let r = req(
        Some(JsonRpcV2Id::Str("abc".to_owned())),
        "init",
        RpcParams::ByName(vec![("k".to_owned(), Json::Bool(true))]),
    );
    let wire = encode_request(&r);
    let back = decode_request(&wire).unwrap();
    assert_eq!(text(&encode_request(&back)), text(&encode_request(&r)));
    match back.id {
        Some(JsonRpcV2Id::Str(s)) => assert_eq!(s, "abc"),
        _ => panic!("expected a string identifier"),
    }
    match back.params {
        RpcParams::ByName(o) => {
            assert_eq!(o.len(), 1);
            assert_eq!(o[0].0, "k");
        },
        _ => panic!("expected named parameters"),
    }
}

#[test]
fn request_roundtrip_null_and_missing_id() {
    // A present-but-null identifier stays a call with a null identifier.
    let r = req(Some(JsonRpcV2Id::Null), "m", RpcParams::ByPosition(Vec::new()));
    let back = decode_request(&encode_request(&r)).unwrap();
    assert!(matches!(back.id, Some(JsonRpcV2Id::Null)));
    // A missing identifier stays a notification.
    let n = req(None, "m", RpcParams::ByPosition(Vec::new()));
    let back = decode_request(&encode_request(&n)).unwrap();
    assert!(back.id.is_none());
}

#[test]
fn response_roundtrip_result_and_error() {
    let ok = RpcRes {
        id: JsonRpcV2Id::Num(3),
        jsonrpc: JsonRpcV2,
        result: RpcResult::Result(Json::Obj(vec![("h".to_owned(), Json::Num(5))])),
    };
    let back = decode_response(&encode_response(&ok)).unwrap();
    assert_eq!(text(&encode_response(&back)), text(&encode_response(&ok)));

    let err = RpcRes {
        id: JsonRpcV2Id::Null,
        jsonrpc: JsonRpcV2,
        result: RpcResult::Error(RpcError {
            code: 1,
            message: "deserialization error".to_owned(),
            data: Some(Json::Null),
        }),
    };
    let back = decode_response(&encode_response(&err)).unwrap();
    assert_eq!(text(&encode_response(&back)), text(&encode_response(&err)));
    match back.result {
        RpcResult::Error(e) => {
            assert_eq!(e.code, 1);
            assert_eq!(e.message, "deserialization error");
            // The present-but-null data payload survives as present.
            assert!(matches!(e.data, Some(Json::Null)));
        },
        _ => panic!("expected an error payload"),
    }
}

#[test]
fn version_other_than_2_0_fails_decoding() {
    let bad = Json::Obj(vec![
        ("jsonrpc".to_owned(), Json::Str("1.0".to_owned())),
        ("method".to_owned(), Json::Str("m".to_owned())),
        ("params".to_owned(), Json::Arr(Vec::new())),
    ]);
    assert_eq!(decode_request(&bad).unwrap_err(), DecodeErr::BadVersion);
    let bad_res = Json::Obj(vec![
        ("id".to_owned(), Json::Num(1)),
        ("jsonrpc".to_owned(), Json::Str("2.1".to_owned())),
        ("result".to_owned(), Json::Null),
    ]);
    assert_eq!(decode_response(&bad_res).unwrap_err(), DecodeErr::BadVersion);
    let bad_kind = Json::Obj(vec![
        ("jsonrpc".to_owned(), Json::Num(2)),
        ("method".to_owned(), Json::Str("m".to_owned())),
        ("params".to_owned(), Json::Arr(Vec::new())),
    ]);
    assert_eq!(decode_request(&bad_kind).unwrap_err(), DecodeErr::BadVersion);
}

#[test]
fn missing_version_defaults_to_2_0() {
    let j = Json::Obj(vec![
        ("method".to_owned(), Json::Str("m".to_owned())),
        ("params".to_owned(), Json::Arr(Vec::new())),
    ]);
    let back = decode_request(&j).unwrap();
    assert_eq!(back.method, "m");
}

#[test]
fn request_decode_errors() {
    assert_eq!(decode_request(&Json::Num(1)).unwrap_err(), DecodeErr::NotAnObject);
    let no_method = Json::Obj(vec![("params".to_owned(), Json::Arr(Vec::new()))]);
    assert_eq!(decode_request(&no_method).unwrap_err(), DecodeErr::MissingMethod);
    let no_params = Json::Obj(vec![("method".to_owned(), Json::Str("m".to_owned()))]);
    assert_eq!(decode_request(&no_params).unwrap_err(), DecodeErr::BadParams);
    let bad_id = Json::Obj(vec![
        ("id".to_owned(), Json::Bool(true)),
        ("method".to_owned(), Json::Str("m".to_owned())),
        ("params".to_owned(), Json::Arr(Vec::new())),
    ]);
    assert_eq!(decode_request(&bad_id).unwrap_err(), DecodeErr::BadId);
}

#[test]
fn response_decode_errors() {
    assert_eq!(decode_response(&Json::Str("x".to_owned())).unwrap_err(), DecodeErr::NotAnObject);
    let no_id = Json::Obj(vec![("result".to_owned(), Json::Null)]);
    assert_eq!(decode_response(&no_id).unwrap_err(), DecodeErr::MissingId);
    let nothing = Json::Obj(vec![("id".to_owned(), Json::Num(1))]);
    assert_eq!(decode_response(&nothing).unwrap_err(), DecodeErr::MissingResult);
    let bad_err = Json::Obj(vec![
        ("id".to_owned(), Json::Num(1)),
        ("error".to_owned(), Json::Str("boom".to_owned())),
    ]);
    assert_eq!(decode_response(&bad_err).unwrap_err(), DecodeErr::BadError);
}

#[test]
fn with_info_wraps_failure_text() {
    let ok: Result<u32, String> = Ok(9);
    assert_eq!(with_info(ok, 5, "params deserialization error").unwrap(), 9);
    let failed: Result<u32, String> = Err("boom".to_owned());
    let e = with_info(failed, 5, "params deserialization error").unwrap_err();
    assert_eq!(e.code, 5);
    assert_eq!(e.message, "params deserialization error");
    match e.data {
        Some(Json::Str(s)) => assert_eq!(s, "boom"),
        _ => panic!("expected the failure text as data"),
    }
}

#[test]
fn parse_u64_grammar() {
    assert_eq!(parse_u64(&"600".to_owned()), Some(600));
    assert_eq!(parse_u64(&"+42".to_owned()), Some(42));
    assert_eq!(parse_u64(&"0".to_owned()), Some(0));
    assert_eq!(parse_u64(&"".to_owned()), None);
    assert_eq!(parse_u64(&"+".to_owned()), None);
    assert_eq!(parse_u64(&"12a".to_owned()), None);
    assert_eq!(parse_u64(&"-1".to_owned()), None);
    assert_eq!(parse_u64(&"18446744073709551615".to_owned()), Some(u64::MAX));
    assert_eq!(parse_u64(&"18446744073709551616".to_owned()), None);
}
