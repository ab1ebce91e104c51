use lightning_prune::init_info::InitInfo;
use lightning_prune::json::{json_to_text, Json};
use lightning_prune::rpc::{JsonRpcV2, JsonRpcV2Id, RpcParams, RpcReq, RpcResult};
use lightning_prune::stdio::{
    decode_lightning_init, default_pruning_interval, handle_getmanifest, handle_init, handle_req,
    process_message, response_wire_text,
};

fn channel() -> (
    crossbeam_channel::Sender<InitInfo>,
    crossbeam_channel::Receiver<InitInfo>,
) {
    crossbeam_channel::bounded(1)
}

fn init_payload(dir: &str, file: &str, interval: Option<Json>) -> Json {
    let mut options: Vec<(String, Json)> = Vec::new();
    if let Some(iv) = interval {
        options.push(("pruning-interval".to_owned(), iv));
    }
    let configuration: Vec<(String, Json)> = vec![
        ("lightning-dir".to_owned(), Json::Str(dir.to_owned())),
        ("rpc-file".to_owned(), Json::Str(file.to_owned())),
        ("startup".to_owned(), Json::Bool(true)),
    ];
    Json::Obj(vec![
        ("options".to_owned(), Json::Obj(options)),
        ("configuration".to_owned(), Json::Obj(configuration)),
    ])
}

const MANIFEST_TEXT: &str = "{\"options\":[{\"name\":\"pruning-interval\",\"type\":\"int\",\
\"default\":600,\"description\":\"number of seconds to wait between pruning checks\"}],\
\"rpcmethods\":[],\"subscriptions\":[],\"hooks\":[],\"features\":{\"node\":\"00000000\",\
\"init\":\"00000000\",\"invoice\":\"00000000\"},\"dynamic\":true}";

#[test]
fn getmanifest_is_static_and_exact() {
    let first = handle_getmanifest().unwrap();
    let second = handle_getmanifest().unwrap();
    assert_eq!(json_to_text(&first), MANIFEST_TEXT);
    assert_eq!(json_to_text(&second), MANIFEST_TEXT);
    assert!(json_to_text(&first).contains("pruning-interval"));
    assert!(json_to_text(&first).contains("600"));
}

#[test]
fn default_interval_is_600() {
    assert_eq!(default_pruning_interval(), 600);
}

#[test]
fn init_delivers_payload_once() {
    let (sender, receiver) = channel();
    let params = RpcParams::ByPosition(vec![init_payload("/tmp/ln", "rpc.sock", None)]);
    let reply = handle_init(&sender, &params).unwrap();
    assert_eq!(json_to_text(&reply), "{}");
    let info = receiver.try_recv().unwrap();
    assert_eq!(info.socket_path, "/tmp/ln/rpc.sock");
    assert_eq!(info.pruning_interval, 600);
}

#[test]
fn init_accepts_named_parameter_and_string_interval() {
    let (sender, receiver) = channel();
    let payload = init_payload("/data", "s", Some(Json::Str("120".to_owned())));
    let named = match payload {
        Json::Obj(fields) => RpcParams::ByName(fields),
        _ => unreachable!(),
    };
    let reply = handle_init(&sender, &named).unwrap();
    assert_eq!(json_to_text(&reply), "{}");
    let info = receiver.try_recv().unwrap();
    assert_eq!(info.socket_path, "/data/s");
    assert_eq!(info.pruning_interval, 120);
}

#[test]
fn init_with_numeric_interval() {
    let (sender, receiver) = channel();
    let params = RpcParams::ByPosition(vec![init_payload("/d", "f", Some(Json::Num(45)))]);
    handle_init(&sender, &params).unwrap();
    assert_eq!(receiver.try_recv().unwrap().pruning_interval, 45);
}

#[test]
fn init_without_arguments_is_code_4() {
    let (sender, receiver) = channel();
    let e = handle_init(&sender, &RpcParams::ByPosition(Vec::new())).unwrap_err();
    assert_eq!(e.code, 4);
    assert_eq!(e.message, "no arguments supplied");
    assert!(e.data.is_none());
    assert!(receiver.try_recv().is_err());
}

#[test]
fn undecodable_init_is_code_5_and_nothing_is_delivered() {
    let (sender, receiver) = channel();
    let params = RpcParams::ByPosition(vec![Json::Num(42)]);
    let e = handle_init(&sender, &params).unwrap_err();
    assert_eq!(e.code, 5);
    assert_eq!(e.message, "params deserialization error");
    match e.data {
        Some(Json::Str(cause)) => assert!(!cause.is_empty()),
        _ => panic!("expected the cause in the data field"),
    }
    assert!(receiver.try_recv().is_err());
}

#[test]
fn ignored_send_still_succeeds() {
    // The one-shot slot is already consumed: the init call must still reply
    // with success.
    let (sender, receiver) = channel();
    let params = RpcParams::ByPosition(vec![init_payload("/a", "b", None)]);
    handle_init(&sender, &params).unwrap();
    drop(receiver);
    let again = handle_init(&sender, &params);
    assert!(again.is_ok());
}

#[test]
fn unknown_method_is_code_3_with_method_as_data() {
    let (sender, _receiver) = channel();
    let req = RpcReq {
        id: Some(JsonRpcV2Id::Num(7)),
        jsonrpc: JsonRpcV2,
        method: "frobnicate".to_owned(),
        params: RpcParams::ByPosition(Vec::new()),
    };
    let e = handle_req(&sender, &req).unwrap_err();
    assert_eq!(e.code, 3);
    assert_eq!(e.message, "unknown method");
    match e.data {
        Some(Json::Str(m)) => assert_eq!(m, "frobnicate"),
        _ => panic!("expected the method name as data"),
    }
}

#[test]
fn frobnicate_call_with_id_7_replies_id_7_code_3() {
    let (sender, _receiver) = channel();
    let req = RpcReq {
        id: Some(JsonRpcV2Id::Num(7)),
        jsonrpc: JsonRpcV2,
        method: "frobnicate".to_owned(),
        params: RpcParams::ByPosition(Vec::new()),
    };
    let res = process_message(&sender, Ok(req)).unwrap();
    assert!(matches!(res.id, JsonRpcV2Id::Num(7)));
    match &res.result {
        RpcResult::Error(e) => assert_eq!(e.code, 3),
        _ => panic!("expected an error payload"),
    }
    assert_eq!(
        response_wire_text(&res),
        "{\"id\":7,\"jsonrpc\":\"2.0\",\"error\":{\"code\":3,\
\"message\":\"unknown method\",\"data\":\"frobnicate\"}}\n\n"
    );
}

#[test]
fn notification_gets_no_reply() {
    let (sender, _receiver) = channel();
    let req = RpcReq {
        id: None,
        jsonrpc: JsonRpcV2,
        method: "frobnicate".to_owned(),
        params: RpcParams::ByPosition(Vec::new()),
    };
    assert!(process_message(&sender, Ok(req)).is_none());
}

#[test]
fn parse_failure_earns_code_1_with_null_id() {
    let (sender, _receiver) = channel();
    let res = process_message(&sender, Err("bad json".to_owned())).unwrap();
    assert!(matches!(res.id, JsonRpcV2Id::Null));
    match &res.result {
        RpcResult::Error(e) => {
            assert_eq!(e.code, 1);
            assert_eq!(e.message, "deserialization error");
            match &e.data {
                Some(Json::Str(s)) => assert_eq!(s, "bad json"),
                _ => panic!("expected the parse failure text as data"),
            }
        },
        _ => panic!("expected an error payload"),
    }
    let text = response_wire_text(&res);
    assert!(text.starts_with("{\"id\":null,\"jsonrpc\":\"2.0\",\"error\":"));
    assert!(text.ends_with("\n\n"));
}

#[test]
fn getmanifest_call_replies_with_document() {
    let (sender, _receiver) = channel();
    let req = RpcReq {
        id: Some(JsonRpcV2Id::Num(2)),
        jsonrpc: JsonRpcV2,
        method: "getmanifest".to_owned(),
        params: RpcParams::ByPosition(Vec::new()),
    };
    let res = process_message(&sender, Ok(req)).unwrap();
    match &res.result {
        RpcResult::Result(doc) => assert_eq!(json_to_text(doc), MANIFEST_TEXT),
        _ => panic!("expected a success payload"),
    }
}

#[test]
fn lightning_init_decode_shapes() {
    assert!(decode_lightning_init(&init_payload("/a", "b", None)).is_some());
    assert!(decode_lightning_init(&Json::Num(1)).is_none());
    // Missing startup flag: the configuration does not decode.
    let broken = Json::Obj(vec![
        ("options".to_owned(), Json::Obj(Vec::new())),
        (
            "configuration".to_owned(),
            Json::Obj(vec![
                ("lightning-dir".to_owned(), Json::Str("/a".to_owned())),
                ("rpc-file".to_owned(), Json::Str("b".to_owned())),
            ]),
        ),
    ]);
    assert!(decode_lightning_init(&broken).is_none());
    // A negative or non-numeric interval does not decode.
    let neg = init_payload("/a", "b", Some(Json::Num(-1)));
    assert!(decode_lightning_init(&neg).is_none());
    let bad = init_payload("/a", "b", Some(Json::Str("12a".to_owned())));
    assert!(decode_lightning_init(&bad).is_none());
}
