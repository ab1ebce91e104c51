use lightning_prune::json::{json_to_text, Json};
use lightning_prune::pruning::{
    decode_lightning_info, getinfo_request, prune_decision, prune_target, pruneblockchain_request,
    PruneErr,
};
use lightning_prune::rpc::{encode_request, JsonRpcV2, JsonRpcV2Id, RpcError, RpcRes, RpcResult};

fn status_response(height: i64) -> RpcRes {
    RpcRes {
        id: JsonRpcV2Id::Num(0),
        jsonrpc: JsonRpcV2,
        result: RpcResult::Result(Json::Obj(vec![(
            "blockheight".to_owned(),
            Json::Num(height),
        )])),
    }
}

#[test]
fn height_1000_margin_100_targets_899_with_one_call() {
    let decision = prune_decision(status_response(1000), 100).unwrap();
    let req = decision.expect("one downstream call expected");
    assert_eq!(
        json_to_text(&encode_request(&req)),
        "{\"id\":0,\"jsonrpc\":\"2.0\",\"method\":\"pruneblockchain\",\"params\":[899]}"
    );
}

#[test]
fn height_50_margin_100_issues_no_call() {
    let decision = prune_decision(status_response(50), 100).unwrap();
    assert!(decision.is_none());
}

#[test]
fn threshold_boundary() {
    // Height equal to the margin is still below the threshold.
    assert_eq!(prune_target(100, 100), None);
    // One past the margin crosses it, targeting height zero.
    assert_eq!(prune_target(101, 100), Some(0));
    assert_eq!(prune_target(1000, 100), Some(899));
    assert_eq!(prune_target(50, 100), None);
    assert_eq!(prune_target(0, 0), None);
    assert_eq!(prune_target(1, 0), Some(0));
}

#[test]
fn backend_error_aborts_the_tick() {
    let res = RpcRes {
        id: JsonRpcV2Id::Num(0),
        jsonrpc: JsonRpcV2,
        result: RpcResult::Error(RpcError {
            code: -5,
            message: "backend failed".to_owned(),
            data: None,
        }),
    };
    match prune_decision(res, 100) {
        Err(PruneErr::Backend(e)) => assert_eq!(e.code, -5),
        _ => panic!("expected the backend's error"),
    }
}

#[test]
fn unreadable_status_aborts_the_tick() {
    let res = RpcRes {
        id: JsonRpcV2Id::Num(0),
        jsonrpc: JsonRpcV2,
        result: RpcResult::Result(Json::Obj(vec![(
            "blockheight".to_owned(),
            Json::Str("tall".to_owned()),
        )])),
    };
    assert!(matches!(prune_decision(res, 100), Err(PruneErr::BadStatus)));
    let negative = RpcRes {
        id: JsonRpcV2Id::Num(0),
        jsonrpc: JsonRpcV2,
        result: RpcResult::Result(Json::Obj(vec![(
            "blockheight".to_owned(),
            Json::Num(-3),
        )])),
    };
    assert!(matches!(prune_decision(negative, 100), Err(PruneErr::BadStatus)));
}

#[test]
fn status_decode_reads_blockheight() {
    let j = Json::Obj(vec![("blockheight".to_owned(), Json::Num(123))]);
    assert_eq!(decode_lightning_info(&j).unwrap().blockheight, 123);
    assert!(decode_lightning_info(&Json::Arr(Vec::new())).is_none());
}

#[test]
fn request_builders_exact_wire_text() {
    assert_eq!(
        json_to_text(&encode_request(&getinfo_request())),
        "{\"id\":0,\"jsonrpc\":\"2.0\",\"method\":\"getinfo\",\"params\":[]}"
    );
    assert_eq!(
        json_to_text(&encode_request(&pruneblockchain_request(899))),
        "{\"id\":0,\"jsonrpc\":\"2.0\",\"method\":\"pruneblockchain\",\"params\":[899]}"
    );
}
