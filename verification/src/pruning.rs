//! The maintenance decision: what one scheduler tick does with the backend's
//! status.
//!
//! Each tick fetches the backend's status over one round trip, and — when
//! the height has crossed the retention margin — issues exactly one
//! downstream call carrying the target height. The round trips themselves
//! are I/O and live in the runtime shell; the decision from status to action
//! is verified here.

use vstd::prelude::*;

use crate::json::{lookup, obj_get, view_arr, Json, JsonV};
use crate::rpc::{
    IdV, JsonRpcV2, JsonRpcV2Id, ParamsV, ReqV, ResultV, RpcError, RpcParams, RpcReq, RpcRes,
    RpcResult,
};

verus! {

/// The backend's status, as far as the scheduler reads it.
#[derive(Debug)]
pub struct LightningInfo {
    pub blockheight: u64,
}

/// The height in a backend status payload: the payload must be an object
/// whose "blockheight" field is a number in the wire's non-negative range.
pub open spec fn height_of_json(j: JsonV) -> Option<int> {
    match j {
        JsonV::Obj(f) => match obj_get(f, "blockheight"@) {
            Some(JsonV::Num(n)) => if 0 <= n <= i64::MAX {
                Some(n)
            } else {
                None
            },
            _ => None,
        },
        _ => None,
    }
}

/// Reads the backend's status out of a result payload.
pub fn decode_lightning_info(j: &Json) -> (r: Option<LightningInfo>)
    ensures
        match height_of_json(j@) {
            Some(h) => r is Some && r->0.blockheight == h,
            None => r is None,
        },
{
    let fields = match j {
        Json::Obj(f) => f,
        _ => {
            return None;
        },
    };
    proof {
        assert(j@ == JsonV::Obj(crate::json::view_obj(fields@)));
    }
    match lookup(fields, "blockheight") {
        Some(Json::Num(n)) => if *n >= 0 {
            Some(LightningInfo { blockheight: *n as u64 })
        } else {
            None
        },
        _ => None,
    }
}

/// The height to prune to, if the status height has crossed the retention
/// margin: the height minus the margin minus one.
pub fn prune_target(blockheight: u64, rescan: u64) -> (r: Option<u64>)
    ensures
        blockheight >= rescan + 1 ==> r == Some((blockheight - rescan - 1) as u64),
        blockheight < rescan + 1 ==> r is None,
{
    if blockheight <= rescan {
        None
    } else {
        Some(blockheight - rescan - 1)
    }
}

/// The status query sent to the backend each tick.
pub open spec fn getinfo_req_v() -> ReqV {
    ReqV {
        id: Some(IdV::Num(0)),
        method: "getinfo"@,
        params: ParamsV::ByPosition(Seq::empty()),
    }
}

pub fn getinfo_request() -> (r: RpcReq)
    ensures
        r@ == getinfo_req_v(),
{
    let r = RpcReq {
        id: Some(JsonRpcV2Id::Num(0)),
        jsonrpc: JsonRpcV2,
        method: "getinfo".to_owned(),
        params: RpcParams::ByPosition(Vec::new()),
    };
    proof {
        assert(view_arr(Seq::<Json>::empty()) =~= Seq::<JsonV>::empty());
    }
    r
}

/// The downstream call carrying the computed target height.
pub open spec fn prune_req_v(t: int) -> ReqV {
    ReqV {
        id: Some(IdV::Num(0)),
        method: "pruneblockchain"@,
        params: ParamsV::ByPosition(seq![JsonV::Num(t)]),
    }
}

pub fn pruneblockchain_request(target: u64) -> (r: RpcReq)
    requires
        target <= i64::MAX,
    ensures
        r@ == prune_req_v(target as int),
{
    let mut params: Vec<Json> = Vec::new();
    params.push(Json::Num(target as i64));
    let r = RpcReq {
        id: Some(JsonRpcV2Id::Num(0)),
        jsonrpc: JsonRpcV2,
        method: "pruneblockchain".to_owned(),
        params: RpcParams::ByPosition(params),
    };
    proof {
        crate::json::lemma_view_arr_index(params@);
        assert(view_arr(params@) =~= seq![JsonV::Num(target as int)]);
    }
    r
}

/// Why a tick gave up.
#[derive(Debug)]
pub enum PruneErr {
    /// The backend answered the status query with its own error record.
    Backend(RpcError),
    /// The backend's status payload lacked a usable height.
    BadStatus,
}

/// One tick's decision, from the backend's answer to the status query:
/// the downstream call to issue — exactly one, carrying the target height —
/// when the margin is crossed; nothing when it is not; an error when the
/// backend failed or its status was unreadable.
pub fn prune_decision(res: RpcRes, rescan: u64) -> (r: Result<Option<RpcReq>, PruneErr>)
    ensures
        match res@.result {
            ResultV::Error(e) => r is Err && (match r->Err_0 {
                PruneErr::Backend(b) => b@ == e,
                PruneErr::BadStatus => false,
            }),
            ResultV::Result(v) => match height_of_json(v) {
                None => r is Err && (match r->Err_0 {
                    PruneErr::Backend(b) => false,
                    PruneErr::BadStatus => true,
                }),
                Some(h) => if h >= rescan + 1 {
                    r is Ok && (match r->Ok_0 {
                        Some(req) => req@ == prune_req_v(h - rescan - 1),
                        None => false,
                    })
                } else {
                    r is Ok && r->Ok_0 is None
                },
            },
        },
{
    match res.result {
        RpcResult::Error(e) => Err(PruneErr::Backend(e)),
        RpcResult::Result(v) => match decode_lightning_info(&v) {
            None => Err(PruneErr::BadStatus),
            Some(info) => match prune_target(info.blockheight, rescan) {
                None => Ok(None),
                Some(t) => Ok(Some(pruneblockchain_request(t))),
            },
        },
    }
}

} // verus!
