//! The control-side dispatcher.
//!
//! The controlling host drives this process with newline-delimited JSON-RPC
//! requests. Each parsed message is classified as a call (identifier
//! present) or a notification (identifier absent); calls go to one of a
//! closed set of handlers — the initialization handler and the static
//! capability-description handler — and anything else earns an
//! unknown-method error. The reply for a call carries the caller's
//! identifier and is followed on the wire by the two-newline sentinel. The
//! reading and writing loop itself is the runtime shell's; every decision it
//! takes per message is verified here.

use vstd::prelude::*;

use vstd::string::StringExecFns;

use crate::init_info::InitInfo;
use crate::json::{
    clone_json, clone_obj, json_to_text, lookup, obj_get, parse_u64, parse_u64_chars,
    view_arr, view_obj, Json, JsonV,
};
use crate::rpc::{
    encode_response, json_of_res, ErrV, IdV, JsonRpcV2, JsonRpcV2Id, ParamsV, ReqV, ResV, ResultV,
    RpcError, RpcParams, RpcReq, RpcRes, RpcResult,
};

verus! {

/// The declared shape of crossbeam_channel::Sender, which carries the init
/// payload from the control thread to the asynchronous side.
#[verifier::external_type_specification]
#[verifier::external_body]
#[verifier::reject_recursive_types(T)]
pub struct ExSender<T>(crossbeam_channel::Sender<T>);

/// Relies on crossbeam_channel::Sender::send: attempts the one-shot
/// delivery, returning whether it was accepted. It returns an error once the
/// receive end is gone, and can wait while the bounded slot is full and the
/// receiver still holds its end; nothing is promised of the outcome, and the
/// caller succeeds either way, as the protocol requires.
#[verifier::external_body]
fn send_init(sender: &crossbeam_channel::Sender<InitInfo>, info: InitInfo) -> (r: bool) {
    sender.send(info).is_ok()
}

// ---------------------------------------------------------------------------
// The init payload's wire shape.
// ---------------------------------------------------------------------------

/// The host-side options given to the init call.
#[derive(Debug)]
pub struct LightningOptions {
    pub pruning_interval: u64,
}

/// The host-side configuration given to the init call.
#[derive(Debug)]
pub struct LightningConfig {
    pub lightning_dir: String,
    pub rpc_file: String,
    pub startup: bool,
}

/// The init call's parameter: options and configuration together.
#[derive(Debug)]
pub struct LightningInit {
    pub options: LightningOptions,
    pub configuration: LightningConfig,
}

/// The mathematical shape of the init parameter.
pub struct InitV {
    pub pruning_interval: int,
    pub lightning_dir: Seq<char>,
    pub rpc_file: Seq<char>,
    pub startup: bool,
}

impl View for LightningInit {
    type V = InitV;

    open spec fn view(&self) -> InitV {
        InitV {
            pruning_interval: self.options.pruning_interval as int,
            lightning_dir: self.configuration.lightning_dir@,
            rpc_file: self.configuration.rpc_file@,
            startup: self.configuration.startup,
        }
    }
}

/// The interval in an options object: absent means the default of 600
/// seconds; present, it is a number or a decimal string, in unsigned 64-bit
/// range either way.
pub open spec fn options_of_json(j: JsonV) -> Option<int> {
    match j {
        JsonV::Obj(f) => match obj_get(f, "pruning-interval"@) {
            None => Some(600),
            Some(JsonV::Num(n)) => if 0 <= n <= u64::MAX {
                Some(n)
            } else {
                None
            },
            Some(JsonV::Str(s)) => match parse_u64_chars(s) {
                Some(v) => Some(v as int),
                None => None,
            },
            Some(_) => None,
        },
        _ => None,
    }
}

/// The endpoint parts in a configuration object: the base directory, the
/// relative file name, and the startup flag, all required.
pub open spec fn config_of_json(j: JsonV) -> Option<(Seq<char>, Seq<char>, bool)> {
    match j {
        JsonV::Obj(f) => match (obj_get(f, "lightning-dir"@), obj_get(f, "rpc-file"@), obj_get(
            f,
            "startup"@,
        )) {
            (Some(JsonV::Str(d)), Some(JsonV::Str(rf)), Some(JsonV::Bool(b))) => Some((d, rf, b)),
            _ => None,
        },
        _ => None,
    }
}

/// What a JSON value decodes to as the init parameter.
pub open spec fn init_of_json(j: JsonV) -> Option<InitV> {
    match j {
        JsonV::Obj(f) => match (obj_get(f, "options"@), obj_get(f, "configuration"@)) {
            (Some(o), Some(c)) => match (options_of_json(o), config_of_json(c)) {
                (Some(iv), Some(cv)) => Some(
                    InitV {
                        pruning_interval: iv,
                        lightning_dir: cv.0,
                        rpc_file: cv.1,
                        startup: cv.2,
                    },
                ),
                _ => None,
            },
            _ => None,
        },
        _ => None,
    }
}

/// Decodes the init call's parameter value.
pub fn decode_lightning_init(j: &Json) -> (r: Option<LightningInit>)
    ensures
        match init_of_json(j@) {
            Some(iv) => r is Some && r->0@ == iv,
            None => r is None,
        },
{
    let fields = match j {
        Json::Obj(f) => f,
        _ => {
            return None;
        },
    };
    proof {
        assert(j@ == JsonV::Obj(view_obj(fields@)));
    }
    let options = match lookup(fields, "options") {
        Some(o) => o,
        None => {
            return None;
        },
    };
    let configuration = match lookup(fields, "configuration") {
        Some(c) => c,
        None => {
            return None;
        },
    };
    let opt_fields = match options {
        Json::Obj(f) => f,
        _ => {
            return None;
        },
    };
    let interval: u64 = match lookup(opt_fields, "pruning-interval") {
        None => 600,
        Some(Json::Num(n)) => if *n >= 0 {
            *n as u64
        } else {
            return None;
        },
        Some(Json::Str(s)) => match parse_u64(s) {
            Some(v) => v,
            None => {
                return None;
            },
        },
        Some(_) => {
            return None;
        },
    };
    let conf_fields = match configuration {
        Json::Obj(f) => f,
        _ => {
            return None;
        },
    };
    let dir: String = match lookup(conf_fields, "lightning-dir") {
        Some(Json::Str(d)) => d.clone(),
        _ => {
            return None;
        },
    };
    let file: String = match lookup(conf_fields, "rpc-file") {
        Some(Json::Str(x)) => x.clone(),
        _ => {
            return None;
        },
    };
    let startup: bool = match lookup(conf_fields, "startup") {
        Some(Json::Bool(b)) => *b,
        _ => {
            return None;
        },
    };
    Some(
        LightningInit {
            options: LightningOptions { pruning_interval: interval },
            configuration: LightningConfig { lightning_dir: dir, rpc_file: file, startup },
        },
    )
}

impl LightningInit {
    /// The handoff payload: the joined backend endpoint and the interval.
    pub fn into_init_info(self) -> (r: InitInfo)
        ensures
            r.socket_path@ == self.configuration.lightning_dir@ + "/"@ + self.configuration.rpc_file@,
            r.pruning_interval == self.options.pruning_interval,
    {
        let mut path = self.configuration.lightning_dir;
        path.append("/");
        path.append(self.configuration.rpc_file.as_str());
        InitInfo { socket_path: path, pruning_interval: self.options.pruning_interval }
    }
}

/// The default interval between maintenance ticks, in seconds.
pub fn default_pruning_interval() -> (r: u64)
    ensures
        r == 600,
{
    600
}

// ---------------------------------------------------------------------------
// The handlers.
// ---------------------------------------------------------------------------

/// The single argument of the init call: the first positional parameter, or
/// the whole named mapping as an object.
pub open spec fn init_arg(p: ParamsV) -> Option<JsonV> {
    match p {
        ParamsV::ByPosition(a) => if a.len() > 0 {
            Some(a[0])
        } else {
            None
        },
        ParamsV::ByName(o) => Some(JsonV::Obj(o)),
    }
}

/// The cause text embedded in a failed init reply's data payload.
pub open spec fn init_cause_text() -> Seq<char> {
    "init payload does not fit the expected shape"@
}

/// What the init handler replies: an empty object on success; a missing
/// positional argument earns code 4; a parameter that does not decode as the
/// init payload earns code 5, the cause in the data field.
pub open spec fn init_reply(p: ParamsV) -> Result<JsonV, ErrV> {
    match init_arg(p) {
        None => Err(ErrV { code: 4, message: "no arguments supplied"@, data: None }),
        Some(arg) => match init_of_json(arg) {
            None => Err(
                ErrV {
                    code: 5,
                    message: "params deserialization error"@,
                    data: Some(JsonV::Str(init_cause_text())),
                },
            ),
            Some(_) => Ok(JsonV::Obj(Seq::empty())),
        },
    }
}

/// Handles the init call: decodes the payload, hands it once into the
/// initialization handoff, and replies with an empty object. A delivery the
/// receiver no longer waits for is dropped; the call still succeeds, as the
/// protocol requires. No payload is delivered when decoding fails.
pub fn handle_init(sender: &crossbeam_channel::Sender<InitInfo>, params: &RpcParams) -> (r: Result<
    Json,
    RpcError,
>)
    ensures
        match init_reply(params@) {
            Ok(v) => r is Ok && r->Ok_0@ == v,
            Err(e) => r is Err && r->Err_0@ == e,
        },
{
    let arg: Json = match params {
        RpcParams::ByPosition(a) => {
            if a.len() == 0 {
                return Err(
                    RpcError { code: 4, message: "no arguments supplied".to_owned(), data: None },
                );
            }
            proof {
                crate::json::lemma_view_arr_index(a@);
            }
            clone_json(&a[0])
        },
        RpcParams::ByName(o) => Json::Obj(clone_obj(o)),
    };
    match decode_lightning_init(&arg) {
        None => Err(
            RpcError {
                code: 5,
                message: "params deserialization error".to_owned(),
                data: Some(Json::Str("init payload does not fit the expected shape".to_owned())),
            },
        ),
        Some(li) => {
            let _delivered = send_init(sender, li.into_init_info());
            let reply = Json::Obj(Vec::new());
            proof {
                assert(view_obj(Seq::<(String, Json)>::empty()) =~= Seq::<(
                    Seq<char>,
                    JsonV,
                )>::empty());
            }
            Ok(reply)
        },
    }
}

/// The static capability document: one advertised option — the pruning
/// interval in seconds, defaulting to 600 — and no methods, subscriptions or
/// hooks.
pub open spec fn manifest_v() -> JsonV {
    JsonV::Obj(
        seq![
            (
                "options"@,
                JsonV::Arr(
                    seq![
                        JsonV::Obj(
                            seq![
                                ("name"@, JsonV::Str("pruning-interval"@)),
                                ("type"@, JsonV::Str("int"@)),
                                ("default"@, JsonV::Num(600)),
                                (
                                    "description"@,
                                    JsonV::Str("number of seconds to wait between pruning checks"@),
                                ),
                            ],
                        ),
                    ],
                ),
            ),
            ("rpcmethods"@, JsonV::Arr(Seq::empty())),
            ("subscriptions"@, JsonV::Arr(Seq::empty())),
            ("hooks"@, JsonV::Arr(Seq::empty())),
            (
                "features"@,
                JsonV::Obj(
                    seq![
                        ("node"@, JsonV::Str("00000000"@)),
                        ("init"@, JsonV::Str("00000000"@)),
                        ("invoice"@, JsonV::Str("00000000"@)),
                    ],
                ),
            ),
            ("dynamic"@, JsonV::Bool(true)),
        ],
    )
}

/// Handles the capability call: always the same static document, and it
/// cannot fail.
pub fn handle_getmanifest() -> (r: Result<Json, RpcError>)
    ensures
        r is Ok && r->Ok_0@ == manifest_v(),
{
    let mut option_fields: Vec<(String, Json)> = Vec::new();
    option_fields.push(("name".to_owned(), Json::Str("pruning-interval".to_owned())));
    option_fields.push(("type".to_owned(), Json::Str("int".to_owned())));
    option_fields.push(("default".to_owned(), Json::Num(600)));
    option_fields.push(
        (
            "description".to_owned(),
            Json::Str("number of seconds to wait between pruning checks".to_owned()),
        ),
    );
    let ghost ofv = option_fields@;
    let mut options: Vec<Json> = Vec::new();
    options.push(Json::Obj(option_fields));
    let ghost osv = options@;
    let mut features: Vec<(String, Json)> = Vec::new();
    features.push(("node".to_owned(), Json::Str("00000000".to_owned())));
    features.push(("init".to_owned(), Json::Str("00000000".to_owned())));
    features.push(("invoice".to_owned(), Json::Str("00000000".to_owned())));
    let ghost ffv = features@;
    let mut fields: Vec<(String, Json)> = Vec::new();
    fields.push(("options".to_owned(), Json::Arr(options)));
    fields.push(("rpcmethods".to_owned(), Json::Arr(Vec::new())));
    fields.push(("subscriptions".to_owned(), Json::Arr(Vec::new())));
    fields.push(("hooks".to_owned(), Json::Arr(Vec::new())));
    fields.push(("features".to_owned(), Json::Obj(features)));
    fields.push(("dynamic".to_owned(), Json::Bool(true)));
    let r = Json::Obj(fields);
    proof {
        crate::json::lemma_view_obj_index(ofv);
        assert(view_obj(ofv) =~= seq![
            ("name"@, JsonV::Str("pruning-interval"@)),
            ("type"@, JsonV::Str("int"@)),
            ("default"@, JsonV::Num(600)),
            ("description"@, JsonV::Str("number of seconds to wait between pruning checks"@)),
        ]);
        crate::json::lemma_view_arr_index(osv);
        assert(view_arr(osv) =~= seq![JsonV::Obj(view_obj(ofv))]);
        crate::json::lemma_view_obj_index(ffv);
        assert(view_obj(ffv) =~= seq![
            ("node"@, JsonV::Str("00000000"@)),
            ("init"@, JsonV::Str("00000000"@)),
            ("invoice"@, JsonV::Str("00000000"@)),
        ]);
        crate::json::lemma_view_obj_index(fields@);
        assert(view_arr(Seq::<Json>::empty()) =~= Seq::<JsonV>::empty());
        assert(view_obj(fields@) =~= (match manifest_v() {
            JsonV::Obj(f) => f,
            _ => Seq::empty(),
        }));
    }
    Ok(r)
}

/// Handles a notification: the event handler accepts every event and never
/// replies.
pub fn handle_event(_method: &String, _params: &RpcParams) -> (r: Result<(), String>)
    ensures
        r is Ok,
{
    Ok(())
}

/// What a call's reply payload is, by method name.
pub open spec fn call_reply(rv: ReqV) -> ResultV {
    if rv.method == "init"@ {
        match init_reply(rv.params) {
            Ok(v) => ResultV::Result(v),
            Err(e) => ResultV::Error(e),
        }
    } else if rv.method == "getmanifest"@ {
        ResultV::Result(manifest_v())
    } else {
        ResultV::Error(
            ErrV { code: 3, message: "unknown method"@, data: Some(JsonV::Str(rv.method)) },
        )
    }
}

/// Routes one parsed envelope: a call goes to its handler — an unrecognized
/// method earns code 3 with the method name as data — and a notification
/// goes to the event handler and gets no reply.
pub fn handle_req(sender: &crossbeam_channel::Sender<InitInfo>, req: &RpcReq) -> (r: Result<
    Option<Json>,
    RpcError,
>)
    ensures
        match req@.id {
            None => r is Ok && r->Ok_0 is None,
            Some(_) => match call_reply(req@) {
                ResultV::Result(v) => r is Ok && (match r->Ok_0 {
                    Some(j) => j@ == v,
                    None => false,
                }),
                ResultV::Error(e) => r is Err && r->Err_0@ == e,
            },
        },
{
    match &req.id {
        Some(_) => {
            if req.method == "init".to_owned() {
                match handle_init(sender, &req.params) {
                    Ok(v) => Ok(Some(v)),
                    Err(e) => Err(e),
                }
            } else if req.method == "getmanifest".to_owned() {
                match handle_getmanifest() {
                    Ok(v) => Ok(Some(v)),
                    Err(e) => Err(e),
                }
            } else {
                Err(
                    RpcError {
                        code: 3,
                        message: "unknown method".to_owned(),
                        data: Some(Json::Str(req.method.clone())),
                    },
                )
            }
        },
        None => {
            let _ = handle_event(&req.method, &req.params);
            Ok(None)
        },
    }
}

/// What one control-message cycle replies: a parse failure earns code 1 with
/// a null identifier; a call's reply carries the call's identifier; a
/// notification gets none.
pub open spec fn cycle_reply(parsed: Result<ReqV, Seq<char>>) -> Option<ResV> {
    match parsed {
        Err(e) => Some(
            ResV {
                id: IdV::Null,
                result: ResultV::Error(
                    ErrV {
                        code: 1,
                        message: "deserialization error"@,
                        data: Some(JsonV::Str(e)),
                    },
                ),
            },
        ),
        Ok(rv) => match rv.id {
            None => None,
            Some(id) => Some(ResV { id, result: call_reply(rv) }),
        },
    }
}

/// One cycle of the control loop: takes what parsing one incoming document
/// gave — an envelope or a parse-failure description — and returns the
/// response to write back, if any. The loop around it never stops on a bad
/// message.
pub fn process_message(
    sender: &crossbeam_channel::Sender<InitInfo>,
    parsed: Result<RpcReq, String>,
) -> (r: Option<RpcRes>)
    ensures
        match parsed {
            Err(e) => r is Some && r->0@ == cycle_reply(Err(e@)).unwrap(),
            Ok(req) => match cycle_reply(Ok(req@)) {
                Some(rv) => r is Some && r->0@ == rv,
                None => r is None,
            },
        },
{
    match parsed {
        Err(e) => Some(
            RpcRes {
                id: JsonRpcV2Id::Null,
                jsonrpc: JsonRpcV2,
                result: RpcResult::Error(
                    RpcError {
                        code: 1,
                        message: "deserialization error".to_owned(),
                        data: Some(Json::Str(e)),
                    },
                ),
            },
        ),
        Ok(req) => {
            let outcome = handle_req(sender, &req);
            match req.id {
                None => None,
                Some(id) => {
                    let payload = match outcome {
                        Ok(Some(v)) => RpcResult::Result(v),
                        Ok(None) => {
                            // A call always earns a payload or an error.
                            proof {
                                assert(false);
                            }
                            RpcResult::Result(Json::Null)
                        },
                        Err(e) => RpcResult::Error(e),
                    };
                    Some(RpcRes { id, jsonrpc: JsonRpcV2, result: payload })
                },
            }
        },
    }
}

/// The exact bytes written back for a response: its JSON text followed by
/// the two-newline sentinel that the reading side's framing expects.
pub fn response_wire_text(res: &RpcRes) -> (r: String)
    ensures
        r@ == crate::json::ser_json(json_of_res(res@)) + "\n\n"@,
{
    let j = encode_response(res);
    let mut text = json_to_text(&j);
    text.append("\n\n");
    text
}

/// LAW (sentinel placement): in the wire text of any response — its JSON
/// text followed by the two-newline sentinel — a pair of adjacent newlines
/// occurs only as the final two characters, so the framing scan on the
/// reading side of this convention ends exactly at the message's end.
pub proof fn lemma_response_wire_sentinel_only_at_end(r: ResV)
    ensures
        ({
            let t = crate::json::ser_json(json_of_res(r)) + "\n\n"@;
            forall|i: int|
                0 <= i < t.len() - 2 ==> !((#[trigger] t[i]) == '\n' && t[i + 1] == '\n')
        }),
{
    crate::json::lemma_ser_json_no_control(json_of_res(r));
    let s = crate::json::ser_json(json_of_res(r));
    let t = s + "\n\n"@;
    reveal_strlit("\n\n");
    assert forall|i: int|
        0 <= i < t.len() - 2 implies !((#[trigger] t[i]) == '\n' && t[i + 1] == '\n') by {
        assert(t[i] == s[i]);
        assert((s[i] as u32) >= 32);
    }
}

} // verus!
