//! The JSON-RPC 2.0 envelope codec.
//!
//! Requests and responses are plain data; their wire shape is a JSON value
//! built and read by the verified functions below. Decoding accepts the
//! version marker only as the literal "2.0" (a missing marker defaults to
//! it), tells a missing identifier apart from a present-but-null one, and
//! picks positional or named parameters by the JSON value's own shape.

use vstd::prelude::*;

use crate::json::{
    clone_arr, clone_json, clone_obj, json_to_text, lookup, obj_get, view_arr, view_obj, Json,
    JsonV,
};

verus! {

/// The protocol-version marker: always the literal "2.0" on the wire.
#[derive(Clone, Copy, Debug)]
pub struct JsonRpcV2;

impl Default for JsonRpcV2 {
    fn default() -> (r: Self)
        ensures
            r == JsonRpcV2,
    {
        JsonRpcV2
    }
}

/// A request or response identifier: a number, a string, or null. A null
/// identifier is used for error replies to requests whose own identifier
/// could not be recovered.
#[derive(Debug)]
pub enum JsonRpcV2Id {
    Num(i64),
    Str(String),
    Null,
}

/// The mathematical shape of an identifier.
pub enum IdV {
    Num(int),
    Str(Seq<char>),
    Null,
}

impl View for JsonRpcV2Id {
    type V = IdV;

    open spec fn view(&self) -> IdV {
        match *self {
            JsonRpcV2Id::Num(n) => IdV::Num(n as int),
            JsonRpcV2Id::Str(s) => IdV::Str(s@),
            JsonRpcV2Id::Null => IdV::Null,
        }
    }
}

/// Request parameters: a positional list or a named mapping, told apart on
/// the wire by the JSON value's own shape.
#[derive(Debug)]
pub enum RpcParams {
    ByPosition(Vec<Json>),
    ByName(Vec<(String, Json)>),
}

/// The mathematical shape of request parameters.
pub enum ParamsV {
    ByPosition(Seq<JsonV>),
    ByName(Seq<(Seq<char>, JsonV)>),
}

impl View for RpcParams {
    type V = ParamsV;

    open spec fn view(&self) -> ParamsV {
        match *self {
            RpcParams::ByPosition(a) => ParamsV::ByPosition(view_arr(a@)),
            RpcParams::ByName(o) => ParamsV::ByName(view_obj(o@)),
        }
    }
}

/// A request envelope. A present identifier marks a call expecting a reply;
/// a missing one marks a notification.
#[derive(Debug)]
pub struct RpcReq {
    pub id: Option<JsonRpcV2Id>,
    pub jsonrpc: JsonRpcV2,
    pub method: String,
    pub params: RpcParams,
}

/// The mathematical shape of a request envelope.
pub struct ReqV {
    pub id: Option<IdV>,
    pub method: Seq<char>,
    pub params: ParamsV,
}

impl View for RpcReq {
    type V = ReqV;

    open spec fn view(&self) -> ReqV {
        ReqV {
            id: match self.id {
                Some(i) => Some(i@),
                None => None,
            },
            method: self.method@,
            params: self.params@,
        }
    }
}

/// An error record: a numeric code, a short message, and an optional
/// structured payload.
#[derive(Debug)]
pub struct RpcError {
    pub code: i64,
    pub message: String,
    pub data: Option<Json>,
}

/// The mathematical shape of an error record.
pub struct ErrV {
    pub code: int,
    pub message: Seq<char>,
    pub data: Option<JsonV>,
}

impl View for RpcError {
    type V = ErrV;

    open spec fn view(&self) -> ErrV {
        ErrV {
            code: self.code as int,
            message: self.message@,
            data: match self.data {
                Some(d) => Some(d@),
                None => None,
            },
        }
    }
}

/// A response's payload: a success value or an error record, exactly one of
/// the two, told apart on the wire by the field name that carries it.
#[derive(Debug)]
pub enum RpcResult {
    Result(Json),
    Error(RpcError),
}

/// The mathematical shape of a response payload.
pub enum ResultV {
    Result(JsonV),
    Error(ErrV),
}

impl View for RpcResult {
    type V = ResultV;

    open spec fn view(&self) -> ResultV {
        match *self {
            RpcResult::Result(v) => ResultV::Result(v@),
            RpcResult::Error(e) => ResultV::Error(e@),
        }
    }
}

impl RpcResult {
    /// The payload as an ordinary result.
    pub fn res(self) -> (r: Result<Json, RpcError>)
        ensures
            match self@ {
                ResultV::Result(v) => r is Ok && r->Ok_0@ == v,
                ResultV::Error(e) => r is Err && r->Err_0@ == e,
            },
    {
        match self {
            RpcResult::Result(v) => Ok(v),
            RpcResult::Error(e) => Err(e),
        }
    }
}

/// A response envelope: an identifier (always present, possibly null) and a
/// result-or-error payload.
#[derive(Debug)]
pub struct RpcRes {
    pub id: JsonRpcV2Id,
    pub jsonrpc: JsonRpcV2,
    pub result: RpcResult,
}

/// The mathematical shape of a response envelope.
pub struct ResV {
    pub id: IdV,
    pub result: ResultV,
}

impl View for RpcRes {
    type V = ResV;

    open spec fn view(&self) -> ResV {
        ResV { id: self.id@, result: self.result@ }
    }
}

// ---------------------------------------------------------------------------
// Encoding: envelope to JSON value.
// ---------------------------------------------------------------------------

pub open spec fn json_of_id(id: IdV) -> JsonV {
    match id {
        IdV::Num(n) => JsonV::Num(n),
        IdV::Str(s) => JsonV::Str(s),
        IdV::Null => JsonV::Null,
    }
}

pub open spec fn json_of_params(p: ParamsV) -> JsonV {
    match p {
        ParamsV::ByPosition(a) => JsonV::Arr(a),
        ParamsV::ByName(o) => JsonV::Obj(o),
    }
}

/// The fields of an encoded request: the identifier first when present, then
/// the version marker, the method, and the parameters.
pub open spec fn req_fields(r: ReqV) -> Seq<(Seq<char>, JsonV)> {
    (match r.id {
        Some(id) => seq![("id"@, json_of_id(id))],
        None => Seq::empty(),
    }) + seq![
        ("jsonrpc"@, JsonV::Str("2.0"@)),
        ("method"@, JsonV::Str(r.method)),
        ("params"@, json_of_params(r.params)),
    ]
}

pub open spec fn json_of_req(r: ReqV) -> JsonV {
    JsonV::Obj(req_fields(r))
}

/// The fields of an encoded error record: the data field only when present.
pub open spec fn err_fields(e: ErrV) -> Seq<(Seq<char>, JsonV)> {
    seq![("code"@, JsonV::Num(e.code)), ("message"@, JsonV::Str(e.message))] + (match e.data {
        Some(d) => seq![("data"@, d)],
        None => Seq::empty(),
    })
}

pub open spec fn json_of_err(e: ErrV) -> JsonV {
    JsonV::Obj(err_fields(e))
}

/// The fields of an encoded response: identifier, version marker, then the
/// payload under "result" or "error" by its kind.
pub open spec fn res_fields(r: ResV) -> Seq<(Seq<char>, JsonV)> {
    seq![("id"@, json_of_id(r.id)), ("jsonrpc"@, JsonV::Str("2.0"@))] + (match r.result {
        ResultV::Result(v) => seq![("result"@, v)],
        ResultV::Error(e) => seq![("error"@, json_of_err(e))],
    })
}

pub open spec fn json_of_res(r: ResV) -> JsonV {
    JsonV::Obj(res_fields(r))
}

impl JsonRpcV2Id {
    pub fn to_json(&self) -> (r: Json)
        ensures
            r@ == json_of_id(self@),
    {
        match self {
            JsonRpcV2Id::Num(n) => Json::Num(*n),
            JsonRpcV2Id::Str(s) => Json::Str(s.clone()),
            JsonRpcV2Id::Null => Json::Null,
        }
    }
}

impl RpcParams {
    pub fn to_json(&self) -> (r: Json)
        ensures
            r@ == json_of_params(self@),
    {
        match self {
            RpcParams::ByPosition(a) => Json::Arr(clone_arr(a)),
            RpcParams::ByName(o) => Json::Obj(clone_obj(o)),
        }
    }
}

/// Encodes a request envelope as a JSON value.
pub fn encode_request(req: &RpcReq) -> (r: Json)
    ensures
        r@ == json_of_req(req@),
{
    let mut fields: Vec<(String, Json)> = Vec::new();
    match &req.id {
        Some(id) => {
            fields.push(("id".to_owned(), id.to_json()));
        },
        None => {},
    }
    fields.push(("jsonrpc".to_owned(), Json::Str("2.0".to_owned())));
    fields.push(("method".to_owned(), Json::Str(req.method.clone())));
    fields.push(("params".to_owned(), req.params.to_json()));
    let r = Json::Obj(fields);
    proof {
        crate::json::lemma_view_obj_index(fields@);
        assert(view_obj(fields@) =~= req_fields(req@));
    }
    r
}

/// Encodes an error record as a JSON value.
pub fn encode_error(e: &RpcError) -> (r: Json)
    ensures
        r@ == json_of_err(e@),
{
    let mut fields: Vec<(String, Json)> = Vec::new();
    fields.push(("code".to_owned(), Json::Num(e.code)));
    fields.push(("message".to_owned(), Json::Str(e.message.clone())));
    match &e.data {
        Some(d) => {
            fields.push(("data".to_owned(), clone_json(d)));
        },
        None => {},
    }
    let r = Json::Obj(fields);
    proof {
        crate::json::lemma_view_obj_index(fields@);
        assert(view_obj(fields@) =~= err_fields(e@));
    }
    r
}

/// Encodes a response envelope as a JSON value.
pub fn encode_response(res: &RpcRes) -> (r: Json)
    ensures
        r@ == json_of_res(res@),
{
    let mut fields: Vec<(String, Json)> = Vec::new();
    fields.push(("id".to_owned(), res.id.to_json()));
    fields.push(("jsonrpc".to_owned(), Json::Str("2.0".to_owned())));
    match &res.result {
        RpcResult::Result(v) => {
            fields.push(("result".to_owned(), clone_json(v)));
        },
        RpcResult::Error(e) => {
            fields.push(("error".to_owned(), encode_error(e)));
        },
    }
    let r = Json::Obj(fields);
    proof {
        crate::json::lemma_view_obj_index(fields@);
        assert(view_obj(fields@) =~= res_fields(res@));
    }
    r
}

/// The exact wire text of a request: its JSON text.
pub fn request_wire_text(req: &RpcReq) -> (r: String)
    ensures
        r@ == crate::json::ser_json(json_of_req(req@)),
{
    let j = encode_request(req);
    json_to_text(&j)
}

// ---------------------------------------------------------------------------
// Decoding: JSON value to envelope.
// ---------------------------------------------------------------------------

/// Why a JSON value failed to decode as an envelope.
#[derive(Clone, Copy, Debug, PartialEq, Eq, Structural)]
pub enum DecodeErr {
    /// The envelope is not a JSON object.
    NotAnObject,
    /// The version marker is present but is not the string "2.0".
    BadVersion,
    /// The identifier is present but is not a number, a string, or null.
    BadId,
    /// A request's method is missing or not a string.
    MissingMethod,
    /// A request's parameters are missing or neither array nor object.
    BadParams,
    /// A response's identifier is missing.
    MissingId,
    /// A response carries neither a result nor an error field.
    MissingResult,
    /// A response's error field is not a well-formed error record.
    BadError,
}

/// The version marker rule: absent means the default "2.0"; present, it must
/// be exactly the string "2.0".
pub open spec fn version_field_ok(fields: Seq<(Seq<char>, JsonV)>) -> bool {
    match obj_get(fields, "jsonrpc"@) {
        None => true,
        Some(JsonV::Str(s)) => s == "2.0"@,
        Some(_) => false,
    }
}

pub open spec fn id_of_json(j: JsonV) -> Option<IdV> {
    match j {
        JsonV::Num(n) => Some(IdV::Num(n)),
        JsonV::Str(s) => Some(IdV::Str(s)),
        JsonV::Null => Some(IdV::Null),
        _ => None,
    }
}

/// The identifier rule: a missing field is a notification's missing
/// identifier; a present field — null included — is a present identifier.
pub open spec fn id_field(fields: Seq<(Seq<char>, JsonV)>) -> Result<Option<IdV>, DecodeErr> {
    match obj_get(fields, "id"@) {
        None => Ok(None),
        Some(v) => match id_of_json(v) {
            Some(i) => Ok(Some(i)),
            None => Err(DecodeErr::BadId),
        },
    }
}

/// What a request envelope's fields decode to.
pub open spec fn req_of_fields(fields: Seq<(Seq<char>, JsonV)>) -> Result<ReqV, DecodeErr> {
    if !version_field_ok(fields) {
        Err(DecodeErr::BadVersion)
    } else {
        match id_field(fields) {
            Err(e) => Err(e),
            Ok(id) => match obj_get(fields, "method"@) {
                Some(JsonV::Str(m)) => match obj_get(fields, "params"@) {
                    Some(JsonV::Arr(a)) => Ok(
                        ReqV { id, method: m, params: ParamsV::ByPosition(a) },
                    ),
                    Some(JsonV::Obj(o)) => Ok(ReqV { id, method: m, params: ParamsV::ByName(o) }),
                    _ => Err(DecodeErr::BadParams),
                },
                _ => Err(DecodeErr::MissingMethod),
            },
        }
    }
}

/// What a JSON value decodes to as a request envelope.
pub open spec fn req_of_json(j: JsonV) -> Result<ReqV, DecodeErr> {
    match j {
        JsonV::Obj(fields) => req_of_fields(fields),
        _ => Err(DecodeErr::NotAnObject),
    }
}

/// What a JSON value decodes to as an error record.
pub open spec fn err_of_json(j: JsonV) -> Option<ErrV> {
    match j {
        JsonV::Obj(fields) => match (obj_get(fields, "code"@), obj_get(fields, "message"@)) {
            (Some(JsonV::Num(c)), Some(JsonV::Str(m))) => Some(
                ErrV { code: c, message: m, data: obj_get(fields, "data"@) },
            ),
            _ => None,
        },
        _ => None,
    }
}

/// What a response envelope's fields decode to: a present "result" field
/// wins; otherwise a well-formed "error" field.
pub open spec fn res_of_fields(fields: Seq<(Seq<char>, JsonV)>) -> Result<ResV, DecodeErr> {
    if !version_field_ok(fields) {
        Err(DecodeErr::BadVersion)
    } else {
        match obj_get(fields, "id"@) {
            None => Err(DecodeErr::MissingId),
            Some(v) => match id_of_json(v) {
                None => Err(DecodeErr::BadId),
                Some(id) => match obj_get(fields, "result"@) {
                    Some(r) => Ok(ResV { id, result: ResultV::Result(r) }),
                    None => match obj_get(fields, "error"@) {
                        None => Err(DecodeErr::MissingResult),
                        Some(e) => match err_of_json(e) {
                            Some(ev) => Ok(ResV { id, result: ResultV::Error(ev) }),
                            None => Err(DecodeErr::BadError),
                        },
                    },
                },
            },
        }
    }
}

/// What a JSON value decodes to as a response envelope.
pub open spec fn res_of_json(j: JsonV) -> Result<ResV, DecodeErr> {
    match j {
        JsonV::Obj(fields) => res_of_fields(fields),
        _ => Err(DecodeErr::NotAnObject),
    }
}

/// Checks the version marker of a decoded envelope object.
fn check_version(fields: &Vec<(String, Json)>) -> (r: bool)
    ensures
        r == version_field_ok(view_obj(fields@)),
{
    match lookup(fields, "jsonrpc") {
        None => true,
        Some(Json::Str(s)) => {
            let expected: String = "2.0".to_owned();
            *s == expected
        },
        Some(_) => false,
    }
}

/// Decodes a JSON value as a request envelope.
pub fn decode_request(j: &Json) -> (r: Result<RpcReq, DecodeErr>)
    ensures
        match req_of_json(j@) {
            Ok(rv) => r is Ok && r->Ok_0@ == rv,
            Err(e) => r is Err && r->Err_0 == e,
        },
{
    let fields = match j {
        Json::Obj(f) => f,
        _ => {
            return Err(DecodeErr::NotAnObject);
        },
    };
    proof {
        assert(j@ == JsonV::Obj(view_obj(fields@)));
    }
    if !check_version(fields) {
        return Err(DecodeErr::BadVersion);
    }
    let id: Option<JsonRpcV2Id> = match lookup(fields, "id") {
        None => None,
        Some(Json::Num(n)) => Some(JsonRpcV2Id::Num(*n)),
        Some(Json::Str(s)) => Some(JsonRpcV2Id::Str(s.clone())),
        Some(Json::Null) => Some(JsonRpcV2Id::Null),
        Some(_) => {
            return Err(DecodeErr::BadId);
        },
    };
    let method: String = match lookup(fields, "method") {
        Some(Json::Str(m)) => m.clone(),
        _ => {
            return Err(DecodeErr::MissingMethod);
        },
    };
    let params: RpcParams = match lookup(fields, "params") {
        Some(Json::Arr(a)) => RpcParams::ByPosition(clone_arr(a)),
        Some(Json::Obj(o)) => RpcParams::ByName(clone_obj(o)),
        _ => {
            return Err(DecodeErr::BadParams);
        },
    };
    Ok(RpcReq { id, jsonrpc: JsonRpcV2, method, params })
}

/// Decodes a JSON value as an error record.
fn decode_error(j: &Json) -> (r: Result<RpcError, DecodeErr>)
    ensures
        match err_of_json(j@) {
            Some(ev) => r is Ok && r->Ok_0@ == ev,
            None => r is Err && r->Err_0 == DecodeErr::BadError,
        },
{
    let fields = match j {
        Json::Obj(f) => f,
        _ => {
            return Err(DecodeErr::BadError);
        },
    };
    proof {
        assert(j@ == JsonV::Obj(view_obj(fields@)));
    }
    let code: i64 = match lookup(fields, "code") {
        Some(Json::Num(c)) => *c,
        _ => {
            return Err(DecodeErr::BadError);
        },
    };
    let message: String = match lookup(fields, "message") {
        Some(Json::Str(m)) => m.clone(),
        _ => {
            return Err(DecodeErr::BadError);
        },
    };
    let data: Option<Json> = match lookup(fields, "data") {
        Some(d) => Some(clone_json(d)),
        None => None,
    };
    Ok(RpcError { code, message, data })
}

/// Decodes a JSON value as a response envelope.
pub fn decode_response(j: &Json) -> (r: Result<RpcRes, DecodeErr>)
    ensures
        match res_of_json(j@) {
            Ok(rv) => r is Ok && r->Ok_0@ == rv,
            Err(e) => r is Err && r->Err_0 == e,
        },
{
    let fields = match j {
        Json::Obj(f) => f,
        _ => {
            return Err(DecodeErr::NotAnObject);
        },
    };
    proof {
        assert(j@ == JsonV::Obj(view_obj(fields@)));
    }
    if !check_version(fields) {
        return Err(DecodeErr::BadVersion);
    }
    let id: JsonRpcV2Id = match lookup(fields, "id") {
        None => {
            return Err(DecodeErr::MissingId);
        },
        Some(Json::Num(n)) => JsonRpcV2Id::Num(*n),
        Some(Json::Str(s)) => JsonRpcV2Id::Str(s.clone()),
        Some(Json::Null) => JsonRpcV2Id::Null,
        Some(_) => {
            return Err(DecodeErr::BadId);
        },
    };
    match lookup(fields, "result") {
        Some(v) => {
            let v = clone_json(v);
            return Ok(RpcRes { id, jsonrpc: JsonRpcV2, result: RpcResult::Result(v) });
        },
        None => {},
    }
    match lookup(fields, "error") {
        None => Err(DecodeErr::MissingResult),
        Some(e) => {
            let ev = decode_error(e)?;
            Ok(RpcRes { id, jsonrpc: JsonRpcV2, result: RpcResult::Error(ev) })
        },
    }
}

// ---------------------------------------------------------------------------
// Laws of the codec.
// ---------------------------------------------------------------------------

proof fn lemma_wire_keys_distinct()
    ensures
        "id"@ != "jsonrpc"@,
        "id"@ != "method"@,
        "id"@ != "params"@,
        "id"@ != "result"@,
        "id"@ != "error"@,
        "jsonrpc"@ != "method"@,
        "jsonrpc"@ != "params"@,
        "jsonrpc"@ != "result"@,
        "jsonrpc"@ != "error"@,
        "method"@ != "params"@,
        "result"@ != "error"@,
        "code"@ != "message"@,
        "code"@ != "data"@,
        "message"@ != "data"@,
{
    reveal_strlit("id");
    reveal_strlit("jsonrpc");
    reveal_strlit("method");
    reveal_strlit("params");
    reveal_strlit("result");
    reveal_strlit("error");
    reveal_strlit("code");
    reveal_strlit("message");
    reveal_strlit("data");
    assert("id"@.len() == 2);
    assert("jsonrpc"@.len() == 7);
    assert("method"@.len() == 6);
    assert("params"@.len() == 6);
    assert("result"@.len() == 6);
    assert("error"@.len() == 5);
    assert("code"@.len() == 4);
    assert("message"@.len() == 7);
    assert("data"@.len() == 4);
    assert("method"@[0] == 'm' && "params"@[0] == 'p' && "result"@[0] == 'r');
    assert("code"@[0] == 'c' && "data"@[0] == 'd');
    assert("jsonrpc"@[0] == 'j' && "message"@[0] == 'm');
}

/// LAW (lossless request codec): encoding any request envelope and decoding
/// the result gives back exactly that envelope — for positional and named
/// parameters and for every identifier variant, a present-but-null
/// identifier included.
pub proof fn lemma_request_roundtrip(r: ReqV)
    ensures
        req_of_json(json_of_req(r)) == Ok::<ReqV, DecodeErr>(r),
{
    lemma_wire_keys_distinct();
    let fields = req_fields(r);
    match r.id {
        Some(idv) => {
            assert(fields =~= seq![
                ("id"@, json_of_id(idv)),
                ("jsonrpc"@, JsonV::Str("2.0"@)),
                ("method"@, JsonV::Str(r.method)),
                ("params"@, json_of_params(r.params)),
            ]);
            crate::json::lemma_obj_get_from(fields, "id"@, 0);
            crate::json::lemma_obj_get_from(fields, "jsonrpc"@, 1);
            crate::json::lemma_obj_get_from(fields, "method"@, 2);
            crate::json::lemma_obj_get_from(fields, "params"@, 3);
            assert(obj_get(fields, "id"@) == Some(json_of_id(idv)));
            assert(obj_get(fields, "jsonrpc"@) == Some(JsonV::Str("2.0"@)));
            assert(obj_get(fields, "method"@) == Some(JsonV::Str(r.method)));
            assert(obj_get(fields, "params"@) == Some(json_of_params(r.params)));
            assert(version_field_ok(fields));
            assert(id_of_json(json_of_id(idv)) == Some(idv));
        },
        None => {
            assert(fields =~= seq![
                ("jsonrpc"@, JsonV::Str("2.0"@)),
                ("method"@, JsonV::Str(r.method)),
                ("params"@, json_of_params(r.params)),
            ]);
            crate::json::lemma_obj_get_none(fields, "id"@);
            crate::json::lemma_obj_get_from(fields, "jsonrpc"@, 0);
            crate::json::lemma_obj_get_from(fields, "method"@, 1);
            crate::json::lemma_obj_get_from(fields, "params"@, 2);
            assert(obj_get(fields, "id"@) is None);
            assert(obj_get(fields, "jsonrpc"@) == Some(JsonV::Str("2.0"@)));
            assert(obj_get(fields, "method"@) == Some(JsonV::Str(r.method)));
            assert(obj_get(fields, "params"@) == Some(json_of_params(r.params)));
            assert(version_field_ok(fields));
        },
    }
}

/// LAW (lossless error-record codec): encoding any error record and decoding
/// the result gives back exactly that record, its optional data payload —
/// a present-but-null payload included — preserved.
pub proof fn lemma_error_roundtrip(e: ErrV)
    ensures
        err_of_json(json_of_err(e)) == Some(e),
{
    lemma_wire_keys_distinct();
    let fields = err_fields(e);
    match e.data {
        Some(d) => {
            assert(fields =~= seq![
                ("code"@, JsonV::Num(e.code)),
                ("message"@, JsonV::Str(e.message)),
                ("data"@, d),
            ]);
            crate::json::lemma_obj_get_from(fields, "code"@, 0);
            crate::json::lemma_obj_get_from(fields, "message"@, 1);
            crate::json::lemma_obj_get_from(fields, "data"@, 2);
            assert(obj_get(fields, "code"@) == Some(JsonV::Num(e.code)));
            assert(obj_get(fields, "message"@) == Some(JsonV::Str(e.message)));
            assert(obj_get(fields, "data"@) == Some(d));
        },
        None => {
            assert(fields =~= seq![
                ("code"@, JsonV::Num(e.code)),
                ("message"@, JsonV::Str(e.message)),
            ]);
            crate::json::lemma_obj_get_from(fields, "code"@, 0);
            crate::json::lemma_obj_get_from(fields, "message"@, 1);
            crate::json::lemma_obj_get_none(fields, "data"@);
            assert(obj_get(fields, "code"@) == Some(JsonV::Num(e.code)));
            assert(obj_get(fields, "message"@) == Some(JsonV::Str(e.message)));
            assert(obj_get(fields, "data"@) is None);
        },
    }
}

/// LAW (lossless response codec): encoding any response envelope and
/// decoding the result gives back exactly that envelope — for both the
/// success and the error payload, and for every identifier variant.
pub proof fn lemma_response_roundtrip(r: ResV)
    ensures
        res_of_json(json_of_res(r)) == Ok::<ResV, DecodeErr>(r),
{
    lemma_wire_keys_distinct();
    let fields = res_fields(r);
    match r.result {
        ResultV::Result(v) => {
            assert(fields =~= seq![
                ("id"@, json_of_id(r.id)),
                ("jsonrpc"@, JsonV::Str("2.0"@)),
                ("result"@, v),
            ]);
            crate::json::lemma_obj_get_from(fields, "id"@, 0);
            crate::json::lemma_obj_get_from(fields, "jsonrpc"@, 1);
            crate::json::lemma_obj_get_from(fields, "result"@, 2);
            assert(obj_get(fields, "id"@) == Some(json_of_id(r.id)));
            assert(obj_get(fields, "jsonrpc"@) == Some(JsonV::Str("2.0"@)));
            assert(obj_get(fields, "result"@) == Some(v));
            assert(version_field_ok(fields));
            assert(id_of_json(json_of_id(r.id)) == Some(r.id));
        },
        ResultV::Error(e) => {
            assert(fields =~= seq![
                ("id"@, json_of_id(r.id)),
                ("jsonrpc"@, JsonV::Str("2.0"@)),
                ("error"@, json_of_err(e)),
            ]);
            crate::json::lemma_obj_get_from(fields, "id"@, 0);
            crate::json::lemma_obj_get_from(fields, "jsonrpc"@, 1);
            crate::json::lemma_obj_get_none(fields, "result"@);
            crate::json::lemma_obj_get_from(fields, "error"@, 2);
            assert(obj_get(fields, "id"@) == Some(json_of_id(r.id)));
            assert(obj_get(fields, "jsonrpc"@) == Some(JsonV::Str("2.0"@)));
            assert(obj_get(fields, "result"@) is None);
            assert(obj_get(fields, "error"@) == Some(json_of_err(e)));
            assert(version_field_ok(fields));
            assert(id_of_json(json_of_id(r.id)) == Some(r.id));
            lemma_error_roundtrip(e);
        },
    }
}

/// LAW (strict version marker): an envelope whose version field holds
/// anything but the exact string "2.0" decodes to a version error, as a
/// request and as a response alike.
pub proof fn lemma_version_literal_enforced(fields: Seq<(Seq<char>, JsonV)>, v: JsonV)
    requires
        obj_get(fields, "jsonrpc"@) == Some(v),
        match v {
            JsonV::Str(s) => s != "2.0"@,
            _ => true,
        },
    ensures
        req_of_json(JsonV::Obj(fields)) == Err::<ReqV, DecodeErr>(DecodeErr::BadVersion),
        res_of_json(JsonV::Obj(fields)) == Err::<ResV, DecodeErr>(DecodeErr::BadVersion),
{
    assert(!version_field_ok(fields));
}

/// Wraps a local result as a protocol result: a failure becomes an error
/// record with the given code and message, the failure text carried in the
/// record's data payload.
pub fn with_info<T>(r: Result<T, String>, code: i64, msg: &str) -> (out: Result<T, RpcError>)
    ensures
        r is Ok ==> out is Ok && out->Ok_0 == r->Ok_0,
        r is Err ==> out is Err && out->Err_0@ == (ErrV {
            code: code as int,
            message: msg@,
            data: Some(JsonV::Str(r->Err_0@)),
        }),
{
    match r {
        Ok(t) => Ok(t),
        Err(e) => Err(
            RpcError { code, message: msg.to_owned(), data: Some(Json::Str(e)) },
        ),
    }
}

} // verus!
