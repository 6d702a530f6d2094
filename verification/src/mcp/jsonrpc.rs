use crate::json::{fields_value, json_encode, json_parse, Json, JsonValue, Number, NumberValue};
use vstd::prelude::*;

verus! {

/// The token by which a response is matched to its request.
#[derive(Debug)]
pub enum Id {
    Number(i64),
    String(String),
    Null,
}

/// The mathematical value of an `Id`.
pub ghost enum IdValue {
    Number(i64),
    String(Seq<char>),
    Null,
}

impl View for Id {
    type V = IdValue;

    open spec fn view(&self) -> IdValue {
        match self {
            Id::Number(n) => IdValue::Number(*n),
            Id::String(s) => IdValue::String(s@),
            Id::Null => IdValue::Null,
        }
    }
}

impl IdValue {
    /// The identifier that a JSON value stands for: an integer that fits 64
    /// signed bits, a string, or `null`.
    pub open spec fn of_json(value: JsonValue) -> Option<IdValue> {
        match value {
            JsonValue::Number(NumberValue::Unsigned(u)) => if u <= i64::MAX {
                Some(IdValue::Number(u as i64))
            } else {
                None
            },
            JsonValue::Number(NumberValue::Negative(i)) => Some(IdValue::Number(i)),
            JsonValue::String(s) => Some(IdValue::String(s)),
            JsonValue::Null => Some(IdValue::Null),
            _ => None,
        }
    }

    /// The JSON value that stands for the identifier.
    pub open spec fn to_json(self) -> JsonValue {
        match self {
            IdValue::Number(n) => if n >= 0 {
                JsonValue::Number(NumberValue::Unsigned(n as u64))
            } else {
                JsonValue::Number(NumberValue::Negative(n))
            },
            IdValue::String(s) => JsonValue::String(s),
            IdValue::Null => JsonValue::Null,
        }
    }
}

/// An identifier written as JSON and read back is the same identifier.
pub proof fn lemma_id_round_trip(id: IdValue)
    ensures
        IdValue::of_json(id.to_json()) == Some(id),
{
}

impl Id {
    /// Reads an identifier from a JSON value.
    pub fn from_json(value: &Json) -> (r: Option<Id>)
        ensures
            r is Some <==> IdValue::of_json(value@) is Some,
            r is Some ==> r->0@ == IdValue::of_json(value@)->0,
    {
        match value {
            Json::Number(Number::Unsigned(u)) => if *u <= i64::MAX as u64 {
                Some(Id::Number(*u as i64))
            } else {
                None
            },
            Json::Number(Number::Negative(i)) => Some(Id::Number(*i)),
            Json::String(s) => Some(Id::String(s.clone())),
            Json::Null => Some(Id::Null),
            _ => None,
        }
    }

    /// Writes the identifier as a JSON value.
    pub fn to_json(&self) -> (r: Json)
        ensures
            r@ == self@.to_json(),
    {
        match self {
            Id::Number(n) => if *n >= 0 {
                Json::Number(Number::Unsigned(*n as u64))
            } else {
                Json::Number(Number::Negative(*n))
            },
            Id::String(s) => Json::String(s.clone()),
            Id::Null => Json::Null,
        }
    }

    /// A copy of the identifier.
    pub fn duplicate(&self) -> (r: Id)
        ensures
            r@ == self@,
    {
        match self {
            Id::Number(n) => Id::Number(*n),
            Id::String(s) => Id::String(s.clone()),
            Id::Null => Id::Null,
        }
    }
}

/// The kinds of failure that a response can report.
#[derive(Debug, Copy, Clone, PartialEq, Eq, Structural)]
pub enum ErrorCode {
    ParseError,
    InvalidRequest,
    MethodNotFound,
    InvalidParams,
    InternalError,
}

impl ErrorCode {
    /// The number that stands for the kind of failure on the wire.
    pub open spec fn value(self) -> int {
        match self {
            ErrorCode::ParseError => -32700,
            ErrorCode::InvalidRequest => -32600,
            ErrorCode::MethodNotFound => -32601,
            ErrorCode::InvalidParams => -32602,
            ErrorCode::InternalError => -32603,
        }
    }

    /// The number that stands for the kind of failure on the wire.
    pub fn code(self) -> (c: i32)
        ensures
            c == self.value(),
    {
        match self {
            ErrorCode::ParseError => -32700,
            ErrorCode::InvalidRequest => -32600,
            ErrorCode::MethodNotFound => -32601,
            ErrorCode::InvalidParams => -32602,
            ErrorCode::InternalError => -32603,
        }
    }
}

/// A request: the version tag, the identifier, the method's name and the
/// parameters, where there are any.
#[derive(Debug)]
pub struct JsonRpcRequest {
    pub jsonrpc: String,
    pub id: Id,
    pub method: String,
    pub params: Option<Json>,
}

/// The mathematical value of a request.
pub ghost struct RequestValue {
    pub jsonrpc: Seq<char>,
    pub id: IdValue,
    pub method: Seq<char>,
    pub params: Option<JsonValue>,
}

impl View for JsonRpcRequest {
    type V = RequestValue;

    open spec fn view(&self) -> RequestValue {
        RequestValue {
            jsonrpc: self.jsonrpc@,
            id: self.id@,
            method: self.method@,
            params: match self.params {
                Some(p) => Some(p@),
                None => None,
            },
        }
    }
}

impl RequestValue {
    /// Whether a JSON value has the shape of a request: an object whose
    /// `jsonrpc` and `method` are strings and whose `id` is an identifier.
    pub open spec fn fits(value: JsonValue) -> bool {
        &&& value.get("jsonrpc"@) is Some
        &&& value.get("jsonrpc"@)->0.as_text() is Some
        &&& value.get("id"@) is Some
        &&& IdValue::of_json(value.get("id"@)->0) is Some
        &&& value.get("method"@) is Some
        &&& value.get("method"@)->0.as_text() is Some
    }

    /// The request that a JSON value of that shape stands for. Its
    /// parameters are the member `params`, unless that is missing or `null`.
    pub open spec fn of_json(value: JsonValue) -> Option<RequestValue> {
        if RequestValue::fits(value) {
            Some(
                RequestValue {
                    jsonrpc: value.get("jsonrpc"@)->0.as_text()->0,
                    id: IdValue::of_json(value.get("id"@)->0)->0,
                    method: value.get("method"@)->0.as_text()->0,
                    params: value.optional("params"@),
                },
            )
        } else {
            None
        }
    }

    /// The request that a message holds: the one that its JSON document
    /// stands for, where it is one and has the shape of a request.
    pub open spec fn of_bytes(bytes: Seq<u8>) -> Option<RequestValue> {
        match json_parse(bytes) {
            Some(value) => RequestValue::of_json(value),
            None => None,
        }
    }
}

impl JsonRpcRequest {
    /// Reads a request from a JSON value, or returns `None` where the value
    /// has not the shape of one.
    pub fn from_json(value: &Json) -> (r: Option<JsonRpcRequest>)
        ensures
            r is Some <==> RequestValue::of_json(value@) is Some,
            r is Some ==> r->0@ == RequestValue::of_json(value@)->0,
    {
        let jsonrpc = match value.get("jsonrpc") {
            Some(v) => match v.as_str() {
                Some(s) => s.to_owned(),
                None => {
                    return None;
                },
            },
            None => {
                return None;
            },
        };
        let id = match value.get("id") {
            Some(v) => match Id::from_json(v) {
                Some(id) => id,
                None => {
                    return None;
                },
            },
            None => {
                return None;
            },
        };
        let method = match value.get("method") {
            Some(v) => match v.as_str() {
                Some(s) => s.to_owned(),
                None => {
                    return None;
                },
            },
            None => {
                return None;
            },
        };
        let params = match value.get_optional("params") {
            Some(v) => Some(v.duplicate()),
            None => None,
        };
        Some(JsonRpcRequest { jsonrpc, id, method, params })
    }

    /// Reads a request from the bytes of a message, or returns `None` where
    /// they are no JSON document or one that has not the shape of a request.
    pub fn decode(bytes: &[u8]) -> (r: Option<JsonRpcRequest>)
        ensures
            r is Some <==> RequestValue::of_bytes(bytes@) is Some,
            r is Some ==> r->0@ == RequestValue::of_bytes(bytes@)->0,
    {
        match Json::parse(bytes) {
            Some(value) => JsonRpcRequest::from_json(&value),
            None => None,
        }
    }
}

/// The failure that a response reports.
#[derive(Debug)]
pub struct JsonRpcError {
    pub code: i32,
    pub message: String,
    pub data: Option<Json>,
}

/// The mathematical value of a reported failure.
pub ghost struct ErrorValue {
    pub code: i32,
    pub message: Seq<char>,
    pub data: Option<JsonValue>,
}

impl View for JsonRpcError {
    type V = ErrorValue;

    open spec fn view(&self) -> ErrorValue {
        ErrorValue {
            code: self.code,
            message: self.message@,
            data: match self.data {
                Some(d) => Some(d@),
                None => None,
            },
        }
    }
}

/// The JSON number that stands for an integer of 32 bits.
pub open spec fn integer_json(n: i32) -> JsonValue {
    if n >= 0 {
        JsonValue::Number(NumberValue::Unsigned(n as u64))
    } else {
        JsonValue::Number(NumberValue::Negative(n as i64))
    }
}

/// `fields` with the member `name` at its end where `value` is present.
pub open spec fn with_member(
    fields: Seq<(Seq<char>, JsonValue)>,
    name: Seq<char>,
    value: Option<JsonValue>,
) -> Seq<(Seq<char>, JsonValue)> {
    match value {
        Some(v) => fields.push((name, v)),
        None => fields,
    }
}

impl ErrorValue {
    /// The JSON object that stands for the failure: its code, its message,
    /// and its data where there are any.
    pub open spec fn to_json(self) -> JsonValue {
        JsonValue::Object(
            with_member(
                seq![("code"@, integer_json(self.code)), ("message"@, JsonValue::String(self.message))],
                "data"@,
                self.data,
            ),
        )
    }
}

impl JsonRpcError {
    /// Writes the failure as a JSON object.
    pub fn to_json(&self) -> (r: Json)
        ensures
            r@ == self@.to_json(),
    {
        let mut fields: Vec<(String, Json)> = Vec::new();
        assert(fields_value(fields@) =~= Seq::empty());
        let code = if self.code >= 0 {
            Json::Number(Number::Unsigned(self.code as u64))
        } else {
            Json::Number(Number::Negative(self.code as i64))
        };
        Json::push_member(&mut fields, "code", code);
        Json::push_member(&mut fields, "message", Json::String(self.message.clone()));
        assert(fields_value(fields@) =~= seq![
            ("code"@, integer_json(self.code)),
            ("message"@, JsonValue::String(self.message@)),
        ]);
        match &self.data {
            Some(d) => {
                Json::push_member(&mut fields, "data", d.duplicate());
            },
            None => {},
        }
        Json::object(fields)
    }
}

/// A response: the version tag, the identifier of the request, and either a
/// result or a failure.
#[derive(Debug)]
pub struct JsonRpcResponse {
    pub jsonrpc: String,
    pub id: Option<Id>,
    pub result: Option<Json>,
    pub error: Option<JsonRpcError>,
}

/// The mathematical value of a response.
pub ghost struct ResponseValue {
    pub jsonrpc: Seq<char>,
    pub id: Option<IdValue>,
    pub result: Option<JsonValue>,
    pub error: Option<ErrorValue>,
}

impl View for JsonRpcResponse {
    type V = ResponseValue;

    open spec fn view(&self) -> ResponseValue {
        ResponseValue {
            jsonrpc: self.jsonrpc@,
            id: match self.id {
                Some(id) => Some(id@),
                None => None,
            },
            result: match self.result {
                Some(r) => Some(r@),
                None => None,
            },
            error: match self.error {
                Some(e) => Some(e@),
                None => None,
            },
        }
    }
}

impl ResponseValue {
    /// The response that carries `result` for the request `id`.
    pub open spec fn success(id: IdValue, result: JsonValue) -> ResponseValue {
        ResponseValue { jsonrpc: "2.0"@, id: Some(id), result: Some(result), error: None }
    }

    /// The response that reports a failure for the request `id`; where no
    /// message is given, the message is `Error`.
    pub open spec fn failure(
        id: IdValue,
        code: ErrorCode,
        message: Option<Seq<char>>,
        data: Option<JsonValue>,
    ) -> ResponseValue {
        ResponseValue {
            jsonrpc: "2.0"@,
            id: Some(id),
            result: None,
            error: Some(
                ErrorValue {
                    code: code.value() as i32,
                    message: match message {
                        Some(m) => m,
                        None => "Error"@,
                    },
                    data,
                },
            ),
        }
    }

    /// The JSON object that stands for the response: the version tag, then
    /// the identifier, the result and the failure, each where it is present.
    pub open spec fn to_json(self) -> JsonValue {
        JsonValue::Object(
            with_member(
                with_member(
                    with_member(
                        seq![("jsonrpc"@, JsonValue::String(self.jsonrpc))],
                        "id"@,
                        match self.id {
                            Some(id) => Some(id.to_json()),
                            None => None,
                        },
                    ),
                    "result"@,
                    self.result,
                ),
                "error"@,
                match self.error {
                    Some(e) => Some(e.to_json()),
                    None => None,
                },
            ),
        )
    }
}

impl JsonRpcResponse {
    /// The response that carries `result` for the request `id`.
    pub fn result(id: Id, result: Json) -> (r: JsonRpcResponse)
        ensures
            r@ == ResponseValue::success(id@, result@),
    {
        JsonRpcResponse { jsonrpc: "2.0".to_owned(), id: Some(id), result: Some(result), error: None }
    }

    /// The response that reports a failure for the request `id`; where no
    /// message is given, the message is `Error`.
    pub fn error(id: Id, code: ErrorCode, message: Option<String>, data: Option<Json>) -> (r:
        JsonRpcResponse)
        ensures
            r@ == ResponseValue::failure(
                id@,
                code,
                match message {
                    Some(m) => Some(m@),
                    None => None,
                },
                match data {
                    Some(d) => Some(d@),
                    None => None,
                },
            ),
    {
        let message = match message {
            Some(m) => m,
            None => "Error".to_owned(),
        };
        JsonRpcResponse {
            jsonrpc: "2.0".to_owned(),
            id: Some(id),
            result: None,
            error: Some(JsonRpcError { code: code.code(), message, data }),
        }
    }

    /// Writes the response as a JSON object.
    pub fn to_json(&self) -> (r: Json)
        ensures
            r@ == self@.to_json(),
    {
        let mut fields: Vec<(String, Json)> = Vec::new();
        assert(fields_value(fields@) =~= Seq::empty());
        Json::push_member(&mut fields, "jsonrpc", Json::String(self.jsonrpc.clone()));
        assert(fields_value(fields@) =~= seq![("jsonrpc"@, JsonValue::String(self.jsonrpc@))]);
        match &self.id {
            Some(id) => {
                Json::push_member(&mut fields, "id", id.to_json());
            },
            None => {},
        }
        match &self.result {
            Some(result) => {
                Json::push_member(&mut fields, "result", result.duplicate());
            },
            None => {},
        }
        match &self.error {
            Some(error) => {
                Json::push_member(&mut fields, "error", error.to_json());
            },
            None => {},
        }
        Json::object(fields)
    }

    /// Writes the response as the bytes of a message.
    pub fn encode(&self) -> (bytes: Vec<u8>)
        ensures
            bytes@ == json_encode(self@.to_json()),
    {
        self.to_json().encode()
    }
}

} // verus!
