use crate::fetch_tool::{
    outcome_of, reply_encodable, Failure, FetchError, FetchPlan, FetchTool, PlanValue, Reply,
};
use crate::json::{fields_value, items_value, json_encode, Json, JsonValue};
use crate::mcp::jsonrpc::{
    ErrorCode, Id, IdValue, JsonRpcRequest, JsonRpcResponse, RequestValue, ResponseValue,
};
use crate::text::str_eq;
use vstd::prelude::*;

verus! {

/// The schema `{"type": kind}`.
pub open spec fn typed(kind: Seq<char>) -> JsonValue {
    JsonValue::Object(seq![("type"@, JsonValue::String(kind))])
}

/// The result of `initialize`: the protocol version and the capabilities.
pub open spec fn initialize_result() -> JsonValue {
    JsonValue::Object(
        seq![
            ("protocolVersion"@, JsonValue::String("2024-11-05"@)),
            ("capabilities"@, JsonValue::Object(seq![("tools"@, JsonValue::Bool(true))])),
        ],
    )
}

/// The properties that the arguments of `fetch` may have, each with its schema.
pub open spec fn fetch_properties() -> JsonValue {
    JsonValue::Object(
        seq![
            ("url"@, typed("string"@)),
            (
                "method"@,
                JsonValue::Object(
                    seq![
                        ("type"@, JsonValue::String("string"@)),
                        ("default"@, JsonValue::String("GET"@)),
                    ],
                ),
            ),
            (
                "headers"@,
                JsonValue::Object(
                    seq![
                        ("type"@, JsonValue::String("object"@)),
                        ("additionalProperties"@, typed("string"@)),
                    ],
                ),
            ),
            (
                "body"@,
                JsonValue::Object(
                    seq![("oneOf"@, JsonValue::Array(seq![typed("string"@), typed("object"@)]))],
                ),
            ),
            ("timeoutMs"@, typed("number"@)),
            ("maxBytes"@, typed("number"@)),
        ],
    )
}

/// The schema of the arguments of `fetch`: an object with the properties
/// above, of which `url` is required, and no others.
pub open spec fn fetch_schema() -> JsonValue {
    JsonValue::Object(
        seq![
            ("type"@, JsonValue::String("object"@)),
            ("properties"@, fetch_properties()),
            ("required"@, JsonValue::Array(seq![JsonValue::String("url"@)])),
            ("additionalProperties"@, JsonValue::Bool(false)),
        ],
    )
}

/// The descriptor of the one tool: its name, its description and the
/// schema of its arguments.
pub open spec fn fetch_descriptor() -> JsonValue {
    JsonValue::Object(
        seq![
            ("name"@, JsonValue::String("fetch"@)),
            (
                "description"@,
                JsonValue::String("Perform HTTP requests with allowlist restrictions"@),
            ),
            ("inputSchema"@, fetch_schema()),
        ],
    )
}

/// The result of `tools/list`: the list that holds the one tool.
pub open spec fn tools_list_result() -> JsonValue {
    JsonValue::Object(seq![("tools"@, JsonValue::Array(seq![fetch_descriptor()]))])
}

/// The tool and the arguments that the parameters of `tools/call` name: the
/// parameters must be an object whose `name` is a string; the arguments are
/// its member `arguments`, or `null` where it has none.
pub open spec fn tool_call_of(params: Option<JsonValue>) -> Option<(Seq<char>, JsonValue)> {
    match params {
        Some(p) => match p.get("name"@) {
            Some(JsonValue::String(name)) => Some(
                (
                    name,
                    match p.get("arguments"@) {
                        Some(arguments) => arguments,
                        None => JsonValue::Null,
                    },
                ),
            ),
            _ => None,
        },
        None => None,
    }
}

/// The response that reports the outcome of a fetch: its result, or an
/// internal error with the failure's message.
pub open spec fn fetch_response(id: IdValue, outcome: Result<JsonValue, Failure>) -> ResponseValue {
    match outcome {
        Ok(value) => ResponseValue::success(id, value),
        Err(failure) => ResponseValue::failure(
            id,
            ErrorCode::InternalError,
            Some(failure.message()),
            None,
        ),
    }
}

/// What is done next for a request.
#[derive(Debug)]
pub enum Step {
    /// The response is known; it is sent.
    Respond(JsonRpcResponse),
    /// The outbound request is made; its outcome decides the response.
    Fetch(FetchPlan),
}

/// The mathematical value of a `Step`.
pub ghost enum StepValue {
    Respond(ResponseValue),
    Fetch(PlanValue),
}

impl View for Step {
    type V = StepValue;

    open spec fn view(&self) -> StepValue {
        match self {
            Step::Respond(response) => StepValue::Respond(response@),
            Step::Fetch(plan) => StepValue::Fetch(plan@),
        }
    }
}

/// What is done first for `tools/call`: invalid parameters and an unknown
/// tool are answered at once, and so is a call for which no request is made;
/// else the request is made.
pub open spec fn tools_call_step(tool: FetchTool, req: RequestValue) -> StepValue {
    match tool_call_of(req.params) {
        None => StepValue::Respond(
            ResponseValue::failure(req.id, ErrorCode::InvalidParams, Some("Invalid params"@), None),
        ),
        Some((name, arguments)) => if name != "fetch"@ {
            StepValue::Respond(
                ResponseValue::failure(
                    req.id,
                    ErrorCode::InvalidParams,
                    Some("Unknown tool"@),
                    None,
                ),
            )
        } else {
            match tool.plan_of(arguments) {
                Ok(plan) => StepValue::Fetch(plan),
                Err(failure) => StepValue::Respond(fetch_response(req.id, Err(failure))),
            }
        },
    }
}

/// What is done first for a request, by its method.
pub open spec fn step_of(tool: FetchTool, req: RequestValue) -> StepValue {
    if req.method == "initialize"@ {
        StepValue::Respond(ResponseValue::success(req.id, initialize_result()))
    } else if req.method == "tools/list"@ {
        StepValue::Respond(ResponseValue::success(req.id, tools_list_result()))
    } else if req.method == "tools/call"@ {
        tools_call_step(tool, req)
    } else {
        StepValue::Respond(
            ResponseValue::failure(
                req.id,
                ErrorCode::MethodNotFound,
                Some("Unknown method"@),
                None,
            ),
        )
    }
}

/// The response to a request, given what comes of the outbound request that
/// it may lead to.
pub open spec fn response_of(tool: FetchTool, req: RequestValue, reply: Reply) -> ResponseValue {
    match step_of(tool, req) {
        StepValue::Respond(response) => response,
        StepValue::Fetch(plan) => fetch_response(
            req.id,
            outcome_of(plan.max_bytes, reply),
        ),
    }
}

/// The bytes written for a message, given what comes of the outbound
/// request that it may lead to: none where the message is no request, else
/// the document of the response.
pub open spec fn answer_of(tool: FetchTool, message: Seq<u8>, reply: Reply) -> Option<Seq<u8>> {
    match RequestValue::of_bytes(message) {
        Some(req) => Some(json_encode(response_of(tool, req, reply).to_json())),
        None => None,
    }
}

/// Builds the object with the one member `name`.
fn single(name: &str, value: Json) -> (r: Json)
    ensures
        r@ == JsonValue::Object(seq![(name@, value@)]),
{
    let mut fields: Vec<(String, Json)> = Vec::new();
    assert(fields_value(fields@) =~= Seq::empty());
    Json::push_member(&mut fields, name, value);
    assert(fields_value(fields@) =~= seq![(name@, value@)]);
    Json::object(fields)
}

/// Builds the object with the two members `first` and `second`.
fn couple(first: &str, one: Json, second: &str, two: Json) -> (r: Json)
    ensures
        r@ == JsonValue::Object(seq![(first@, one@), (second@, two@)]),
{
    let mut fields: Vec<(String, Json)> = Vec::new();
    assert(fields_value(fields@) =~= Seq::empty());
    Json::push_member(&mut fields, first, one);
    Json::push_member(&mut fields, second, two);
    assert(fields_value(fields@) =~= seq![(first@, one@), (second@, two@)]);
    Json::object(fields)
}

/// Builds the schema `{"type": kind}`.
fn typed_schema(kind: &str) -> (r: Json)
    ensures
        r@ == typed(kind@),
{
    single("type", Json::text(kind))
}

/// Answers `initialize` with the protocol version and the capabilities.
pub fn handle_initialize(req: &JsonRpcRequest) -> (r: JsonRpcResponse)
    ensures
        r@ == ResponseValue::success(req.id@, initialize_result()),
{
    let result = couple(
        "protocolVersion",
        Json::text("2024-11-05"),
        "capabilities",
        single("tools", Json::Bool(true)),
    );
    JsonRpcResponse::result(req.id.duplicate(), result)
}

/// Builds the properties that the arguments of `fetch` may have.
fn build_properties() -> (r: Json)
    ensures
        r@ == fetch_properties(),
{
    let mut choices: Vec<Json> = Vec::new();
    choices.push(typed_schema("string"));
    choices.push(typed_schema("object"));
    assert(items_value(choices@) =~= seq![typed("string"@), typed("object"@)]);
    let mut fields: Vec<(String, Json)> = Vec::new();
    assert(fields_value(fields@) =~= Seq::empty());
    Json::push_member(&mut fields, "url", typed_schema("string"));
    Json::push_member(
        &mut fields,
        "method",
        couple("type", Json::text("string"), "default", Json::text("GET")),
    );
    Json::push_member(
        &mut fields,
        "headers",
        couple("type", Json::text("object"), "additionalProperties", typed_schema("string")),
    );
    Json::push_member(&mut fields, "body", single("oneOf", Json::array(choices)));
    Json::push_member(&mut fields, "timeoutMs", typed_schema("number"));
    Json::push_member(&mut fields, "maxBytes", typed_schema("number"));
    assert(fields_value(fields@) =~= fetch_properties()->Object_0);
    Json::object(fields)
}

/// Builds the descriptor of the one tool.
fn build_descriptor() -> (r: Json)
    ensures
        r@ == fetch_descriptor(),
{
    let mut required: Vec<Json> = Vec::new();
    required.push(Json::text("url"));
    assert(items_value(required@) =~= seq![JsonValue::String("url"@)]);
    let mut schema: Vec<(String, Json)> = Vec::new();
    assert(fields_value(schema@) =~= Seq::empty());
    Json::push_member(&mut schema, "type", Json::text("object"));
    Json::push_member(&mut schema, "properties", build_properties());
    Json::push_member(&mut schema, "required", Json::array(required));
    Json::push_member(&mut schema, "additionalProperties", Json::Bool(false));
    assert(fields_value(schema@) =~= fetch_schema()->Object_0);
    let mut fields: Vec<(String, Json)> = Vec::new();
    assert(fields_value(fields@) =~= Seq::empty());
    Json::push_member(&mut fields, "name", Json::text("fetch"));
    Json::push_member(
        &mut fields,
        "description",
        Json::text("Perform HTTP requests with allowlist restrictions"),
    );
    Json::push_member(&mut fields, "inputSchema", Json::object(schema));
    assert(fields_value(fields@) =~= fetch_descriptor()->Object_0);
    Json::object(fields)
}

/// Answers `tools/list` with the list that holds the one tool.
pub fn handle_tools_list(req: &JsonRpcRequest) -> (r: JsonRpcResponse)
    ensures
        r@ == ResponseValue::success(req.id@, tools_list_result()),
{
    let mut tools: Vec<Json> = Vec::new();
    tools.push(build_descriptor());
    assert(items_value(tools@) =~= seq![fetch_descriptor()]);
    JsonRpcResponse::result(req.id.duplicate(), single("tools", Json::array(tools)))
}

/// Builds the response that reports the outcome of a fetch.
pub fn finish_tools_call(id: Id, outcome: Result<Json, FetchError>) -> (r: JsonRpcResponse)
    ensures
        r@ == fetch_response(
            id@,
            match outcome {
                Ok(value) => Ok(value@),
                Err(e) => Err(e@),
            },
        ),
{
    match outcome {
        Ok(value) => JsonRpcResponse::result(id, value),
        Err(e) => JsonRpcResponse::error(id, ErrorCode::InternalError, Some(e.message()), None),
    }
}

/// Starts `tools/call`: answers at once where the parameters are invalid,
/// the tool is unknown or no request is made for the call; else hands back
/// the outbound request to make.
pub fn start_tools_call(req: &JsonRpcRequest, tool: &FetchTool) -> (step: Step)
    ensures
        step@ == tools_call_step(*tool, req@),
{
    let params = match &req.params {
        Some(p) => p,
        None => {
            return Step::Respond(
                JsonRpcResponse::error(
                    req.id.duplicate(),
                    ErrorCode::InvalidParams,
                    Some("Invalid params".to_owned()),
                    None,
                ),
            );
        },
    };
    let name = match params.get("name") {
        Some(Json::String(name)) => name,
        _ => {
            return Step::Respond(
                JsonRpcResponse::error(
                    req.id.duplicate(),
                    ErrorCode::InvalidParams,
                    Some("Invalid params".to_owned()),
                    None,
                ),
            );
        },
    };
    if !str_eq(name.as_str(), "fetch") {
        return Step::Respond(
            JsonRpcResponse::error(
                req.id.duplicate(),
                ErrorCode::InvalidParams,
                Some("Unknown tool".to_owned()),
                None,
            ),
        );
    }
    let outcome = match params.get("arguments") {
        Some(arguments) => tool.prepare(arguments),
        None => tool.prepare(&Json::Null),
    };
    match outcome {
        Ok(plan) => Step::Fetch(plan),
        Err(e) => Step::Respond(finish_tools_call(req.id.duplicate(), Err(e))),
    }
}

/// Decides what is done first for a request, by its method.
pub fn dispatch(req: &JsonRpcRequest, tool: &FetchTool) -> (step: Step)
    ensures
        step@ == step_of(*tool, req@),
{
    if str_eq(req.method.as_str(), "initialize") {
        Step::Respond(handle_initialize(req))
    } else if str_eq(req.method.as_str(), "tools/list") {
        Step::Respond(handle_tools_list(req))
    } else if str_eq(req.method.as_str(), "tools/call") {
        start_tools_call(req, tool)
    } else {
        Step::Respond(
            JsonRpcResponse::error(
                req.id.duplicate(),
                ErrorCode::MethodNotFound,
                Some("Unknown method".to_owned()),
                None,
            ),
        )
    }
}

/// Answers `tools/call`, given what comes of the outbound request that it may lead to.
pub fn handle_tools_call(req: &JsonRpcRequest, tool: &FetchTool, reply: &Reply) -> (r:
    JsonRpcResponse)
    requires
        reply_encodable(*reply),
    ensures
        r@ == match tools_call_step(*tool, req@) {
            StepValue::Respond(response) => response,
            StepValue::Fetch(plan) => fetch_response(
                req.id@,
                outcome_of(plan.max_bytes, *reply),
            ),
        },
{
    match start_tools_call(req, tool) {
        Step::Respond(response) => response,
        Step::Fetch(plan) => finish_tools_call(
            req.id.duplicate(),
            FetchTool::complete(plan.max_bytes, reply),
        ),
    }
}

/// Answers a request, given what comes of the outbound request that it may lead to.
pub fn handle_request(req: &JsonRpcRequest, tool: &FetchTool, reply: &Reply) -> (r: JsonRpcResponse)
    requires
        reply_encodable(*reply),
    ensures
        r@ == response_of(*tool, req@, *reply),
{
    match dispatch(req, tool) {
        Step::Respond(response) => response,
        Step::Fetch(plan) => finish_tools_call(
            req.id.duplicate(),
            FetchTool::complete(plan.max_bytes, reply),
        ),
    }
}

/// Handles one message, given what comes of the outbound request that it
/// may lead to: a message that is no request is passed over in silence; a
/// request is answered with the document of its response.
pub fn handle_message(message: &[u8], tool: &FetchTool, reply: &Reply) -> (r: Option<Vec<u8>>)
    requires
        reply_encodable(*reply),
    ensures
        r is Some <==> answer_of(*tool, message@, *reply) is Some,
        r is Some ==> r->0@ == answer_of(*tool, message@, *reply)->0,
{
    match JsonRpcRequest::decode(message) {
        Some(req) => Some(handle_request(&req, tool, reply).encode()),
        None => None,
    }
}

/// A message that is no JSON document, or none with the shape of a request,
/// gets no answer, whatever would come of a request.
pub proof fn lemma_junk_is_skipped(tool: FetchTool, message: Seq<u8>, reply: Reply)
    requires
        RequestValue::of_bytes(message) is None,
    ensures
        answer_of(tool, message, reply) is None,
{
}

/// Every request gets a response with its own identifier and the version
/// tag, which carries either a result or a failure, never both and never neither.
pub proof fn lemma_response_is_result_or_error(tool: FetchTool, req: RequestValue, reply: Reply)
    ensures
        response_of(tool, req, reply).id == Some(req.id),
        response_of(tool, req, reply).jsonrpc == "2.0"@,
        response_of(tool, req, reply).result is Some <==> response_of(tool, req, reply).error is None,
{
}

/// A request for a method other than the three that are served is answered
/// with the failure that says so.
pub proof fn lemma_unknown_method(tool: FetchTool, req: RequestValue, reply: Reply)
    requires
        req.method != "initialize"@,
        req.method != "tools/list"@,
        req.method != "tools/call"@,
    ensures
        response_of(tool, req, reply).error is Some,
        response_of(tool, req, reply).error->0.code == -32601,
{
}

/// A call for which no outbound request is planned, because its arguments
/// or its URL are rejected, is answered at once with an internal error that
/// carries the reason: no request is made for it.
pub proof fn lemma_rejected_call_is_answered_at_once(
    tool: FetchTool,
    req: RequestValue,
    arguments: JsonValue,
)
    requires
        req.method == "tools/call"@,
        tool_call_of(req.params) == Some(("fetch"@, arguments)),
        tool.plan_of(arguments) is Err,
    ensures
        step_of(tool, req) == StepValue::Respond(
            ResponseValue::failure(
                req.id,
                ErrorCode::InternalError,
                Some(tool.plan_of(arguments)->Err_0.message()),
                None,
            ),
        ),
{
    reveal_strlit("initialize");
    reveal_strlit("tools/list");
    reveal_strlit("tools/call");
    assert("tools/call"@[0] != "initialize"@[0]);
    assert("tools/call"@[6] != "tools/list"@[6]);
}

/// A call whose outbound request gets no response within the timeout is
/// answered with an internal error that says so.
pub proof fn lemma_timeout_is_reported(tool: FetchTool, req: RequestValue)
    requires
        step_of(tool, req) is Fetch,
    ensures
        response_of(tool, req, Reply::TimedOut) == ResponseValue::failure(
            req.id,
            ErrorCode::InternalError,
            Some("request timed out"@),
            None,
        ),
{
}

} // verus!
