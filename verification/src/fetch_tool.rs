use crate::config::{url_parse, Config, ParsedUrl};
use crate::json::{fields_value, items_value, Json, JsonValue, NumberValue};
use crate::text::{str_eq, string_of};
use base64::Engine;
use vstd::prelude::*;

verus! {

/// The body of an outbound request: text that is sent as it is, or a JSON
/// value that is sent as its document.
#[derive(Debug)]
pub enum Body {
    Text(String),
    Json(Json),
}

/// The mathematical value of a `Body`.
pub ghost enum BodyValue {
    Text(Seq<char>),
    Json(JsonValue),
}

impl View for Body {
    type V = BodyValue;

    open spec fn view(&self) -> BodyValue {
        match self {
            Body::Text(s) => BodyValue::Text(s@),
            Body::Json(j) => BodyValue::Json(j@),
        }
    }
}

impl BodyValue {
    /// The body that a JSON value stands for: a string is text, sent as it
    /// is; any other value is sent as JSON.
    pub open spec fn of_json(value: JsonValue) -> BodyValue {
        match value {
            JsonValue::String(s) => BodyValue::Text(s),
            other => BodyValue::Json(other),
        }
    }
}

/// The names and values of a list of headers, one by one.
pub open spec fn pairs_of(pairs: Seq<(String, String)>) -> Seq<(Seq<char>, Seq<char>)> {
    Seq::new(pairs.len(), |i: int| (pairs[i].0@, pairs[i].1@))
}

/// `pairs` without the headers called `name`.
pub open spec fn without_name(pairs: Seq<(Seq<char>, Seq<char>)>, name: Seq<char>) -> Seq<
    (Seq<char>, Seq<char>),
>
    decreases pairs.len(),
{
    if pairs.len() == 0 {
        pairs
    } else if pairs.last().0 == name {
        without_name(pairs.drop_last(), name)
    } else {
        without_name(pairs.drop_last(), name).push(pairs.last())
    }
}

/// The headers that the members of a JSON object give: each member in turn
/// sets the header of its name to its text, in place of an earlier one of
/// that name. `None` where a member is no string.
pub open spec fn header_map(fields: Seq<(Seq<char>, JsonValue)>) -> Option<
    Seq<(Seq<char>, Seq<char>)>,
>
    decreases fields.len(),
{
    if fields.len() == 0 {
        Some(Seq::empty())
    } else {
        match (header_map(fields.drop_last()), fields.last().1.as_text()) {
            (Some(head), Some(text)) => Some(
                without_name(head, fields.last().0).push((fields.last().0, text)),
            ),
            _ => None,
        }
    }
}

/// The headers that a JSON value gives, where it is an object of strings.
pub open spec fn headers_of(value: JsonValue) -> Option<Seq<(Seq<char>, Seq<char>)>> {
    match value {
        JsonValue::Object(fields) => header_map(fields),
        _ => None,
    }
}

/// Copies `pairs` without the headers called `name`.
pub fn remove_name(pairs: &Vec<(String, String)>, name: &str) -> (kept: Vec<(String, String)>)
    ensures
        pairs_of(kept@) == without_name(pairs_of(pairs@), name@),
{
    let mut kept: Vec<(String, String)> = Vec::new();
    let ghost all = pairs_of(pairs@);
    let mut i: usize = 0;
    assert(pairs_of(kept@) =~= without_name(all.take(0), name@));
    while i < pairs.len()
        invariant
            i <= pairs.len(),
            all == pairs_of(pairs@),
            pairs_of(kept@) == without_name(all.take(i as int), name@),
        decreases pairs.len() - i,
    {
        let ghost before = pairs_of(kept@);
        let ghost upto = all.take(i + 1);
        assert(upto.drop_last() == all.take(i as int));
        assert(upto.last() == all[i as int]);
        if !str_eq(pairs[i].0.as_str(), name) {
            kept.push((pairs[i].0.clone(), pairs[i].1.clone()));
            assert(pairs_of(kept@) =~= before.push(all[i as int]));
        }
        i += 1;
    }
    assert(all.take(pairs.len() as int) == all);
    kept
}

/// Reads the headers that a JSON value gives, where it is an object of strings.
pub fn parse_headers(value: &Json) -> (r: Option<Vec<(String, String)>>)
    ensures
        r is Some <==> headers_of(value@) is Some,
        r is Some ==> pairs_of(r->0@) == headers_of(value@)->0,
{
    match value {
        Json::Object(fields) => {
            proof {
                crate::json::lemma_object_value(*fields);
            }
            let ghost all = fields_value(fields@);
            let mut out: Vec<(String, String)> = Vec::new();
            let mut i: usize = 0;
            assert(pairs_of(out@) =~= Seq::empty());
            assert(all.take(0).len() == 0);
            while i < fields.len()
                invariant
                    i <= fields.len(),
                    all == fields_value(fields@),
                    value@ == JsonValue::Object(all),
                    header_map(all.take(i as int)) == Some(pairs_of(out@)),
                decreases fields.len() - i,
            {
                let ghost upto = all.take(i + 1);
                assert(upto.drop_last() == all.take(i as int));
                assert(upto.last() == all[i as int]);
                match fields[i].1.as_str() {
                    Some(text) => {
                        let mut kept = remove_name(&out, fields[i].0.as_str());
                        let ghost head = pairs_of(kept@);
                        kept.push((fields[i].0.clone(), text.to_owned()));
                        assert(pairs_of(kept@) =~= head.push((fields@[i as int].0@, text@)));
                        out = kept;
                    },
                    None => {
                        proof {
                            assert(upto.last().1.as_text() is None);
                            assert(header_map(upto) is None);
                            lemma_header_map_prefix(all, i + 1);
                        }
                        return None;
                    },
                }
                i += 1;
            }
            assert(all.take(fields.len() as int) == all);
            Some(out)
        },
        _ => None,
    }
}

/// Where the members up to some point give no headers, the whole list gives none.
pub proof fn lemma_header_map_prefix(fields: Seq<(Seq<char>, JsonValue)>, k: int)
    requires
        0 <= k <= fields.len(),
        header_map(fields.take(k)) is None,
    ensures
        header_map(fields) is None,
    decreases fields.len(),
{
    if k == fields.len() {
        assert(fields.take(k) == fields);
    } else {
        assert(fields.drop_last().take(k) == fields.take(k));
        lemma_header_map_prefix(fields.drop_last(), k);
    }
}

/// What a call asks for: the URL, and where they are given the method, the
/// headers, the body, the timeout in milliseconds and the largest body to keep.
#[derive(Debug)]
pub struct FetchInput {
    pub url: String,
    pub method: Option<String>,
    pub headers: Option<Vec<(String, String)>>,
    pub body: Option<Body>,
    pub timeout_ms: Option<u64>,
    pub max_bytes: Option<usize>,
}

/// The mathematical value of a `FetchInput`.
pub ghost struct FetchInputValue {
    pub url: Seq<char>,
    pub method: Option<Seq<char>>,
    pub headers: Option<Seq<(Seq<char>, Seq<char>)>>,
    pub body: Option<BodyValue>,
    pub timeout_ms: Option<u64>,
    pub max_bytes: Option<usize>,
}

impl View for FetchInput {
    type V = FetchInputValue;

    open spec fn view(&self) -> FetchInputValue {
        FetchInputValue {
            url: self.url@,
            method: match self.method {
                Some(m) => Some(m@),
                None => None,
            },
            headers: match self.headers {
                Some(h) => Some(pairs_of(h@)),
                None => None,
            },
            body: match self.body {
                Some(b) => Some(b@),
                None => None,
            },
            timeout_ms: self.timeout_ms,
            max_bytes: self.max_bytes,
        }
    }
}

impl FetchInputValue {
    /// Whether the arguments of a call are well formed: `url` is a string,
    /// and of the others each is missing, `null`, or of its kind: `method` a
    /// string, `headers` an object of strings, `timeoutMs` and `maxBytes`
    /// integers from zero up that fit their type.
    pub open spec fn fits(args: JsonValue) -> bool {
        let url = args.get("url"@);
        let method = args.optional("method"@);
        let headers = args.optional("headers"@);
        let timeout = args.optional("timeoutMs"@);
        let max = args.optional("maxBytes"@);
        &&& url is Some && url->0.as_text() is Some
        &&& method is Some ==> method->0.as_text() is Some
        &&& headers is Some ==> headers_of(headers->0) is Some
        &&& timeout is Some ==> timeout->0.as_unsigned() is Some
        &&& max is Some ==> max->0.as_unsigned() is Some && max->0.as_unsigned()->0 <= usize::MAX
    }

    /// What well-formed arguments ask for.
    pub open spec fn of_json(args: JsonValue) -> Option<FetchInputValue> {
        if FetchInputValue::fits(args) {
            Some(
                FetchInputValue {
                    url: args.get("url"@)->0.as_text()->0,
                    method: match args.optional("method"@) {
                        Some(m) => m.as_text(),
                        None => None,
                    },
                    headers: match args.optional("headers"@) {
                        Some(h) => headers_of(h),
                        None => None,
                    },
                    body: match args.optional("body"@) {
                        Some(b) => Some(BodyValue::of_json(b)),
                        None => None,
                    },
                    timeout_ms: match args.optional("timeoutMs"@) {
                        Some(t) => t.as_unsigned(),
                        None => None,
                    },
                    max_bytes: match args.optional("maxBytes"@) {
                        Some(JsonValue::Number(NumberValue::Unsigned(n))) => Some(n as usize),
                        _ => None,
                    },
                },
            )
        } else {
            None
        }
    }
}

impl FetchInput {
    /// Reads what a call asks for from its arguments, or returns `None`
    /// where they are not well formed.
    pub fn from_json(args: &Json) -> (r: Option<FetchInput>)
        ensures
            r is Some <==> FetchInputValue::of_json(args@) is Some,
            r is Some ==> r->0@ == FetchInputValue::of_json(args@)->0,
    {
        let url = match args.get("url") {
            Some(v) => match v.as_str() {
                Some(s) => s.to_owned(),
                None => {
                    return None;
                },
            },
            None => {
                return None;
            },
        };
        let method = match args.get_optional("method") {
            Some(v) => match v.as_str() {
                Some(s) => Some(s.to_owned()),
                None => {
                    return None;
                },
            },
            None => None,
        };
        let headers = match args.get_optional("headers") {
            Some(v) => match parse_headers(v) {
                Some(h) => Some(h),
                None => {
                    return None;
                },
            },
            None => None,
        };
        let body = match args.get_optional("body") {
            Some(v) => match v.as_str() {
                Some(s) => Some(Body::Text(s.to_owned())),
                None => Some(Body::Json(v.duplicate())),
            },
            None => None,
        };
        let timeout_ms = match args.get_optional("timeoutMs") {
            Some(v) => match v.as_u64() {
                Some(n) => Some(n),
                None => {
                    return None;
                },
            },
            None => None,
        };
        let max_bytes = match args.get_optional("maxBytes") {
            Some(v) => match v.as_u64() {
                Some(n) => if n <= usize::MAX as u64 {
                    Some(n as usize)
                } else {
                    return None;
                },
                None => {
                    return None;
                },
            },
            None => None,
        };
        Some(FetchInput { url, method, headers, body, timeout_ms, max_bytes })
    }
}

/// The contents of a list of chunks, one by one.
pub open spec fn chunks_of(chunks: Seq<Vec<u8>>) -> Seq<Seq<u8>> {
    Seq::new(chunks.len(), |i: int| chunks[i]@)
}

/// The bytes of a list of chunks, one chunk after the other.
pub open spec fn joined(chunks: Seq<Seq<u8>>) -> Seq<u8>
    decreases chunks.len(),
{
    if chunks.len() == 0 {
        Seq::empty()
    } else {
        joined(chunks.drop_last()) + chunks.last()
    }
}

/// What is kept of a body under a limit of `max` bytes: all of it and
/// `false` where it fits, else its first `max` bytes and `true`.
pub open spec fn limited(body: Seq<u8>, max: nat) -> (Seq<u8>, bool) {
    if body.len() > max {
        (body.take(max as int), true)
    } else {
        (body, false)
    }
}

/// The chunks up to some point, joined, are the start of all chunks, joined.
pub proof fn lemma_joined_prefix(chunks: Seq<Seq<u8>>, k: int)
    requires
        0 <= k <= chunks.len(),
    ensures
        joined(chunks.take(k)).is_prefix_of(joined(chunks)),
    decreases chunks.len(),
{
    if k == chunks.len() {
        assert(chunks.take(k) == chunks);
    } else {
        assert(chunks.drop_last().take(k) == chunks.take(k));
        lemma_joined_prefix(chunks.drop_last(), k);
        let head = joined(chunks.take(k));
        let most = joined(chunks.drop_last());
        assert(head =~= joined(chunks).subrange(0, head.len() as int)) by {
            assert(head == most.subrange(0, head.len() as int));
        }
    }
}

/// Gathers the chunks of a response body up to a limit.
#[derive(Debug)]
pub struct BodyCollector {
    /// The bytes kept so far.
    pub data: Vec<u8>,
    /// The largest number of bytes that is kept.
    pub max: usize,
    /// Whether bytes were left out because of the limit.
    pub truncated: bool,
}

impl BodyCollector {
    /// No more bytes are kept than the limit allows.
    pub open spec fn wf(&self) -> bool {
        self.data.len() <= self.max
    }

    /// An empty collector with the limit `max`.
    pub fn new(max: usize) -> (c: BodyCollector)
        ensures
            c.wf(),
            c.data@ == Seq::<u8>::empty(),
            c.max == max,
            !c.truncated,
    {
        BodyCollector { data: Vec::new(), max, truncated: false }
    }

    /// Takes the next chunk. Where it fits under the limit it is kept whole;
    /// where it does not, as much of its start is kept as fits, and the
    /// collector is marked truncated. Returns whether more chunks are wanted;
    /// a truncated collector keeps nothing more.
    pub fn accept(&mut self, chunk: &[u8]) -> (more: bool)
        requires
            old(self).wf(),
        ensures
            final(self).wf(),
            final(self).max == old(self).max,
            more == !final(self).truncated,
            old(self).truncated ==> final(self).truncated && final(self).data@ == old(self).data@,
            !old(self).truncated ==> (final(self).data@, final(self).truncated) == limited(
                old(self).data@ + chunk@,
                old(self).max as nat,
            ),
    {
        if self.truncated {
            return false;
        }
        let room = self.max - self.data.len();
        if chunk.len() > room {
            let fitting = vstd::slice::slice_subrange(chunk, 0, room);
            self.data.extend_from_slice(fitting);
            self.truncated = true;
            assert(self.data@ =~= (old(self).data@ + chunk@).take(self.max as int));
            false
        } else {
            self.data.extend_from_slice(chunk);
            true
        }
    }
}

/// Gathers the chunks of a body in order, up to `max` bytes: returns the
/// bytes kept and whether any were left out.
pub fn read_limited(chunks: &Vec<Vec<u8>>, max: usize) -> (r: (Vec<u8>, bool))
    ensures
        (r.0@, r.1) == limited(joined(chunks_of(chunks@)), max as nat),
{
    let mut collector = BodyCollector::new(max);
    let ghost all = chunks_of(chunks@);
    let mut i: usize = 0;
    assert(joined(all.take(0)) =~= Seq::<u8>::empty());
    while i < chunks.len()
        invariant
            i <= chunks.len(),
            all == chunks_of(chunks@),
            collector.wf(),
            collector.max == max,
            !collector.truncated,
            collector.data@ == joined(all.take(i as int)),
        decreases chunks.len() - i,
    {
        let ghost upto = all.take(i + 1);
        assert(upto.drop_last() == all.take(i as int));
        assert(upto.last() == chunks@[i as int]@);
        let more = collector.accept(chunks[i].as_slice());
        if !more {
            proof {
                lemma_joined_prefix(all, i + 1);
                assert(joined(upto).take(max as int) =~= joined(all).take(max as int));
            }
            return (collector.data, true);
        }
        i += 1;
    }
    assert(all.take(chunks.len() as int) == all);
    (collector.data, false)
}

/// Whether a byte may stand in the text of a header value: a visible ASCII
/// character, a space or a tab.
pub open spec fn is_visible(b: u8) -> bool {
    (32 <= b < 127) || b == 9
}

/// The text of a header value: its bytes as characters where all of them
/// may stand in text, else the empty text.
pub open spec fn header_text(value: Seq<u8>) -> Seq<char> {
    if forall|i: int| 0 <= i < value.len() ==> is_visible(#[trigger] value[i]) {
        Seq::new(value.len(), |i: int| value[i] as char)
    } else {
        Seq::empty()
    }
}

/// The headers of a response as text, one for each header received and in
/// the same order.
pub open spec fn headers_text(raw: Seq<(String, Vec<u8>)>) -> Seq<(Seq<char>, Seq<char>)> {
    Seq::new(raw.len(), |i: int| (raw[i].0@, header_text(raw[i].1@)))
}

/// Turns a header value into text; one that holds a byte that may not
/// stand in text becomes the empty text.
pub fn decode_header(value: &Vec<u8>) -> (text: String)
    ensures
        text@ == header_text(value@),
{
    let mut chars: Vec<char> = Vec::new();
    let mut i: usize = 0;
    while i < value.len()
        invariant
            i <= value.len(),
            chars.len() == i,
            forall|k: int| 0 <= k < i ==> is_visible(#[trigger] value@[k]),
            forall|k: int| 0 <= k < i ==> chars@[k] == value@[k] as char,
        decreases value.len() - i,
    {
        let b = value[i];
        if !((32 <= b && b < 127) || b == 9) {
            return String::new();
        }
        chars.push(b as char);
        i += 1;
    }
    assert(chars@ =~= header_text(value@));
    string_of(&chars)
}

/// Gathers the headers of a response as text, in the order received.
pub fn collect_headers(raw: &Vec<(String, Vec<u8>)>) -> (headers: Vec<(String, String)>)
    ensures
        pairs_of(headers@) == headers_text(raw@),
{
    let mut headers: Vec<(String, String)> = Vec::new();
    let mut i: usize = 0;
    while i < raw.len()
        invariant
            i <= raw.len(),
            headers.len() == i,
            forall|k: int|
                0 <= k < i ==> (#[trigger] headers@[k]).0@ == raw@[k].0@ && headers@[k].1@
                    == header_text(raw@[k].1@),
        decreases raw.len() - i,
    {
        headers.push((raw[i].0.clone(), decode_header(&raw[i].1)));
        i += 1;
    }
    assert(pairs_of(headers@) =~= headers_text(raw@));
    headers
}

/// The text that `base64`'s standard engine, with padding, encodes bytes to.
pub uninterp spec fn base64_standard(bytes: Seq<u8>) -> Seq<char>;

/// Whether a body of `len` bytes is short enough for its encoding to be held in memory.
pub open spec fn encodable(len: nat) -> bool {
    len / 3 * 4 + 4 <= isize::MAX
}

/// Trusted: `encode` of `base64::engine::general_purpose::STANDARD`. It
/// panics where the length of the encoding cannot be held; the caller hands
/// in fewer bytes than that.
#[verifier::external_body]
fn base64_text(bytes: &[u8]) -> (text: String)
    requires
        encodable(bytes@.len()),
    ensures
        text@ == base64_standard(bytes@),
{
    base64::engine::general_purpose::STANDARD.encode(bytes)
}

/// Whether `c` may stand in the name of an HTTP method.
pub open spec fn is_token_char(c: char) -> bool {
    let u = c as u32;
    (48 <= u <= 57) || (65 <= u <= 90) || (94 <= u <= 122) || u == 33 || (35 <= u <= 39) || u == 42
        || u == 43 || u == 45 || u == 46 || u == 124 || u == 126
}

/// Whether `name` is the name of an HTTP method: one character or more,
/// each of which may stand in one.
pub open spec fn is_method(name: Seq<char>) -> bool {
    name.len() > 0 && forall|i: int| 0 <= i < name.len() ==> is_token_char(#[trigger] name[i])
}

/// Trusted: whether `reqwest::Method::from_bytes` accepts the bytes of
/// `name`. It accepts any name that is not empty and is made of the
/// characters that its table of method characters holds.
#[verifier::external_body]
fn method_parses(name: &str) -> (ok: bool)
    ensures
        ok == is_method(name@),
{
    reqwest::Method::from_bytes(name.as_bytes()).is_ok()
}

/// The method of the outbound request: the one asked for where it is the
/// name of a method, else `GET`.
pub open spec fn method_of(asked: Option<Seq<char>>) -> Seq<char> {
    match asked {
        Some(name) => if is_method(name) {
            name
        } else {
            "GET"@
        },
        None => "GET"@,
    }
}

/// Why a call failed.
#[derive(Debug)]
pub enum FetchError {
    /// The arguments are not well formed.
    InvalidInput,
    /// The URL cannot be parsed.
    InvalidUrl,
    /// The URL's scheme is neither `http` nor `https`.
    SchemeRejected,
    /// The allowlist does not let the URL through.
    AllowlistRejected,
    /// No response came within the timeout.
    Timeout,
    /// The transfer failed; the text says how.
    Transport(String),
}

/// The mathematical value of a `FetchError`.
pub ghost enum Failure {
    InvalidInput,
    InvalidUrl,
    SchemeRejected,
    AllowlistRejected,
    Timeout,
    Transport(Seq<char>),
}

impl View for FetchError {
    type V = Failure;

    open spec fn view(&self) -> Failure {
        match self {
            FetchError::InvalidInput => Failure::InvalidInput,
            FetchError::InvalidUrl => Failure::InvalidUrl,
            FetchError::SchemeRejected => Failure::SchemeRejected,
            FetchError::AllowlistRejected => Failure::AllowlistRejected,
            FetchError::Timeout => Failure::Timeout,
            FetchError::Transport(text) => Failure::Transport(text@),
        }
    }
}

impl Failure {
    /// The message by which the failure is reported.
    pub open spec fn message(self) -> Seq<char> {
        match self {
            Failure::InvalidInput => "Invalid fetch args"@,
            Failure::InvalidUrl => "Invalid URL"@,
            Failure::SchemeRejected => "Only http and https are allowed"@,
            Failure::AllowlistRejected => "URL not allowed by allowlist"@,
            Failure::Timeout => "request timed out"@,
            Failure::Transport(text) => text,
        }
    }
}

impl FetchError {
    /// The message by which the failure is reported.
    pub fn message(&self) -> (text: String)
        ensures
            text@ == self@.message(),
    {
        match self {
            FetchError::InvalidInput => "Invalid fetch args".to_owned(),
            FetchError::InvalidUrl => "Invalid URL".to_owned(),
            FetchError::SchemeRejected => "Only http and https are allowed".to_owned(),
            FetchError::AllowlistRejected => "URL not allowed by allowlist".to_owned(),
            FetchError::Timeout => "request timed out".to_owned(),
            FetchError::Transport(text) => text.clone(),
        }
    }
}

/// The outbound request that a call leads to, and the limits under which
/// its response is taken.
#[derive(Debug)]
pub struct FetchPlan {
    /// The URL, as serialized after parsing.
    pub url: String,
    pub method: String,
    /// The headers, in the order in which they are applied.
    pub headers: Vec<(String, String)>,
    pub body: Option<Body>,
    pub timeout_ms: u64,
    pub max_bytes: usize,
}

/// The mathematical value of a `FetchPlan`.
pub ghost struct PlanValue {
    pub url: Seq<char>,
    pub method: Seq<char>,
    pub headers: Seq<(Seq<char>, Seq<char>)>,
    pub body: Option<BodyValue>,
    pub timeout_ms: u64,
    pub max_bytes: usize,
}

impl View for FetchPlan {
    type V = PlanValue;

    open spec fn view(&self) -> PlanValue {
        PlanValue {
            url: self.url@,
            method: self.method@,
            headers: pairs_of(self.headers@),
            body: match self.body {
                Some(b) => Some(b@),
                None => None,
            },
            timeout_ms: self.timeout_ms,
            max_bytes: self.max_bytes,
        }
    }
}

/// A response as it came from upstream: the status, the headers with their
/// values as bytes, the chunks of the body in order, and the failure that
/// ended the transfer after them, where one did.
#[derive(Debug)]
pub struct Response {
    pub status: u16,
    pub headers: Vec<(String, Vec<u8>)>,
    pub chunks: Vec<Vec<u8>>,
    pub broken: Option<String>,
}

/// What came of an outbound request.
#[derive(Debug)]
pub enum Reply {
    /// No response came within the timeout.
    TimedOut,
    /// The request failed before a response came; the text says how.
    Failed(String),
    /// A response came.
    Answered(Response),
}

/// The rows of the header list in a result: a pair of strings for each header.
pub open spec fn header_rows(headers: Seq<(Seq<char>, Seq<char>)>) -> Seq<JsonValue> {
    Seq::new(
        headers.len(),
        |i: int|
            JsonValue::Array(seq![JsonValue::String(headers[i].0), JsonValue::String(headers[i].1)]),
    )
}

/// The result of a call: the status, the headers, and the body with the
/// tag of its encoding, its encoded text and whether bytes were left out.
pub open spec fn result_value(
    status: u16,
    headers: Seq<(Seq<char>, Seq<char>)>,
    data: Seq<char>,
    truncated: bool,
) -> JsonValue {
    JsonValue::Object(
        seq![
            ("status"@, JsonValue::Number(NumberValue::Unsigned(status as u64))),
            ("headers"@, JsonValue::Array(header_rows(headers))),
            (
                "body"@,
                JsonValue::Object(
                    seq![
                        ("type"@, JsonValue::String("base64"@)),
                        ("data"@, JsonValue::String(data)),
                        ("truncated"@, JsonValue::Bool(truncated)),
                    ],
                ),
            ),
        ],
    )
}

/// What a reply leads to under a limit of `max` bytes: the failure that it
/// reports, or the result made of the response with its body cut at the
/// limit. A transfer that broke counts as failed unless the limit was
/// passed before it broke.
pub open spec fn outcome_of(max: usize, reply: Reply) -> Result<JsonValue, Failure> {
    match reply {
        Reply::TimedOut => Err(Failure::Timeout),
        Reply::Failed(text) => Err(Failure::Transport(text@)),
        Reply::Answered(response) => {
            let kept = limited(joined(chunks_of(response.chunks@)), max as nat);
            if !kept.1 && response.broken is Some {
                Err(Failure::Transport(response.broken->0@))
            } else {
                Ok(
                    result_value(
                        response.status,
                        headers_text(response.headers@),
                        base64_standard(kept.0),
                        kept.1,
                    ),
                )
            }
        },
    }
}

/// Whether the body of a reply is short enough to be encoded.
pub open spec fn reply_encodable(reply: Reply) -> bool {
    match reply {
        Reply::Answered(response) => encodable(joined(chunks_of(response.chunks@)).len()),
        _ => true,
    }
}

/// Decides whether the encoding of a body of `len` bytes can be held in memory.
pub fn can_encode(len: usize) -> (ok: bool)
    ensures
        ok == encodable(len as nat),
{
    len / 3 <= (isize::MAX as usize - 4) / 4
}

/// Builds the result of a call from the status, the headers as text, the
/// encoded text of the body that was kept and whether bytes were left out.
pub fn result_json(status: u16, headers: &Vec<(String, String)>, data: String, truncated: bool) -> (r:
    Json)
    ensures
        r@ == result_value(status, pairs_of(headers@), data@, truncated),
{
    let mut rows: Vec<Json> = Vec::new();
    let mut i: usize = 0;
    while i < headers.len()
        invariant
            i <= headers.len(),
            rows.len() == i,
            forall|k: int| 0 <= k < i ==> (#[trigger] rows@[k])@ == header_rows(pairs_of(headers@))[k],
        decreases headers.len() - i,
    {
        let mut row: Vec<Json> = Vec::new();
        row.push(Json::text(headers[i].0.as_str()));
        row.push(Json::text(headers[i].1.as_str()));
        let ghost want = seq![
            JsonValue::String(headers@[i as int].0@),
            JsonValue::String(headers@[i as int].1@),
        ];
        assert(items_value(row@) =~= want);
        rows.push(Json::array(row));
        i += 1;
    }
    assert(items_value(rows@) =~= header_rows(pairs_of(headers@)));
    let mut inner: Vec<(String, Json)> = Vec::new();
    assert(fields_value(inner@) =~= Seq::empty());
    Json::push_member(&mut inner, "type", Json::text("base64"));
    let ghost text = data@;
    Json::push_member(&mut inner, "data", Json::String(data));
    Json::push_member(&mut inner, "truncated", Json::Bool(truncated));
    assert(fields_value(inner@) =~= seq![
        ("type"@, JsonValue::String("base64"@)),
        ("data"@, JsonValue::String(text)),
        ("truncated"@, JsonValue::Bool(truncated)),
    ]);
    let mut outer: Vec<(String, Json)> = Vec::new();
    assert(fields_value(outer@) =~= Seq::empty());
    Json::push_member(&mut outer, "status", Json::unsigned(status as u64));
    Json::push_member(&mut outer, "headers", Json::array(rows));
    Json::push_member(&mut outer, "body", Json::object(inner));
    assert(fields_value(outer@) =~= result_value(status, pairs_of(headers@), text, truncated)->Object_0);
    Json::object(outer)
}

/// Builds the result of a call from the status, the headers as text, the
/// body that was kept and whether bytes were left out.
pub fn fetch_result(status: u16, headers: &Vec<(String, String)>, body: &[u8], truncated: bool) -> (r:
    Json)
    requires
        encodable(body@.len()),
    ensures
        r@ == result_value(status, pairs_of(headers@), base64_standard(body@), truncated),
{
    result_json(status, headers, base64_text(body), truncated)
}

/// The fetch tool: the configuration under which every call runs.
#[derive(Debug)]
pub struct FetchTool {
    pub cfg: Config,
}

impl FetchTool {
    /// The tool that runs under the configuration `cfg`.
    pub fn new(cfg: Config) -> (tool: FetchTool)
        ensures
            tool.cfg == cfg,
    {
        FetchTool { cfg }
    }

    /// The outbound request for what a call asks for, given what the URL
    /// parses to and whether the allowlist lets it through, under the
    /// defaults `timeout_ms` and `max_bytes`; or the reason for which there
    /// is none.
    pub open spec fn decide(
        input: FetchInputValue,
        target: Option<(Seq<char>, Seq<char>)>,
        allowed: bool,
        timeout_ms: u64,
        max_bytes: usize,
    ) -> Result<PlanValue, Failure> {
        match target {
            None => Err(Failure::InvalidUrl),
            Some((scheme, href)) => if scheme != "http"@ && scheme != "https"@ {
                Err(Failure::SchemeRejected)
            } else if !allowed {
                Err(Failure::AllowlistRejected)
            } else {
                Ok(
                    PlanValue {
                        url: href,
                        method: method_of(input.method),
                        headers: match input.headers {
                            Some(h) => h,
                            None => Seq::empty(),
                        },
                        body: input.body,
                        timeout_ms: match input.timeout_ms {
                            Some(t) => t,
                            None => timeout_ms,
                        },
                        max_bytes: match input.max_bytes {
                            Some(m) => m,
                            None => max_bytes,
                        },
                    },
                )
            },
        }
    }

    /// The outbound request that the arguments of a call lead to, or the
    /// reason for which there is none. The arguments must be well formed and
    /// the URL must parse; its scheme must be `http` or `https` and the
    /// allowlist must let it through. The method is the one asked for where
    /// it is the name of a method, else `GET`; the timeout and the limit are
    /// the ones asked for, else those of the configuration.
    pub open spec fn plan_of(&self, args: JsonValue) -> Result<PlanValue, Failure> {
        match FetchInputValue::of_json(args) {
            None => Err(Failure::InvalidInput),
            Some(input) => FetchTool::decide(
                input,
                url_parse(input.url),
                match url_parse(input.url) {
                    Some((scheme, href)) => self.cfg.allows(href),
                    None => false,
                },
                self.cfg.timeout_ms,
                self.cfg.max_bytes,
            ),
        }
    }

    /// What a call comes to, given its arguments and what comes of the
    /// outbound request: the reason for which no request is made, else what
    /// the reply leads to under the limit of the request.
    pub open spec fn call_of(&self, args: JsonValue, reply: Reply) -> Result<JsonValue, Failure> {
        match self.plan_of(args) {
            Err(failure) => Err(failure),
            Ok(plan) => outcome_of(plan.max_bytes, reply),
        }
    }

    /// Decides on the outbound request for what a call asks for, given what
    /// the URL parsed to and whether the allowlist lets it through, under
    /// the defaults `timeout_ms` and `max_bytes`.
    pub fn plan(
        input: FetchInput,
        target: Option<ParsedUrl>,
        allowed: bool,
        timeout_ms: u64,
        max_bytes: usize,
    ) -> (r: Result<FetchPlan, FetchError>)
        ensures
            match FetchTool::decide(
                input@,
                match target {
                    Some(t) => Some((t.scheme@, t.href@)),
                    None => None,
                },
                allowed,
                timeout_ms,
                max_bytes,
            ) {
                Ok(plan) => r is Ok && r->Ok_0@ == plan,
                Err(failure) => r is Err && r->Err_0@ == failure,
            },
    {
        let target = match target {
            Some(target) => target,
            None => {
                return Err(FetchError::InvalidUrl);
            },
        };
        if !str_eq(target.scheme.as_str(), "http") && !str_eq(target.scheme.as_str(), "https") {
            return Err(FetchError::SchemeRejected);
        }
        if !allowed {
            return Err(FetchError::AllowlistRejected);
        }
        let FetchInput { url: _, method, headers, body, timeout_ms: asked_timeout, max_bytes: asked_max } =
            input;
        let method = match method {
            Some(name) => if method_parses(name.as_str()) {
                name
            } else {
                "GET".to_owned()
            },
            None => "GET".to_owned(),
        };
        let headers = match headers {
            Some(h) => h,
            None => Vec::new(),
        };
        assert(headers@.len() == 0 ==> pairs_of(headers@) =~= Seq::empty());
        Ok(
            FetchPlan {
                url: target.href,
                method,
                headers,
                body,
                timeout_ms: match asked_timeout {
                    Some(t) => t,
                    None => timeout_ms,
                },
                max_bytes: match asked_max {
                    Some(m) => m,
                    None => max_bytes,
                },
            },
        )
    }

    /// Works out the outbound request for the arguments of a call, before
    /// anything is sent.
    pub fn prepare(&self, args: &Json) -> (r: Result<FetchPlan, FetchError>)
        ensures
            match self.plan_of(args@) {
                Ok(plan) => r is Ok && r->Ok_0@ == plan,
                Err(failure) => r is Err && r->Err_0@ == failure,
            },
    {
        let input = match FetchInput::from_json(args) {
            Some(input) => input,
            None => {
                return Err(FetchError::InvalidInput);
            },
        };
        let target = ParsedUrl::parse(input.url.as_str());
        let allowed = match &target {
            Some(t) => self.cfg.is_allowed(t),
            None => false,
        };
        FetchTool::plan(input, target, allowed, self.cfg.timeout_ms, self.cfg.max_bytes)
    }

    /// Turns what came of the outbound request into the outcome of the call,
    /// keeping at most `max_bytes` bytes of the body.
    pub fn complete(max_bytes: usize, reply: &Reply) -> (r: Result<Json, FetchError>)
        requires
            reply_encodable(*reply),
        ensures
            match outcome_of(max_bytes, *reply) {
                Ok(value) => r is Ok && r->Ok_0@ == value,
                Err(failure) => r is Err && r->Err_0@ == failure,
            },
    {
        match reply {
            Reply::TimedOut => Err(FetchError::Timeout),
            Reply::Failed(text) => Err(FetchError::Transport(text.clone())),
            Reply::Answered(response) => {
                let (body, truncated) = read_limited(&response.chunks, max_bytes);
                if !truncated {
                    match &response.broken {
                        Some(text) => {
                            return Err(FetchError::Transport(text.clone()));
                        },
                        None => {},
                    }
                }
                let headers = collect_headers(&response.headers);
                Ok(fetch_result(response.status, &headers, body.as_slice(), truncated))
            },
        }
    }

    /// Runs a call against what comes of its outbound request: the failure
    /// for which no request is made, else the outcome that the reply leads to.
    pub fn call(&self, args: &Json, reply: &Reply) -> (r: Result<Json, FetchError>)
        requires
            reply_encodable(*reply),
        ensures
            match self.call_of(args@, *reply) {
                Ok(value) => r is Ok && r->Ok_0@ == value,
                Err(failure) => r is Err && r->Err_0@ == failure,
            },
    {
        match self.prepare(args) {
            Ok(plan) => FetchTool::complete(plan.max_bytes, reply),
            Err(e) => Err(e),
        }
    }
}

/// Under a limit of `max` bytes, a body longer than the limit is cut to
/// exactly `max` bytes and marked truncated; a body that fits is kept whole
/// and not marked.
pub proof fn lemma_limited(body: Seq<u8>, max: nat)
    ensures
        body.len() > max ==> limited(body, max).1 && limited(body, max).0.len() == max && limited(
            body,
            max,
        ).0.is_prefix_of(body),
        body.len() <= max ==> !limited(body, max).1 && limited(body, max).0 == body,
        limited(body, max).0.len() <= max,
{
}

/// A call whose URL has another scheme than `http` and `https`, or is not
/// let through by the allowlist, fails whatever would come of a request:
/// none is made.
pub proof fn lemma_rejected_before_request(tool: FetchTool, args: JsonValue, one: Reply, other: Reply)
    requires
        tool.plan_of(args) is Err,
    ensures
        tool.call_of(args, one) == tool.call_of(args, other),
        tool.call_of(args, one) == Err::<JsonValue, Failure>(tool.plan_of(args)->Err_0),
{
}

/// A call whose request gets no response within the timeout fails with the
/// timeout failure.
pub proof fn lemma_timeout_fails(tool: FetchTool, args: JsonValue)
    requires
        tool.plan_of(args) is Ok,
    ensures
        tool.call_of(args, Reply::TimedOut) == Err::<JsonValue, Failure>(Failure::Timeout),
{
}

} // verus!
