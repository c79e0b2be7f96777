//! The client: the endpoint, the credentials and the counter of correlation
//! ids, and the two halves of a call on either side of the transport.

use crate::codec::{document_of, rendering_of, settled};
use crate::envelope::{envelope, error_parts, read_envelope, reading, request_envelope};
use crate::error::{
    HttpError, HttpErrorView, JsonError, JsonErrorView, RpcError, RpcErrorView, RpcResult,
    outcome_view,
};
use crate::json::{Json, JsonValue, items_view};
use crate::shape::Decoder;
use vstd::prelude::*;

verus! {

/// What a client holds, as a mathematical value.
pub struct ClientView {
    pub url: Seq<char>,
    pub auth: Option<(Seq<char>, Seq<char>)>,
    /// The correlation id that the next call will use.
    pub next_id: u64,
}

/// A JSON-RPC client for one endpoint. The endpoint and the credentials
/// never change; the counter moves by one with every call. A call takes the
/// client by `&mut`, so two calls on one client never overlap, and each reads
/// and moves the counter in one step that no other call can come between.
#[derive(Debug)]
pub struct RpcClient {
    url: String,
    auth: Option<(String, String)>,
    next_id: u64,
}

/// One HTTP POST, ready to be sent: `body` goes out as a JSON body to `url`,
/// with `auth` as HTTP basic authentication where it is there.
#[derive(Debug, PartialEq, Eq)]
pub struct HttpRequest {
    pub url: String,
    pub auth: Option<(String, String)>,
    /// The correlation id inside the body.
    pub id: u64,
    pub body: Vec<u8>,
}

/// An `HttpRequest` as a mathematical value.
pub struct HttpRequestView {
    pub url: Seq<char>,
    pub auth: Option<(Seq<char>, Seq<char>)>,
    pub id: u64,
    pub body: Seq<u8>,
}

/// What the server sent back.
#[derive(Debug, PartialEq, Eq)]
pub struct HttpReply {
    pub status: u16,
    pub body: Vec<u8>,
}

/// An `HttpReply` as a mathematical value.
pub struct HttpReplyView {
    pub status: u16,
    pub body: Seq<u8>,
}

/// The credentials as a mathematical value.
pub open spec fn auth_view(auth: Option<(String, String)>) -> Option<(Seq<char>, Seq<char>)> {
    match auth {
        Some((user, pass)) => Some((user@, pass@)),
        None => None,
    }
}

impl View for HttpRequest {
    type V = HttpRequestView;

    open spec fn view(&self) -> HttpRequestView {
        HttpRequestView {
            url: self.url@,
            auth: auth_view(self.auth),
            id: self.id,
            body: self.body@,
        }
    }
}

impl View for HttpReply {
    type V = HttpReplyView;

    open spec fn view(&self) -> HttpReplyView {
        HttpReplyView { status: self.status, body: self.body@ }
    }
}

/// What the transport hands back, as a mathematical value.
pub open spec fn exchange_view(exchange: Result<HttpReply, HttpError>) -> Result<
    HttpReplyView,
    HttpErrorView,
> {
    match exchange {
        Ok(reply) => Ok(reply@),
        Err(e) => Err(e@),
    }
}

/// The correlation id that follows `id`. The counter has 64 bits and starts
/// again at 0 after the last of them.
pub open spec fn next_after(id: u64) -> u64 {
    if id == u64::MAX {
        0
    } else {
        (id + 1) as u64
    }
}

/// The correlation id of the call that comes after `calls` earlier calls on a
/// client whose counter stood at `first`.
pub open spec fn id_of_call(first: u64, calls: nat) -> u64
    decreases calls,
{
    if calls == 0 {
        first
    } else {
        id_of_call(next_after(first), (calls - 1) as nat)
    }
}

/// Whether an HTTP status lies in the success range, 200 to 299.
pub open spec fn is_success(status: u16) -> bool {
    200 <= status <= 299
}

impl ClientView {
    /// The client after one more call.
    pub open spec fn advanced(self) -> ClientView {
        ClientView { next_id: next_after(self.next_id), ..self }
    }

    /// The client after `calls` more calls.
    pub open spec fn after_calls(self, calls: nat) -> ClientView
        decreases calls,
    {
        if calls == 0 {
            self
        } else {
            self.advanced().after_calls((calls - 1) as nat)
        }
    }
}

/// The request that a client sends for a call: to its endpoint, with its
/// credentials, the envelope with the client's next id as the body.
pub open spec fn request_of(client: ClientView, method: Seq<char>, params: Seq<JsonValue>) -> HttpRequestView {
    HttpRequestView {
        url: client.url,
        auth: client.auth,
        id: client.next_id,
        body: rendering_of(settled(envelope(client.next_id, method, params))),
    }
}

/// The outcome of a call of `method`, given what the transport handed back.
/// A transport failure is the outcome as it is. A status outside the success
/// range is a transport failure whatever the body holds. A body that is no
/// JSON is an encoding failure. Every other body is read as a response
/// envelope.
pub open spec fn completion(method: Seq<char>, exchange: Result<HttpReplyView, HttpErrorView>) -> Result<
    JsonValue,
    RpcErrorView,
> {
    match exchange {
        Err(e) => Err(RpcErrorView::Http(e)),
        Ok(reply) => if !is_success(reply.status) {
            Err(RpcErrorView::Http(HttpErrorView::Status { status: reply.status }))
        } else {
            match document_of(reply.body) {
                None => Err(RpcErrorView::Json(JsonErrorView::Syntax)),
                Some(doc) => reading(method, doc),
            }
        },
    }
}

/// The outcome of a call whose result is decoded by `decoder`: a failure of
/// the call stays as it is, a result is decoded, and a result that the
/// decoder refuses is an encoding failure that holds the decoder's reason.
pub open spec fn typed<D: Decoder>(decoder: D, raw: Result<JsonValue, RpcErrorView>) -> Result<
    <D::Target as View>::V,
    RpcErrorView,
> {
    match raw {
        Err(e) => Err(e),
        Ok(doc) => match decoder.decoding(doc) {
            Ok(value) => Ok(value),
            Err(e) => Err(RpcErrorView::Json(JsonErrorView::Shape(e))),
        },
    }
}

impl View for RpcClient {
    type V = ClientView;

    closed spec fn view(&self) -> ClientView {
        ClientView { url: self.url@, auth: auth_view(self.auth), next_id: self.next_id }
    }
}

impl RpcClient {
    /// A client for the endpoint at `url`, without credentials. Its first
    /// call has the correlation id 0.
    pub fn new(url: &str) -> (client: RpcClient)
        ensures
            client@ == (ClientView { url: url@, auth: None, next_id: 0 }),
    {
        RpcClient { url: url.to_owned(), auth: None, next_id: 0 }
    }

    /// A client for the endpoint at `url` that sends `user` and `pass` as
    /// HTTP basic authentication with every request. Its first call has the
    /// correlation id 0.
    pub fn with_auth(url: &str, user: &str, pass: &str) -> (client: RpcClient)
        ensures
            client@ == (ClientView { url: url@, auth: Some((user@, pass@)), next_id: 0 }),
    {
        RpcClient {
            url: url.to_owned(),
            auth: Some((user.to_owned(), pass.to_owned())),
            next_id: 0,
        }
    }

    /// The first half of a call: builds the request of a call of `method`
    /// with `params`, and moves the counter on by one.
    pub fn prepare(&mut self, method: &str, params: Vec<Json>) -> (request: HttpRequest)
        ensures
            request@ == request_of(old(self)@, method@, items_view(params@)),
            final(self)@ == old(self)@.advanced(),
    {
        let id = self.next_id;
        self.next_id = if id == u64::MAX {
            0
        } else {
            id + 1
        };
        let body = request_envelope(id, method, params).render();
        HttpRequest { url: self.url.clone(), auth: clone_auth(&self.auth), id, body }
    }

    /// One call: builds the request, hands it to `send`, which performs the
    /// HTTP POST, decides the outcome from what `send` hands back, and
    /// decodes a result with `decoder`. The counter moves on by one whatever
    /// the outcome is; nothing is sent a second time.
    pub fn call<D, F>(&mut self, method: &str, params: Vec<Json>, decoder: &D, send: F) -> (outcome:
        RpcResult<D::Target>) where
        D: Decoder,
        F: FnOnce(HttpRequest) -> Result<HttpReply, HttpError>,

        requires
            forall|request: HttpRequest|
                request@ == request_of(old(self)@, method@, items_view(params@))
                    ==> call_requires(send, (request,)),
        ensures
            final(self)@ == old(self)@.advanced(),
            exists|request: HttpRequest, exchange: Result<HttpReply, HttpError>|
                request@ == request_of(old(self)@, method@, items_view(params@))
                    && #[trigger] call_ensures(send, (request,), exchange) && outcome_view(
                    outcome,
                ) == typed(*decoder, completion(method@, exchange_view(exchange))),
    {
        let request = self.prepare(method, params);
        let ghost sent = request;
        let exchange = send(request);
        let ghost received = exchange;
        let outcome = complete_as(decoder, method, exchange);
        assert(call_ensures(send, (sent,), received));
        outcome
    }
}

/// The second half of a call: decides the outcome of a call of `method` from
/// what the transport handed back.
pub fn complete(method: &str, exchange: Result<HttpReply, HttpError>) -> (outcome: RpcResult<Json>)
    ensures
        outcome_view(outcome) == completion(method@, exchange_view(exchange)),
{
    match exchange {
        Err(e) => Err(RpcError::Http(e)),
        Ok(reply) => {
            if reply.status < 200 || reply.status > 299 {
                return Err(RpcError::Http(HttpError::Status { status: reply.status }));
            }
            match Json::parse(reply.body.as_slice()) {
                Err(e) => Err(RpcError::Json(e)),
                Ok(doc) => read_envelope(method, &doc),
            }
        },
    }
}

/// The second half of a call, for a typed result: decides the outcome from
/// what the transport handed back, and decodes a result with `decoder`.
pub fn complete_as<D: Decoder>(
    decoder: &D,
    method: &str,
    exchange: Result<HttpReply, HttpError>,
) -> (outcome: RpcResult<D::Target>)
    ensures
        outcome_view(outcome) == typed(*decoder, completion(method@, exchange_view(exchange))),
{
    match complete(method, exchange) {
        Err(e) => Err(e),
        Ok(doc) => match decoder.decode(&doc) {
            Ok(value) => Ok(value),
            Err(e) => Err(RpcError::Json(JsonError::Shape(e))),
        },
    }
}

/// A copy of the credentials.
fn clone_auth(auth: &Option<(String, String)>) -> (copy: Option<(String, String)>)
    ensures
        auth_view(copy) == auth_view(*auth),
{
    match auth {
        Some((user, pass)) => Some((user.clone(), pass.clone())),
        None => None,
    }
}

/// Without running out, the counter adds one for every call.
pub proof fn lemma_id_of_call(first: u64, calls: nat)
    requires
        first + calls <= u64::MAX,
    ensures
        id_of_call(first, calls) == first + calls,
    decreases calls,
{
    if calls > 0 {
        lemma_id_of_call(next_after(first), (calls - 1) as nat);
    }
}

/// The counter counts modulo 2 to the 64.
pub proof fn lemma_id_of_call_wraps(first: u64, calls: nat)
    ensures
        id_of_call(first, calls) == (first + calls) % 0x1_0000_0000_0000_0000,
    decreases calls,
{
    if calls > 0 {
        lemma_id_of_call_wraps(next_after(first), (calls - 1) as nat);
    }
}

/// Calls change nothing of a client but its counter: the endpoint and the
/// credentials stay, and the counter stands at the id of the next call.
pub proof fn lemma_after_calls(client: ClientView, calls: nat)
    ensures
        client.after_calls(calls) == (ClientView {
            next_id: id_of_call(client.next_id, calls),
            ..client
        }),
    decreases calls,
{
    if calls > 0 {
        lemma_after_calls(client.advanced(), (calls - 1) as nat);
    }
}

/// Every call uses a correlation id strictly greater than that of every
/// earlier call on the same client, whatever the methods and the arguments
/// of the two calls are, for as long as the counter has not run through all
/// its 64 bits.
pub proof fn law_ids_increase(
    client: ClientView,
    earlier: nat,
    earlier_method: Seq<char>,
    earlier_params: Seq<JsonValue>,
    later: nat,
    later_method: Seq<char>,
    later_params: Seq<JsonValue>,
)
    requires
        earlier < later,
        client.next_id + later <= u64::MAX,
    ensures
        request_of(client.after_calls(earlier), earlier_method, earlier_params).id < request_of(
            client.after_calls(later),
            later_method,
            later_params,
        ).id,
{
    lemma_after_calls(client, earlier);
    lemma_after_calls(client, later);
    lemma_id_of_call(client.next_id, earlier);
    lemma_id_of_call(client.next_id, later);
}

/// No two calls on one client have the same correlation id, unless 2 to the
/// 64 calls or more lie between them.
pub proof fn law_ids_differ(
    client: ClientView,
    earlier: nat,
    earlier_method: Seq<char>,
    earlier_params: Seq<JsonValue>,
    later: nat,
    later_method: Seq<char>,
    later_params: Seq<JsonValue>,
)
    requires
        earlier < later,
        later - earlier < 0x1_0000_0000_0000_0000,
    ensures
        request_of(client.after_calls(earlier), earlier_method, earlier_params).id != request_of(
            client.after_calls(later),
            later_method,
            later_params,
        ).id,
{
    lemma_after_calls(client, earlier);
    lemma_after_calls(client, later);
    lemma_id_of_call_wraps(client.next_id, earlier);
    lemma_id_of_call_wraps(client.next_id, later);
    let m = 0x1_0000_0000_0000_0000int;
    let a = client.next_id + earlier;
    let b = client.next_id + later;
    if a % m == b % m {
        vstd::arithmetic::div_mod::lemma_fundamental_div_mod(a, m);
        vstd::arithmetic::div_mod::lemma_fundamental_div_mod(b, m);
        assert(b - a == m * (b / m) - m * (a / m));
        assert(m * (b / m) - m * (a / m) == m * (b / m - a / m)) by (nonlinear_arith);
        let k = b / m - a / m;
        assert(0 < m * k < m);
        assert(false) by (nonlinear_arith)
            requires
                0 < m * k < m,
                m > 0,
        ;
    }
}

/// A status outside the success range makes the call fail as a transport
/// failure that holds the status, whatever the body is: a body of
/// well-formed JSON is not looked at.
pub proof fn law_status_failure(method: Seq<char>, reply: HttpReplyView)
    requires
        !is_success(reply.status),
    ensures
        completion(method, Ok(reply)) == Err::<JsonValue, RpcErrorView>(
            RpcErrorView::Http(HttpErrorView::Status { status: reply.status }),
        ),
{
}

/// A response whose `error` is an error object makes the call fail with the
/// code, the message and the data of that object, whatever its `result` is.
pub proof fn law_error_first(
    method: Seq<char>,
    reply: HttpReplyView,
    doc: JsonValue,
    e: JsonValue,
    code: int,
    message: Seq<char>,
    data: Option<JsonValue>,
)
    requires
        is_success(reply.status),
        doc is Object,
        doc.member("id"@) is Some,
        doc.member("error"@) == Some(e),
        error_parts(e) == Some((code, message, data)),
    ensures
        reading(method, doc) == Err::<JsonValue, RpcErrorView>(
            RpcErrorView::Rpc { code, message, data },
        ),
        document_of(reply.body) == Some(doc) ==> completion(method, Ok(reply)) == Err::<
            JsonValue,
            RpcErrorView,
        >(RpcErrorView::Rpc { code, message, data }),
{
}

/// A response without an error whose `result` is `null` or not there makes
/// the call fail as a missing result that names the method.
pub proof fn law_missing_result(method: Seq<char>, reply: HttpReplyView, doc: JsonValue)
    requires
        is_success(reply.status),
        doc is Object,
        doc.member("id"@) is Some,
        doc.member("error"@) is None || doc.member("error"@) == Some(JsonValue::Null),
        doc.member("result"@) is None || doc.member("result"@) == Some(JsonValue::Null),
    ensures
        reading(method, doc) == Err::<JsonValue, RpcErrorView>(
            RpcErrorView::MissingResult { method },
        ),
        document_of(reply.body) == Some(doc) ==> completion(method, Ok(reply)) == Err::<
            JsonValue,
            RpcErrorView,
        >(RpcErrorView::MissingResult { method }),
{
}

} // verus!
