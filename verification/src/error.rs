//! The failures that a call can end in, and what each stands for.

use crate::json::{Json, JsonValue};
use vstd::prelude::*;
use vstd::string::StringExecFns;

verus! {

/// Why a payload does not have an expected shape.
#[derive(Debug, PartialEq, Eq)]
pub enum ShapeError {
    /// The payload is not an object.
    NotAnObject,
    /// A required field has no member in the payload.
    MissingField { name: String },
    /// The member of a declared field is of another kind than declared.
    WrongKind { name: String },
    /// No shape of a set of variants fits the payload.
    NoVariant,
}

/// A `ShapeError` as a mathematical value.
pub enum ShapeErrorView {
    NotAnObject,
    MissingField { name: Seq<char> },
    WrongKind { name: Seq<char> },
    NoVariant,
}

impl View for ShapeError {
    type V = ShapeErrorView;

    open spec fn view(&self) -> ShapeErrorView {
        match self {
            ShapeError::NotAnObject => ShapeErrorView::NotAnObject,
            ShapeError::MissingField { name } => ShapeErrorView::MissingField { name: name@ },
            ShapeError::WrongKind { name } => ShapeErrorView::WrongKind { name: name@ },
            ShapeError::NoVariant => ShapeErrorView::NoVariant,
        }
    }
}

/// What is wrong with a response that is JSON but no response envelope.
#[derive(Debug, PartialEq, Eq, Clone, Copy)]
pub enum EnvelopeFault {
    /// The response is not an object.
    NotAnObject,
    /// The response has no `id`.
    MissingId,
    /// `error` is neither `null` nor an object with an integer `code` and a
    /// `message` that is a string.
    MalformedError,
}

/// An encoding failure: a body that is not JSON, or JSON of another shape
/// than expected.
#[derive(Debug, PartialEq, Eq)]
pub enum JsonError {
    /// The body is not a JSON document; `detail` says where and why.
    Syntax { detail: String },
    /// The document is no response envelope.
    Envelope(EnvelopeFault),
    /// The result does not have the shape that the caller expects.
    Shape(ShapeError),
}

/// A `JsonError` as a mathematical value. The wording of a syntax error is
/// not part of it.
pub enum JsonErrorView {
    Syntax,
    Envelope(EnvelopeFault),
    Shape(ShapeErrorView),
}

impl View for JsonError {
    type V = JsonErrorView;

    open spec fn view(&self) -> JsonErrorView {
        match self {
            JsonError::Syntax { detail } => JsonErrorView::Syntax,
            JsonError::Envelope(fault) => JsonErrorView::Envelope(*fault),
            JsonError::Shape(e) => JsonErrorView::Shape(e@),
        }
    }
}

/// A transport failure.
#[derive(Debug, PartialEq, Eq)]
pub enum HttpError {
    /// No response arrived: the connection failed, timed out or was
    /// cancelled. `detail` is the transport's own account.
    Connection { detail: String },
    /// The server answered with a status outside the success range.
    Status { status: u16 },
}

/// An `HttpError` as a mathematical value.
pub enum HttpErrorView {
    Connection { detail: Seq<char> },
    Status { status: u16 },
}

impl View for HttpError {
    type V = HttpErrorView;

    open spec fn view(&self) -> HttpErrorView {
        match self {
            HttpError::Connection { detail } => HttpErrorView::Connection { detail: detail@ },
            HttpError::Status { status } => HttpErrorView::Status { status: *status },
        }
    }
}

/// The one error type of a call: every failure reaches the caller as one of
/// these four.
#[derive(Debug, PartialEq, Eq)]
pub enum RpcError {
    /// The transport failed.
    Http(HttpError),
    /// A body could not be read as JSON of the expected shape.
    Json(JsonError),
    /// The server answered with an error object, handed on as it came.
    Rpc { code: i64, message: String, data: Option<Json> },
    /// The server answered with neither an error nor a result.
    MissingResult { method: String },
}

/// An `RpcError` as a mathematical value.
pub enum RpcErrorView {
    Http(HttpErrorView),
    Json(JsonErrorView),
    Rpc { code: int, message: Seq<char>, data: Option<JsonValue> },
    MissingResult { method: Seq<char> },
}

impl View for RpcError {
    type V = RpcErrorView;

    open spec fn view(&self) -> RpcErrorView {
        match self {
            RpcError::Http(e) => RpcErrorView::Http(e@),
            RpcError::Json(e) => RpcErrorView::Json(e@),
            RpcError::Rpc { code, message, data } => RpcErrorView::Rpc {
                code: *code as int,
                message: message@,
                data: match data {
                    Some(d) => Some(d@),
                    None => None,
                },
            },
            RpcError::MissingResult { method } => RpcErrorView::MissingResult { method: method@ },
        }
    }
}

/// The outcome of a call.
pub type RpcResult<T> = Result<T, RpcError>;

/// The outcome of a call as a mathematical value.
pub open spec fn outcome_view<T: View>(r: RpcResult<T>) -> Result<T::V, RpcErrorView> {
    match r {
        Ok(value) => Ok(value@),
        Err(e) => Err(e@),
    }
}

/// One decimal digit as text.
pub open spec fn digit_text(d: int) -> Seq<char> {
    if d == 0 {
        "0"@
    } else if d == 1 {
        "1"@
    } else if d == 2 {
        "2"@
    } else if d == 3 {
        "3"@
    } else if d == 4 {
        "4"@
    } else if d == 5 {
        "5"@
    } else if d == 6 {
        "6"@
    } else if d == 7 {
        "7"@
    } else if d == 8 {
        "8"@
    } else {
        "9"@
    }
}

/// A natural number in decimal notation, without leading zeros.
pub open spec fn natural_text(n: nat) -> Seq<char>
    decreases n,
{
    if n < 10 {
        digit_text(n as int)
    } else {
        natural_text(n / 10) + digit_text((n % 10) as int)
    }
}

/// An integer in decimal notation, with a minus sign where it is negative.
pub open spec fn integer_text(n: int) -> Seq<char> {
    if n < 0 {
        "-"@ + natural_text((-n) as nat)
    } else {
        natural_text(n as nat)
    }
}

/// One decimal digit as text.
fn digit_str(d: u64) -> (text: &'static str)
    ensures
        text@ == digit_text(d as int),
{
    if d == 0 {
        "0"
    } else if d == 1 {
        "1"
    } else if d == 2 {
        "2"
    } else if d == 3 {
        "3"
    } else if d == 4 {
        "4"
    } else if d == 5 {
        "5"
    } else if d == 6 {
        "6"
    } else if d == 7 {
        "7"
    } else if d == 8 {
        "8"
    } else {
        "9"
    }
}

/// Writes a natural number in decimal notation at the end of a text.
pub fn append_natural(text: &mut String, n: u64)
    ensures
        final(text)@ == old(text)@ + natural_text(n as nat),
    decreases n,
{
    if n >= 10 {
        append_natural(text, n / 10);
    }
    text.append(digit_str(n % 10));
    assert(final(text)@ =~= old(text)@ + natural_text(n as nat));
}

/// Writes an integer in decimal notation at the end of a text.
pub fn append_integer(text: &mut String, n: i64)
    ensures
        final(text)@ == old(text)@ + integer_text(n as int),
{
    if n < 0 {
        text.append("-");
        let magnitude: u64 = if n == i64::MIN {
            0x8000_0000_0000_0000u64
        } else {
            (-n) as u64
        };
        append_natural(text, magnitude);
        assert(final(text)@ =~= old(text)@ + integer_text(n as int));
    } else {
        append_natural(text, n as u64);
    }
}

impl ShapeError {
    /// The message of the error.
    pub open spec fn description(&self) -> Seq<char> {
        match self {
            ShapeError::NotAnObject => "the payload is not an object"@,
            ShapeError::MissingField { name } => "missing field "@ + name@,
            ShapeError::WrongKind { name } => "field of another kind than declared: "@ + name@,
            ShapeError::NoVariant => "the payload has the shape of no variant"@,
        }
    }

    /// The message of the error, as text for a reader.
    pub fn describe(&self) -> (text: String)
        ensures
            text@ == self.description(),
    {
        match self {
            ShapeError::NotAnObject => "the payload is not an object".to_owned(),
            ShapeError::MissingField { name } => "missing field ".to_owned().concat(name.as_str()),
            ShapeError::WrongKind { name } => "field of another kind than declared: ".to_owned().concat(
                name.as_str(),
            ),
            ShapeError::NoVariant => "the payload has the shape of no variant".to_owned(),
        }
    }
}

impl EnvelopeFault {
    /// The message of the fault.
    pub open spec fn description(&self) -> Seq<char> {
        match self {
            EnvelopeFault::NotAnObject => "the response is not an object"@,
            EnvelopeFault::MissingId => "the response has no id"@,
            EnvelopeFault::MalformedError => "the error of the response is no error object"@,
        }
    }

    /// The message of the fault, as text for a reader.
    pub fn describe(&self) -> (text: String)
        ensures
            text@ == self.description(),
    {
        match self {
            EnvelopeFault::NotAnObject => "the response is not an object".to_owned(),
            EnvelopeFault::MissingId => "the response has no id".to_owned(),
            EnvelopeFault::MalformedError => "the error of the response is no error object".to_owned(),
        }
    }
}

impl JsonError {
    /// The message of the error.
    pub open spec fn description(&self) -> Seq<char> {
        match self {
            JsonError::Syntax { detail } => detail@,
            JsonError::Envelope(fault) => fault.description(),
            JsonError::Shape(e) => e.description(),
        }
    }

    /// The message of the error, as text for a reader.
    pub fn describe(&self) -> (text: String)
        ensures
            text@ == self.description(),
    {
        match self {
            JsonError::Syntax { detail } => detail.clone(),
            JsonError::Envelope(fault) => fault.describe(),
            JsonError::Shape(e) => e.describe(),
        }
    }
}

impl HttpError {
    /// The message of the error.
    pub open spec fn description(&self) -> Seq<char> {
        match self {
            HttpError::Connection { detail } => detail@,
            HttpError::Status { status } => "status "@ + natural_text(*status as nat),
        }
    }

    /// The message of the error, as text for a reader.
    pub fn describe(&self) -> (text: String)
        ensures
            text@ == self.description(),
    {
        match self {
            HttpError::Connection { detail } => detail.clone(),
            HttpError::Status { status } => {
                let mut text = "status ".to_owned();
                append_natural(&mut text, *status as u64);
                text
            },
        }
    }
}

impl RpcError {
    /// The message of the error: what kind of failure it is, and what the
    /// failure itself says.
    pub open spec fn description(&self) -> Seq<char> {
        match self {
            RpcError::Http(e) => "http error: "@ + e.description(),
            RpcError::Json(e) => "json error: "@ + e.description(),
            RpcError::Rpc { code, message, data } => "rpc error "@ + integer_text(*code as int)
                + ": "@ + message@,
            RpcError::MissingResult { method } => "missing result for rpc call "@ + method@,
        }
    }

    /// The message of the error, as text for a reader.
    pub fn describe(&self) -> (text: String)
        ensures
            text@ == self.description(),
    {
        match self {
            RpcError::Http(e) => "http error: ".to_owned().concat(e.describe().as_str()),
            RpcError::Json(e) => "json error: ".to_owned().concat(e.describe().as_str()),
            RpcError::Rpc { code, message, data } => {
                let mut text = "rpc error ".to_owned();
                append_integer(&mut text, *code);
                text.append(": ");
                text.append(message.as_str());
                text
            },
            RpcError::MissingResult { method } => "missing result for rpc call ".to_owned().concat(
                method.as_str(),
            ),
        }
    }
}

} // verus!
