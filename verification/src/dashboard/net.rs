//! Public JSON reads for the dashboard, with the error wording its files carry.
//!
//! The dashboard files carry error text (`BTC: HTTP Error 500: Internal Server Error`): an
//! error status reads `HTTP Error {code}: {reason}`, a failed connection
//! `<urlopen error {why}>`.
use crate::http::{Request, RequestView, Response, ResponseView, SendError, SendErrorView};
use crate::list;
use crate::list::Duplicate;
use crate::text;
use crate::watch::json::{Doc, Json};
use vstd::prelude::*;

verus! {

/// The reason phrase of a status, empty for one that is not registered.
pub open spec fn reason_spec(code: u16) -> Seq<char> {
    if code == 100 {
        "Continue"@
    } else if code == 101 {
        "Switching Protocols"@
    } else if code == 102 {
        "Processing"@
    } else if code == 103 {
        "Early Hints"@
    } else if code == 200 {
        "OK"@
    } else if code == 201 {
        "Created"@
    } else if code == 202 {
        "Accepted"@
    } else if code == 203 {
        "Non-Authoritative Information"@
    } else if code == 204 {
        "No Content"@
    } else if code == 205 {
        "Reset Content"@
    } else if code == 206 {
        "Partial Content"@
    } else if code == 207 {
        "Multi-Status"@
    } else if code == 208 {
        "Already Reported"@
    } else if code == 226 {
        "IM Used"@
    } else if code == 300 {
        "Multiple Choices"@
    } else if code == 301 {
        "Moved Permanently"@
    } else if code == 302 {
        "Found"@
    } else if code == 303 {
        "See Other"@
    } else if code == 304 {
        "Not Modified"@
    } else if code == 305 {
        "Use Proxy"@
    } else if code == 307 {
        "Temporary Redirect"@
    } else if code == 308 {
        "Permanent Redirect"@
    } else if code == 400 {
        "Bad Request"@
    } else if code == 401 {
        "Unauthorized"@
    } else if code == 402 {
        "Payment Required"@
    } else if code == 403 {
        "Forbidden"@
    } else if code == 404 {
        "Not Found"@
    } else if code == 405 {
        "Method Not Allowed"@
    } else if code == 406 {
        "Not Acceptable"@
    } else if code == 407 {
        "Proxy Authentication Required"@
    } else if code == 408 {
        "Request Timeout"@
    } else if code == 409 {
        "Conflict"@
    } else if code == 410 {
        "Gone"@
    } else if code == 411 {
        "Length Required"@
    } else if code == 412 {
        "Precondition Failed"@
    } else if code == 413 {
        "Content Too Large"@
    } else if code == 414 {
        "URI Too Long"@
    } else if code == 415 {
        "Unsupported Media Type"@
    } else if code == 416 {
        "Range Not Satisfiable"@
    } else if code == 417 {
        "Expectation Failed"@
    } else if code == 418 {
        "I'm a Teapot"@
    } else if code == 421 {
        "Misdirected Request"@
    } else if code == 422 {
        "Unprocessable Content"@
    } else if code == 423 {
        "Locked"@
    } else if code == 424 {
        "Failed Dependency"@
    } else if code == 425 {
        "Too Early"@
    } else if code == 426 {
        "Upgrade Required"@
    } else if code == 428 {
        "Precondition Required"@
    } else if code == 429 {
        "Too Many Requests"@
    } else if code == 431 {
        "Request Header Fields Too Large"@
    } else if code == 451 {
        "Unavailable For Legal Reasons"@
    } else if code == 500 {
        "Internal Server Error"@
    } else if code == 501 {
        "Not Implemented"@
    } else if code == 502 {
        "Bad Gateway"@
    } else if code == 503 {
        "Service Unavailable"@
    } else if code == 504 {
        "Gateway Timeout"@
    } else if code == 505 {
        "HTTP Version Not Supported"@
    } else if code == 506 {
        "Variant Also Negotiates"@
    } else if code == 507 {
        "Insufficient Storage"@
    } else if code == 508 {
        "Loop Detected"@
    } else if code == 510 {
        "Not Extended"@
    } else if code == 511 {
        "Network Authentication Required"@
    } else {
        ""@
    }
}

/// The reason phrase of a status, empty for one that is not registered.
pub fn reason(code: u16) -> (r: String)
    ensures
        r@ == reason_spec(code),
{
    if code == 100 {
        return text::owned("Continue");
    }
    if code == 101 {
        return text::owned("Switching Protocols");
    }
    if code == 102 {
        return text::owned("Processing");
    }
    if code == 103 {
        return text::owned("Early Hints");
    }
    if code == 200 {
        return text::owned("OK");
    }
    if code == 201 {
        return text::owned("Created");
    }
    if code == 202 {
        return text::owned("Accepted");
    }
    if code == 203 {
        return text::owned("Non-Authoritative Information");
    }
    if code == 204 {
        return text::owned("No Content");
    }
    if code == 205 {
        return text::owned("Reset Content");
    }
    if code == 206 {
        return text::owned("Partial Content");
    }
    if code == 207 {
        return text::owned("Multi-Status");
    }
    if code == 208 {
        return text::owned("Already Reported");
    }
    if code == 226 {
        return text::owned("IM Used");
    }
    if code == 300 {
        return text::owned("Multiple Choices");
    }
    if code == 301 {
        return text::owned("Moved Permanently");
    }
    if code == 302 {
        return text::owned("Found");
    }
    if code == 303 {
        return text::owned("See Other");
    }
    if code == 304 {
        return text::owned("Not Modified");
    }
    if code == 305 {
        return text::owned("Use Proxy");
    }
    if code == 307 {
        return text::owned("Temporary Redirect");
    }
    if code == 308 {
        return text::owned("Permanent Redirect");
    }
    if code == 400 {
        return text::owned("Bad Request");
    }
    if code == 401 {
        return text::owned("Unauthorized");
    }
    if code == 402 {
        return text::owned("Payment Required");
    }
    if code == 403 {
        return text::owned("Forbidden");
    }
    if code == 404 {
        return text::owned("Not Found");
    }
    if code == 405 {
        return text::owned("Method Not Allowed");
    }
    if code == 406 {
        return text::owned("Not Acceptable");
    }
    if code == 407 {
        return text::owned("Proxy Authentication Required");
    }
    if code == 408 {
        return text::owned("Request Timeout");
    }
    if code == 409 {
        return text::owned("Conflict");
    }
    if code == 410 {
        return text::owned("Gone");
    }
    if code == 411 {
        return text::owned("Length Required");
    }
    if code == 412 {
        return text::owned("Precondition Failed");
    }
    if code == 413 {
        return text::owned("Content Too Large");
    }
    if code == 414 {
        return text::owned("URI Too Long");
    }
    if code == 415 {
        return text::owned("Unsupported Media Type");
    }
    if code == 416 {
        return text::owned("Range Not Satisfiable");
    }
    if code == 417 {
        return text::owned("Expectation Failed");
    }
    if code == 418 {
        return text::owned("I'm a Teapot");
    }
    if code == 421 {
        return text::owned("Misdirected Request");
    }
    if code == 422 {
        return text::owned("Unprocessable Content");
    }
    if code == 423 {
        return text::owned("Locked");
    }
    if code == 424 {
        return text::owned("Failed Dependency");
    }
    if code == 425 {
        return text::owned("Too Early");
    }
    if code == 426 {
        return text::owned("Upgrade Required");
    }
    if code == 428 {
        return text::owned("Precondition Required");
    }
    if code == 429 {
        return text::owned("Too Many Requests");
    }
    if code == 431 {
        return text::owned("Request Header Fields Too Large");
    }
    if code == 451 {
        return text::owned("Unavailable For Legal Reasons");
    }
    if code == 500 {
        return text::owned("Internal Server Error");
    }
    if code == 501 {
        return text::owned("Not Implemented");
    }
    if code == 502 {
        return text::owned("Bad Gateway");
    }
    if code == 503 {
        return text::owned("Service Unavailable");
    }
    if code == 504 {
        return text::owned("Gateway Timeout");
    }
    if code == 505 {
        return text::owned("HTTP Version Not Supported");
    }
    if code == 506 {
        return text::owned("Variant Also Negotiates");
    }
    if code == 507 {
        return text::owned("Insufficient Storage");
    }
    if code == 508 {
        return text::owned("Loop Detected");
    }
    if code == 510 {
        return text::owned("Not Extended");
    }
    if code == 511 {
        return text::owned("Network Authentication Required");
    }
    text::owned("")
}

/// Why a read failed.
#[derive(Debug)]
pub enum NetError {
    /// An HTTP status outside 2xx.
    Status(u16),
    /// Nothing came back, or the offline switch refused the call.
    Url(String),
    /// A body that is not JSON.
    Decode(String),
}

/// What a [`NetError`] says.
#[allow(inconsistent_fields)]
pub enum NetErrorView {
    Status(u16),
    Url(Seq<char>),
    Decode(Seq<char>),
}

impl DeepView for NetError {
    type V = NetErrorView;

    open spec fn deep_view(&self) -> NetErrorView {
        match self {
            NetError::Status(a) => NetErrorView::Status(*a),
            NetError::Url(a) => NetErrorView::Url(a@),
            NetError::Decode(a) => NetErrorView::Decode(a@),
        }
    }
}

impl Duplicate for NetError {
    fn dup(&self) -> (r: NetError) {
        match self {
            NetError::Status(a) => NetError::Status(*a),
            NetError::Url(a) => NetError::Url(text::owned(a.as_str())),
            NetError::Decode(a) => NetError::Decode(text::owned(a.as_str())),
        }
    }
}

/// What an error says.
pub open spec fn error_text_spec(e: NetErrorView) -> Seq<char> {
    match e {
        NetErrorView::Status(c) => "HTTP Error "@ + text::dec(c as nat) + ": "@ + reason_spec(c),
        NetErrorView::Url(m) => "<urlopen error "@ + m + ">"@,
        NetErrorView::Decode(m) => m,
    }
}

fn error_text(e: &NetError) -> (r: String)
    ensures
        r@ == error_text_spec(e.deep_view()),
{
    match e {
        NetError::Status(c) => {
            let mut line = text::owned("HTTP Error ");
            line.push_str(text::dec_u64(*c as u64).as_str());
            line.push_str(": ");
            line.push_str(reason(*c).as_str());
            line
        },
        NetError::Url(m) => {
            let mut line2 = text::owned("<urlopen error ");
            line2.push_str(m.as_str());
            line2.push_str(">");
            line2
        },
        NetError::Decode(m) => text::owned(m.as_str()),
    }
}

/// The kind of an error.
pub open spec fn error_kind_spec(e: NetErrorView) -> Seq<char> {
    match e {
        NetErrorView::Status(c) => "HTTPError"@,
        NetErrorView::Url(m) => "URLError"@,
        NetErrorView::Decode(m) => "JSONDecodeError"@,
    }
}

fn error_kind(e: &NetError) -> (r: String)
    ensures
        r@ == error_kind_spec(e.deep_view()),
{
    match e {
        NetError::Status(c) => text::owned("HTTPError"),
        NetError::Url(m) => text::owned("URLError"),
        NetError::Decode(m) => text::owned("JSONDecodeError"),
    }
}

/// What an error says, behind its kind.
pub open spec fn typed_text_spec(e: NetErrorView) -> Seq<char> {
    error_kind_spec(e) + ": "@ + error_text_spec(e)
}

/// What an error says, behind its kind.
pub fn typed_text(e: &NetError) -> (r: String)
    ensures
        r@ == typed_text_spec(e.deep_view()),
{
    let mut line = error_kind(e);
    line.push_str(": ");
    line.push_str(error_text(e).as_str());
    line
}

/// One GET, or a POST where there is a body.
pub open spec fn request_spec(
    url: Seq<char>,
    body: Option<Seq<char>>,
    headers: Seq<(Seq<char>, Seq<char>)>,
    timeout_s: u64,
) -> RequestView {
    let method = if body is None {
        "GET"@
    } else {
        "POST"@
    };
    RequestView { method, url, headers, body, timeout_s }
}

/// One GET, or a POST where there is a body.
pub fn request(
    url: &str,
    body: Option<&str>,
    headers: &Vec<(String, String)>,
    timeout_s: u64,
) -> (r: Request)
    ensures
        r.deep_view() == request_spec(url@, body.deep_view(), headers.deep_view(), timeout_s),
{
    let method = if body.is_none() {
        "GET"
    } else {
        "POST"
    };
    Request {
        method: text::owned(method),
        url: text::owned(url),
        headers: headers.dup(),
        body: list::own_text(body),
        timeout_s,
    }
}

/// What sending a request gave: the value of a 2xx body, or why there is none. `parsed` is the body
/// as JSON, or why it is none.
pub open spec fn verdict_spec(
    sent: Result<ResponseView, SendErrorView>,
    parsed: Result<Doc, Seq<char>>,
) -> Result<Doc, NetErrorView> {
    match sent {
        Err(e) => match e {
            SendErrorView::Offline(m) => Err(NetErrorView::Url(m)),
            SendErrorView::Network(m) => Err(NetErrorView::Url(m)),
        },
        Ok(r) => if r.status >= 200 && r.status < 300 {
            match parsed {
                Ok(j) => Ok(j),
                Err(e) => Err(NetErrorView::Decode(e)),
            }
        } else {
            Err(NetErrorView::Status(r.status))
        },
    }
}

/// What sending a request gave: the value of a 2xx body, or why there is none. `parsed` is the body
/// as JSON, or why it is none.
pub fn verdict(
    sent: &Result<Response, SendError>,
    parsed: &Result<Json, String>,
) -> (r: Result<Json, NetError>)
    ensures
        list::outcome(r) == verdict_spec(list::outcome(*sent), list::outcome(*parsed)),
{
    match sent {
        Err(e) => match e {
            SendError::Offline(m) => Err(NetError::Url(text::owned(m.as_str()))),
            SendError::Network(m) => Err(NetError::Url(text::owned(m.as_str()))),
        },
        Ok(r) => {
            if r.status >= 200 && r.status < 300 {
                match parsed {
                    Ok(j) => {
                        return Ok(j.copy());
                    },
                    Err(e) => {
                        return Err(NetError::Decode(text::owned(e.as_str())));
                    },
                }
            }
            Err(NetError::Status(r.status))
        },
    }
}

impl NetError {
    /// What the error says.
    pub fn text(&self) -> (r: String)
        ensures
            r@ == error_text_spec(self.deep_view()),
    {
        error_text(self)
    }

    /// What the error says, behind its kind.
    pub fn typed(&self) -> (r: String)
        ensures
            r@ == typed_text_spec(self.deep_view()),
    {
        typed_text(self)
    }
}

} // verus!
