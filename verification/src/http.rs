//! What every venue call is made of and what comes of it: the request, the switch that
//! refuses it, and the reply.
//!
//! Nothing here opens a connection. Sending is a [`Transport`]'s; it asks [`refusal`] first,
//! which refuses every call, signed or public, while the offline switch is set, so a test or
//! a dry run that forgets to fake its client fails loudly instead of trading.
use crate::list;
use crate::list::Duplicate;
use crate::pyfmt;
use crate::text;
use crate::watch::json;
use crate::watch::json::{Doc, Json};
use vstd::prelude::*;

verus! {

/// Seconds a venue call may take, for every venue.
pub const TIMEOUT_S: u64 = 15;

fn same_ignoring_case(a: &str, b: &str) -> (r: bool)
    ensures
        r == (text::ascii_lower(a@) == text::ascii_lower(b@)),
{
    text::same(text::to_ascii_lower(a).as_str(), text::to_ascii_lower(b).as_str())
}

/// A call to a venue.
#[derive(Debug)]
pub struct Request {
    pub method: String,
    pub url: String,
    pub headers: Vec<(String, String)>,
    pub body: Option<String>,
    pub timeout_s: u64,
}

/// What a [`Request`] holds.
pub struct RequestView {
    pub method: Seq<char>,
    pub url: Seq<char>,
    pub headers: Seq<(Seq<char>, Seq<char>)>,
    pub body: Option<Seq<char>>,
    pub timeout_s: u64,
}

impl DeepView for Request {
    type V = RequestView;

    open spec fn deep_view(&self) -> RequestView {
        RequestView {
            method: self.method@,
            url: self.url@,
            headers: self.headers.deep_view(),
            body: self.body.deep_view(),
            timeout_s: self.timeout_s,
        }
    }
}

/// What a venue answered.
#[derive(Debug)]
pub struct Response {
    pub status: u16,
    pub body: String,
}

/// What a [`Response`] holds.
pub struct ResponseView {
    pub status: u16,
    pub body: Seq<char>,
}

impl DeepView for Response {
    type V = ResponseView;

    open spec fn deep_view(&self) -> ResponseView {
        ResponseView {
            status: self.status,
            body: self.body@,
        }
    }
}

/// Why nothing came back.
#[derive(Debug)]
pub enum SendError {
    /// The offline switch refused the call before anything was sent.
    Offline(String),
    /// Nothing usable came back: DNS, TLS, timeout, reset.
    Network(String),
}

/// What a [`SendError`] says.
#[allow(inconsistent_fields)]
pub enum SendErrorView {
    Offline(Seq<char>),
    Network(Seq<char>),
}

impl DeepView for SendError {
    type V = SendErrorView;

    open spec fn deep_view(&self) -> SendErrorView {
        match self {
            SendError::Offline(a) => SendErrorView::Offline(a@),
            SendError::Network(a) => SendErrorView::Network(a@),
        }
    }
}

/// Whether the offline switch is on, given what it is set to: any value but empty, `0`, `no`
/// or `false` turns it on.
pub open spec fn offline_flag_spec(value: Option<Seq<char>>) -> bool {
    match value {
        Some(v) => {
            let t = text::trim(v);
            !(t == ""@ || t == "0"@ || t == "no"@ || t == "false"@)
        },
        None => false,
    }
}

/// Whether the offline switch is on, given what it is set to: any value but empty, `0`, `no`
/// or `false` turns it on.
pub fn offline_flag(value: Option<&str>) -> (r: bool)
    ensures
        r == offline_flag_spec(value.deep_view()),
{
    match value {
        Some(v) => {
            let t = text::trimmed(v);
            !(text::same(t.as_str(), "")
                || text::same(t.as_str(), "0")
                || text::same(t.as_str(), "no")
                || text::same(t.as_str(), "false"))
        },
        None => false,
    }
}

/// Why a request is not sent: the offline switch is on, or its method is not one that is
/// used.
pub open spec fn refusal_spec(req: RequestView, offline: bool) -> Option<SendErrorView> {
    if offline {
        Some(
            SendErrorView::Offline(
                "RUNGBOT_OFFLINE is set: refusing network call "@ + req.method + " "@ + req.url,
            ),
        )
    } else if req.method == "GET"@
        || req.method == "POST"@
        || req.method == "DELETE"@
        || req.method == "PUT"@ {
        None
    } else {
        Some(SendErrorView::Network("unsupported method "@ + req.method))
    }
}

/// Why a request is not sent: the offline switch is on, or its method is not one that is
/// used.
pub fn refusal(req: &Request, offline: bool) -> (r: Option<SendError>)
    ensures
        r.deep_view() == refusal_spec(req.deep_view(), offline),
{
    if offline {
        let mut line = text::owned("RUNGBOT_OFFLINE is set: refusing network call ");
        line.push_str(req.method.as_str());
        line.push_str(" ");
        line.push_str(req.url.as_str());
        return Some(SendError::Offline(line));
    }
    if text::same(req.method.as_str(), "GET")
        || text::same(req.method.as_str(), "POST")
        || text::same(req.method.as_str(), "DELETE")
        || text::same(req.method.as_str(), "PUT") {
        return None;
    }
    let mut line2 = text::owned("unsupported method ");
    line2.push_str(req.method.as_str());
    Some(SendError::Network(line2))
}

/// A request as every call is sent.
pub open spec fn prepare_spec(
    method: Seq<char>,
    url: Seq<char>,
    headers: Seq<(Seq<char>, Seq<char>)>,
    body: Option<Seq<char>>,
) -> RequestView {
    RequestView { method, url, headers, body, timeout_s: TIMEOUT_S }
}

/// A request as every call is sent.
pub fn prepare(
    method: &str,
    url: &str,
    headers: Vec<(String, String)>,
    body: Option<String>,
) -> (r: Request)
    ensures
        r.deep_view() == prepare_spec(method@, url@, headers.deep_view(), body.deep_view()),
{
    Request {
        method: text::owned(method),
        url: text::owned(url),
        headers,
        body,
        timeout_s: TIMEOUT_S,
    }
}

/// A failed venue call. The message is the text a caller stores in the journal and mails,
/// `{METHOD} {path} -> {status} {body}` for a refused request.
#[derive(Debug)]
pub struct VenueError {
    pub venue: String,
    /// The HTTP status, when one came back.
    pub status: Option<u16>,
    pub message: String,
}

/// What a [`VenueError`] holds.
pub struct VenueErrorView {
    pub venue: Seq<char>,
    pub status: Option<u16>,
    pub message: Seq<char>,
}

impl DeepView for VenueError {
    type V = VenueErrorView;

    open spec fn deep_view(&self) -> VenueErrorView {
        VenueErrorView {
            venue: self.venue@,
            status: self.status,
            message: self.message@,
        }
    }
}

/// Whether the offline switch refused it.
pub open spec fn refused_offline_spec(e: VenueErrorView) -> bool {
    text::begins(e.message, "RUNGBOT_OFFLINE is set"@)
}

fn refused_offline(e: &VenueError) -> (r: bool)
    ensures
        r == refused_offline_spec(e.deep_view()),
{
    text::begins_with(e.message.as_str(), "RUNGBOT_OFFLINE is set")
}

/// Whether the venue refused the key from this address.
pub open spec fn refused_address_spec(e: VenueErrorView) -> bool {
    let m = text::lower_case(e.message);
    text::holds(m, "ip_forbidden"@)
        || text::holds(m, "not in the ip whitelist"@)
        || text::holds(m, "ip not allowed"@)
}

fn refused_address(e: &VenueError) -> (r: bool)
    ensures
        r == refused_address_spec(e.deep_view()),
{
    let m = text::lowercase(e.message.as_str());
    text::contains(m.as_str(), "ip_forbidden")
        || text::contains(m.as_str(), "not in the ip whitelist")
        || text::contains(m.as_str(), "ip not allowed")
}

/// A hint for the failures that look like bugs and are not.
pub open spec fn hint_for_spec(e: VenueErrorView) -> Option<Seq<char>> {
    if refused_address_spec(e) {
        Some(
            "the venue refused this key from this IP. Either your address changed, or a key without an IP allowlist passed its 90-day expiry. Both are fixed in the venue's API management page, not here."@,
        )
    } else {
        match e.status {
            Some(s) => if s == 401 {
                Some(
                    "the venue rejected the credentials: wrong key, wrong secret, or a revoked key."@,
                )
            } else {
                None
            },
            None => None,
        }
    }
}

fn hint_for(e: &VenueError) -> (r: Option<String>)
    ensures
        r.deep_view() == hint_for_spec(e.deep_view()),
{
    if refused_address(e) {
        return Some(
            text::owned(
                "the venue refused this key from this IP. Either your address changed, or a key without an IP allowlist passed its 90-day expiry. Both are fixed in the venue's API management page, not here.",
            ),
        );
    }
    match e.status {
        Some(s) => {
            if s == 401 {
                return Some(
                    text::owned(
                        "the venue rejected the credentials: wrong key, wrong secret, or a revoked key.",
                    ),
                );
            }
            None
        },
        None => None,
    }
}

/// What came back from one call, before a client decides whether it is a success.
#[derive(Debug)]
pub struct Reply {
    /// None when nothing usable came back (network failure, or a success body that is not
    /// JSON).
    pub status: Option<u16>,
    pub json: Option<Json>,
    /// The body text, or the failure text when there is no status.
    pub text: String,
}

/// What a [`Reply`] holds.
pub struct ReplyView {
    pub status: Option<u16>,
    pub json: Option<Doc>,
    pub text: Seq<char>,
}

impl DeepView for Reply {
    type V = ReplyView;

    open spec fn deep_view(&self) -> ReplyView {
        ReplyView {
            status: self.status,
            json: self.json.deep_view(),
            text: self.text@,
        }
    }
}

/// The body as it is shown.
pub open spec fn shown_body_spec(r: ReplyView) -> Seq<char> {
    if r.status is None || r.json is None {
        r.text
    } else {
        pyfmt::body_spec(r.text)
    }
}

/// The body as it is shown.
pub fn shown_body(r: &Reply) -> (out: String)
    ensures
        out@ == shown_body_spec(r.deep_view()),
{
    if r.status.is_none() || r.json.is_none() {
        return text::owned(r.text.as_str());
    }
    pyfmt::body_str(r.text.as_str())
}

/// The status as it is shown.
pub open spec fn shown_status_spec(r: ReplyView) -> Seq<char> {
    match r.status {
        Some(s) => text::dec(s as nat),
        None => "None"@,
    }
}

/// The status as it is shown.
pub fn shown_status(r: &Reply) -> (out: String)
    ensures
        out@ == shown_status_spec(r.deep_view()),
{
    match r.status {
        Some(s) => text::dec_u64(s as u64),
        None => text::owned("None"),
    }
}

/// What a call comes to. `sent` is what the transport returned, `parsed` its body read as
/// JSON or why it is none.
///
/// A 2xx body must be JSON; one that is not reads as no reply at all. An error status keeps its
/// body, parsed when it is JSON. A network failure gives no status. Only the offline switch is
/// an immediate error, because nothing was attempted.
pub open spec fn settle_spec(
    venue: Seq<char>,
    sent: Result<ResponseView, SendErrorView>,
    parsed: Result<Doc, Seq<char>>,
) -> Result<ReplyView, VenueErrorView> {
    match sent {
        Err(e) => match e {
            SendErrorView::Offline(m) => Err(VenueErrorView { venue, status: None, message: m }),
            SendErrorView::Network(m) => Ok(
                ReplyView { status: None, json: None, text: "<urlopen error "@ + m + ">"@ },
            ),
        },
        Ok(r) => if 200 <= r.status && r.status < 300 {
            match parsed {
                Ok(v) => Ok(ReplyView { status: Some(r.status), json: Some(v), text: r.body }),
                Err(why) => Ok(ReplyView { status: None, json: None, text: why }),
            }
        } else {
            match parsed {
                Ok(v) => Ok(ReplyView { status: Some(r.status), json: Some(v), text: r.body }),
                Err(_) => Ok(ReplyView { status: Some(r.status), json: None, text: r.body }),
            }
        },
    }
}

/// What a call comes to. `sent` is what the transport returned, `parsed` its body read as
/// JSON or why it is none.
///
/// A 2xx body must be JSON; one that is not reads as no reply at all. An error status keeps its
/// body, parsed when it is JSON. A network failure gives no status. Only the offline switch is
/// an immediate error, because nothing was attempted.
pub fn settle(
    venue: &str,
    sent: &Result<Response, SendError>,
    parsed: &Result<Json, String>,
) -> (r: Result<Reply, VenueError>)
    ensures
        list::outcome(r) == settle_spec(venue@, list::outcome(*sent), list::outcome(*parsed)),
{
    match sent {
        Err(e) => match e {
            SendError::Offline(m) => Err(
                VenueError {
                    venue: text::owned(venue),
                    status: None,
                    message: text::owned(m.as_str()),
                },
            ),
            SendError::Network(m) => {
                let mut line = text::owned("<urlopen error ");
                line.push_str(m.as_str());
                line.push_str(">");
                Ok(Reply { status: None, json: None, text: line })
            },
        },
        Ok(r) => {
            if 200 <= r.status && r.status < 300 {
                match parsed {
                    Ok(v) => {
                        return Ok(
                            Reply {
                                status: Some(r.status),
                                json: Some(v.copy()),
                                text: text::owned(r.body.as_str()),
                            },
                        );
                    },
                    Err(why) => {
                        return Ok(
                            Reply { status: None, json: None, text: text::owned(why.as_str()) },
                        );
                    },
                }
            }
            match parsed {
                Ok(v) => Ok(
                    Reply {
                        status: Some(r.status),
                        json: Some(v.copy()),
                        text: text::owned(r.body.as_str()),
                    },
                ),
                Err(_) => Ok(
                    Reply {
                        status: Some(r.status),
                        json: None,
                        text: text::owned(r.body.as_str()),
                    },
                ),
            }
        },
    }
}

/// Of the first `n` headers.
pub open spec fn find_header_spec(
    name: Seq<char>,
    xs: Seq<(Seq<char>, Seq<char>)>,
    found: Option<Seq<char>>,
    n: nat,
) -> Option<Seq<char>>
    decreases n,
{
    if n == 0 {
        found
    } else {
        let found = find_header_spec(name, xs, found, (n - 1) as nat);
        let it = xs[n - 1];
        let k = it.0;
        let v = it.1;
        if found is None && text::ascii_lower(k) == text::ascii_lower(name) {
            Some(v)
        } else {
            found
        }
    }
}

fn find_header(
    name: &str,
    xs: &Vec<(String, String)>,
    found: Option<String>,
) -> (r: Option<String>)
    ensures
        r.deep_view() == find_header_spec(name@, xs.deep_view(), found.deep_view(), xs@.len()),
{
    let ghost found0 = found.deep_view();
    let mut found = found;
    let mut i: usize = 0;
    while i < xs.len()
        invariant
            i <= xs@.len(),
            found.deep_view() == find_header_spec(name@, xs.deep_view(), found0, i as nat),
        decreases xs@.len() - i,
    {
        let it = &xs[i];
        let k = it.0.as_str();
        let v = it.1.as_str();
        if found.is_none() && same_ignoring_case(k, name) {
            found = Some(text::owned(v));
        }
        i = i + 1;
    }
    found
}

/// The value of the first header of a name, capitals or not.
pub open spec fn header_value_spec(
    headers: Seq<(Seq<char>, Seq<char>)>,
    name: Seq<char>,
) -> Option<Seq<char>> {
    let found: Option<Seq<char>> = None;
    find_header_spec(name, headers, found, headers.len())
}

fn header_value(headers: &Vec<(String, String)>, name: &str) -> (r: Option<String>)
    ensures
        r.deep_view() == header_value_spec(headers.deep_view(), name@),
{
    let mut found: Option<String> = None;
    found = find_header(name, headers, found);
    found
}

/// Sends a request.
pub trait Transport {
    fn send(&self, req: &Request) -> Result<Response, SendError>;
}

impl VenueError {
    pub fn new(venue: &str, status: Option<u16>, message: &str) -> (r: VenueError)
        ensures
            r.deep_view() == (VenueErrorView { venue: venue@, status, message: message@ }),
    {
        VenueError { venue: text::owned(venue), status, message: text::owned(message) }
    }

    /// Did the offline switch refuse it?
    pub fn is_offline(&self) -> (r: bool)
        ensures
            r == refused_offline_spec(self.deep_view()),
    {
        refused_offline(self)
    }

    /// The venue refused the key from this address. On Gate a key without an IP allowlist is
    /// disabled after 90 days, silently, and that is what this looks like.
    pub fn is_ip_refusal(&self) -> (r: bool)
        ensures
            r == refused_address_spec(self.deep_view()),
    {
        refused_address(self)
    }

    /// A human hint for the failures that look like bugs and are not.
    pub fn hint(&self) -> (r: Option<String>)
        ensures
            r.deep_view() == hint_for_spec(self.deep_view()),
    {
        hint_for(self)
    }
}

impl Reply {
    /// The body as it is shown.
    pub fn body_str(&self) -> (r: String)
        ensures
            r@ == shown_body_spec(self.deep_view()),
    {
        shown_body(self)
    }

    /// The status as it is shown.
    pub fn status_str(&self) -> (r: String)
        ensures
            r@ == shown_status_spec(self.deep_view()),
    {
        shown_status(self)
    }

    pub fn json_or_null(&self) -> (r: Json)
        ensures
            r@ == json::doc_or_null(self.deep_view().json),
    {
        json::value_or_null(list::borrow(&self.json))
    }
}

/// Whether a reply came back with a status.
pub fn has_status(r: &Reply, status: u16) -> (out: bool)
    ensures
        out == (r.deep_view().status == Some(status)),
{
    match r.status {
        Some(s) => s == status,
        None => false,
    }
}

/// Header value lookup, case-insensitive.
pub fn header(headers: &Vec<(String, String)>, name: &str) -> (r: Option<String>)
    ensures
        r.deep_view() == header_value_spec(headers.deep_view(), name@),
{
    header_value(headers, name)
}

/// While the offline switch is on, every request is refused, and a caller sees that it was.
pub proof fn law_offline_refuses_everything(
    req: RequestView,
    venue: Seq<char>,
    parsed: Result<Doc, Seq<char>>,
)
    ensures
        refusal_spec(req, true) matches Some(e) && (settle_spec(venue, Err(e), parsed) matches Err(v)
            && refused_offline_spec(v)),
{
    let start = "RUNGBOT_OFFLINE is set: refusing network call "@;
    reveal_strlit("RUNGBOT_OFFLINE is set: refusing network call ");
    reveal_strlit("RUNGBOT_OFFLINE is set");
    let m = start + req.method + " "@ + req.url;
    assert(m.subrange(0, "RUNGBOT_OFFLINE is set"@.len() as int) =~= "RUNGBOT_OFFLINE is set"@);
}

proof fn lemma_lower_twice(s: Seq<char>)
    ensures
        text::ascii_lower(text::ascii_lower(s)) == text::ascii_lower(s),
{
    assert(text::ascii_lower(text::ascii_lower(s)) =~= text::ascii_lower(s));
}

proof fn lemma_header_case(
    name: Seq<char>,
    xs: Seq<(Seq<char>, Seq<char>)>,
    found: Option<Seq<char>>,
    n: nat,
)
    requires
        n <= xs.len(),
    ensures
        find_header_spec(name, xs, found, n) == find_header_spec(
            text::ascii_lower(name),
            xs,
            found,
            n,
        ),
    decreases n,
{
    lemma_lower_twice(name);
    if n > 0 {
        lemma_header_case(name, xs, found, (n - 1) as nat);
    }
}

/// Headers are found whatever the capitals of the name asked for.
pub proof fn law_headers_ignore_case(
    headers: Seq<(Seq<char>, Seq<char>)>,
    a: Seq<char>,
    b: Seq<char>,
)
    requires
        text::ascii_lower(a) == text::ascii_lower(b),
    ensures
        header_value_spec(headers, a) == header_value_spec(headers, b),
{
    lemma_header_case(a, headers, None, headers.len());
    lemma_header_case(b, headers, None, headers.len());
}

} // verus!
