//! The requests that the client makes and how it reads the replies.

use vstd::prelude::*;
use vstd::utf8::*;

use crate::api::dto::{
    by_name, list_response_of, name_items, response_of, take_json, taken, ApiResponse, Wire,
};
use crate::ids::{format_id, id_text};
use crate::json::{Json, JsonView, write_json, written_json};
use crate::text::{
    cat2, cat3, cat4, cat5, decimal, decimal_i64, decimal_int, decimal_usize, option_str_view,
    option_view, split_once, split_text_once, strip_text_prefix, text_is_blank, trim_end_char,
    trim_text_end_char, views, without_prefix, is_blank, same_text,
};

verus! {

/// Seconds that a read may take.
pub const HTTP_REQUEST_TIMEOUT: u64 = 30;

/// Seconds that a change of a message may take. The server may have to fetch
/// keys first.
pub const MESSAGE_MUTATION_TIMEOUT: u64 = 60;

/// Seconds that a login, logout, recovery or removal may take.
pub const LIFECYCLE_TIMEOUT: u64 = 300;

/// Seconds that a download may hold a worker.
pub const MEDIA_TIMEOUT: u64 = 60;

/// Seconds that staging an upload may take.
pub const UPLOAD_TIMEOUT: u64 = 120;

/// The largest download, in bytes.
pub const MAX_MEDIA_BYTES: usize = 20_971_520;

// ---------------------------------------------------------------------------
// Errors
// ---------------------------------------------------------------------------

#[derive(Debug)]
pub enum ApiError {
    Request(String),
    Json(String),
    Url(String),
    UnsupportedScheme(String),
    Status { status: u16, message: String },
}

pub enum ApiErrorView {
    Request(Seq<char>),
    Json(Seq<char>),
    Url(Seq<char>),
    UnsupportedScheme(Seq<char>),
    Status { status: u16, message: Seq<char> },
}

impl View for ApiError {
    type V = ApiErrorView;

    open spec fn view(&self) -> ApiErrorView {
        match self {
            ApiError::Request(m) => ApiErrorView::Request(m@),
            ApiError::Json(m) => ApiErrorView::Json(m@),
            ApiError::Url(m) => ApiErrorView::Url(m@),
            ApiError::UnsupportedScheme(m) => ApiErrorView::UnsupportedScheme(m@),
            ApiError::Status { status, message } => ApiErrorView::Status {
                status: *status,
                message: message@,
            },
        }
    }
}

/// How `http` writes a status: its number and its reason.
pub uninterp spec fn status_line(status: u16) -> Seq<char>;

/// The text of a status: `Display` of `reqwest::StatusCode`, which looks the
/// reason up in a table. A number that is no status is written alone.
#[verifier::external_body]
fn format_status(status: u16) -> (out: String)
    ensures
        out@ == status_line(status),
{
    reqwest::StatusCode::from_u16(status).map(|s| s.to_string()).unwrap_or_else(
        |_| status.to_string(),
    )
}

/// The text of an error.
pub open spec fn error_text(e: ApiErrorView) -> Seq<char> {
    match e {
        ApiErrorView::Request(m) => m,
        ApiErrorView::Json(m) => "invalid API JSON: "@ + m,
        ApiErrorView::Url(m) => "invalid base URL: "@ + m,
        ApiErrorView::UnsupportedScheme(m) => "unsupported base URL scheme: "@ + m,
        ApiErrorView::Status { status, message } => "HTTP "@ + status_line(status) + ": "@
            + message,
    }
}

impl ApiError {
    pub fn text(&self) -> (out: String)
        ensures
            out@ == error_text(self@),
    {
        match self {
            ApiError::Request(m) => m.clone(),
            ApiError::Json(m) => cat2("invalid API JSON: ", m.as_str()),
            ApiError::Url(m) => cat2("invalid base URL: ", m.as_str()),
            ApiError::UnsupportedScheme(m) => cat2("unsupported base URL scheme: ", m.as_str()),
            ApiError::Status { status, message } => {
                let line = format_status(*status);
                cat4("HTTP ", line.as_str(), ": ", message.as_str())
            },
        }
    }

    /// Whether the server does not know what was asked for.
    pub fn is_not_found(&self) -> (r: bool)
        ensures
            r == (self matches ApiError::Status { status, .. } && status == 404),
    {
        match self {
            ApiError::Status { status, .. } => *status == 404,
            _ => false,
        }
    }

    pub fn is_service_unavailable(&self) -> (r: bool)
        ensures
            r == (self matches ApiError::Status { status, .. } && status == 503),
    {
        match self {
            ApiError::Status { status, .. } => *status == 503,
            _ => false,
        }
    }

    /// A request that got no reply.
    pub fn from_transport(timed_out: bool, message: &str) -> (out: ApiError)
        ensures
            out@ == (if timed_out {
                ApiErrorView::Request("request timed out"@)
            } else {
                ApiErrorView::Request("request failed: "@ + message@)
            }),
    {
        if timed_out {
            ApiError::Request("request timed out".to_owned())
        } else {
            ApiError::Request(cat2("request failed: ", message))
        }
    }
}

// ---------------------------------------------------------------------------
// Path segments
// ---------------------------------------------------------------------------

/// Whether a byte stands in a path segment as it is.
pub open spec fn unreserved(b: u8) -> bool {
    ||| 0x41 <= b <= 0x5a
    ||| 0x61 <= b <= 0x7a
    ||| 0x30 <= b <= 0x39
    ||| b == 0x2d
    ||| b == 0x2e
    ||| b == 0x5f
    ||| b == 0x7e
}

/// The capital hexadecimal digit of a number below sixteen.
pub open spec fn hex_capital(n: int) -> char {
    if n < 10 {
        (48 + n) as char
    } else {
        (55 + n) as char
    }
}

pub open spec fn escaped_byte(b: u8) -> Seq<char> {
    if unreserved(b) {
        seq![b as char]
    } else {
        seq!['%', hex_capital((b / 16) as int), hex_capital((b % 16) as int)]
    }
}

pub open spec fn escaped_bytes(bytes: Seq<u8>) -> Seq<char>
    decreases bytes.len(),
{
    if bytes.len() == 0 {
        Seq::empty()
    } else {
        escaped_bytes(bytes.drop_last()) + escaped_byte(bytes.last())
    }
}

/// A text as one segment of a path.
pub open spec fn escaped(s: Seq<char>) -> Seq<char> {
    escaped_bytes(encode_utf8(s))
}

fn hex_digit_capital(n: u8) -> (c: char)
    requires
        n < 16,
    ensures
        c == hex_capital(n as int),
{
    if n < 10 {
        (48 + n) as char
    } else {
        (55 + n) as char
    }
}

/// `value` as one segment of a path: every byte but letters, digits, `-`, `.`,
/// `_` and `~` is written as a percent sign and two digits.
pub fn path_segment(value: &str) -> (out: String)
    ensures
        out@ == escaped(value@),
{
    let bytes = value.as_bytes();
    let mut out = String::new();
    let mut i: usize = 0;
    while i < bytes.len()
        invariant
            i <= bytes.len(),
            out@ == escaped_bytes(bytes@.take(i as int)),
        decreases bytes.len() - i,
    {
        let b: u8 = bytes[i];
        assert(bytes@.take(i + 1).drop_last() =~= bytes@.take(i as int));
        let ghost before = out@;
        if (0x41 <= b && b <= 0x5a) || (0x61 <= b && b <= 0x7a) || (0x30 <= b && b <= 0x39) || b
            == 0x2d || b == 0x2e || b == 0x5f || b == 0x7e {
            out.push(b as char);
            assert(out@ =~= before + escaped_byte(b));
        } else {
            out.push('%');
            out.push(hex_digit_capital(b / 16));
            out.push(hex_digit_capital(b % 16));
            assert(out@ =~= before + escaped_byte(b));
        }
        i = i + 1;
    }
    assert(bytes@.take(i as int) =~= bytes@);
    out
}

/// Whether a character may stand in an escaped segment.
pub open spec fn segment_char(c: char) -> bool {
    c == '%' || ((c as u32) < 128 && unreserved(c as u8))
}

proof fn lemma_escaped_chars(bytes: Seq<u8>)
    ensures
        forall|i: int|
            0 <= i < escaped_bytes(bytes).len() ==> segment_char(#[trigger] escaped_bytes(bytes)[i]),
    decreases bytes.len(),
{
    if bytes.len() > 0 {
        lemma_escaped_chars(bytes.drop_last());
        let b = bytes.last();
        assert forall|i: int| 0 <= i < escaped_byte(b).len() implies segment_char(
            #[trigger] escaped_byte(b)[i],
        ) by {
        }
        let before = escaped_bytes(bytes.drop_last());
        assert forall|i: int| 0 <= i < escaped_bytes(bytes).len() implies segment_char(
            #[trigger] escaped_bytes(bytes)[i],
        ) by {
            if i < before.len() {
                assert(segment_char(before[i]));
            } else {
                assert(segment_char(escaped_byte(b)[i - before.len()]));
            }
        }
    }
}

/// An escaped segment holds nothing that ends or splits a path segment.
pub proof fn law_segment_is_one_segment(s: Seq<char>)
    ensures
        forall|i: int| 0 <= i < escaped(s).len() ==> segment_char(#[trigger] escaped(s)[i]),
        !escaped(s).contains('/'),
        !escaped(s).contains('?'),
        !escaped(s).contains('#'),
{
    lemma_escaped_chars(encode_utf8(s));
}

proof fn lemma_hex_capital_inj(a: int, b: int)
    requires
        0 <= a < 16,
        0 <= b < 16,
        hex_capital(a) == hex_capital(b),
    ensures
        a == b,
{
}

proof fn lemma_escaped_injective(a: Seq<u8>, b: Seq<u8>)
    requires
        escaped_bytes(a) == escaped_bytes(b),
    ensures
        a == b,
    decreases a.len() + b.len(),
{
    let x = escaped_bytes(a);
    if a.len() == 0 {
        if b.len() > 0 {
            assert(escaped_byte(b.last()).len() > 0);
        }
        assert(a =~= b);
    } else if b.len() == 0 {
        assert(escaped_byte(a.last()).len() > 0);
    } else {
        let (p, q) = (a.last(), b.last());
        let (xa, xb) = (escaped_bytes(a.drop_last()), escaped_bytes(b.drop_last()));
        let n = x.len() as int;
        lemma_escaped_chars(a.drop_last());
        lemma_escaped_chars(b.drop_last());
        assert(x == xa + escaped_byte(p));
        assert(x == xb + escaped_byte(q));
        if unreserved(p) && unreserved(q) {
            assert(x[n - 1] == p as char);
            assert(x[n - 1] == q as char);
            assert(p == q);
        } else if !unreserved(p) && !unreserved(q) {
            assert(x[n - 1] == hex_capital((p % 16) as int));
            assert(x[n - 1] == hex_capital((q % 16) as int));
            assert(x[n - 2] == hex_capital((p / 16) as int));
            assert(x[n - 2] == hex_capital((q / 16) as int));
            lemma_hex_capital_inj((p % 16) as int, (q % 16) as int);
            lemma_hex_capital_inj((p / 16) as int, (q / 16) as int);
            assert(p == q);
        } else if unreserved(p) {
            lemma_mixed_tail(a, b);
        } else {
            lemma_mixed_tail(b, a);
        }
        assert(xa =~= x.take(n - escaped_byte(p).len()));
        assert(xb =~= x.take(n - escaped_byte(p).len()));
        lemma_escaped_injective(a.drop_last(), b.drop_last());
        assert(a =~= a.drop_last().push(p));
        assert(b =~= b.drop_last().push(q));
    }
}

/// Where a percent sign stands in escaped bytes, two digits follow it.
proof fn lemma_percent_room(bytes: Seq<u8>, i: int)
    requires
        0 <= i < escaped_bytes(bytes).len(),
        escaped_bytes(bytes)[i] == '%',
    ensures
        i + 2 < escaped_bytes(bytes).len(),
    decreases bytes.len(),
{
    let before = escaped_bytes(bytes.drop_last());
    if i < before.len() {
        lemma_percent_room(bytes.drop_last(), i);
    }
}

/// Escaped bytes that end in a plain byte never equal ones that end in an
/// escape.
proof fn lemma_mixed_tail(a: Seq<u8>, b: Seq<u8>)
    requires
        a.len() > 0,
        b.len() > 0,
        unreserved(a.last()),
        !unreserved(b.last()),
    ensures
        escaped_bytes(a) != escaped_bytes(b),
{
    let x = escaped_bytes(a);
    let n = x.len() as int;
    if x == escaped_bytes(b) {
        assert(x[n - 3] == '%') by {
            assert(escaped_bytes(b)[n - 3] == escaped_byte(b.last())[0]);
        }
        let before = escaped_bytes(a.drop_last());
        assert(before.len() == n - 1);
        assert(before[n - 3] == '%');
        lemma_percent_room(a.drop_last(), n - 3);
    }
}

/// Two texts with the same segment are the same text.
pub proof fn law_segment_is_injective(a: Seq<char>, b: Seq<char>)
    requires
        escaped(a) == escaped(b),
    ensures
        a == b,
{
    lemma_escaped_injective(encode_utf8(a), encode_utf8(b));
    encode_utf8_decode_utf8(a);
    encode_utf8_decode_utf8(b);
}

// ---------------------------------------------------------------------------
// Requests
// ---------------------------------------------------------------------------

#[derive(Debug, Clone, Copy, PartialEq, Eq, Structural)]
pub enum Method {
    Get,
    Post,
    Put,
    Delete,
}

#[derive(Debug)]
pub enum Body {
    Empty,
    Json(Json),
    Bytes(Vec<u8>),
}

#[verifier::ext_equal]
pub enum BodyView {
    Empty,
    Json(JsonView),
    Bytes(Seq<u8>),
}

impl View for Body {
    type V = BodyView;

    open spec fn view(&self) -> BodyView {
        match self {
            Body::Empty => BodyView::Empty,
            Body::Json(j) => BodyView::Json(j@),
            Body::Bytes(b) => BodyView::Bytes(b@),
        }
    }
}

impl BodyView {
    /// The text of a body of JSON.
    pub open spec fn text(self) -> Option<Seq<char>> {
        match self {
            BodyView::Json(j) => Some(written_json(j)),
            _ => None,
        }
    }
}

impl Body {
    /// The text of a body of JSON.
    pub fn text(&self) -> (out: Option<String>)
        ensures
            option_view(out) == self@.text(),
    {
        match self {
            Body::Json(j) => Some(write_json(j)),
            _ => None,
        }
    }
}

/// A request to the server, ready to be sent.
#[derive(Debug)]
pub struct Request {
    pub method: Method,
    pub url: String,
    pub query: Vec<(String, String)>,
    pub content_type: Option<String>,
    pub body: Body,
    /// Seconds after which the request is given up.
    pub timeout: u64,
}

#[verifier::ext_equal]
pub struct RequestView {
    pub method: Method,
    pub url: Seq<char>,
    pub query: Seq<(Seq<char>, Seq<char>)>,
    pub content_type: Option<Seq<char>>,
    pub body: BodyView,
    pub timeout: u64,
}

pub open spec fn pair_views(query: Seq<(String, String)>) -> Seq<(Seq<char>, Seq<char>)> {
    Seq::new(query.len(), |i: int| (query[i].0@, query[i].1@))
}

impl View for Request {
    type V = RequestView;

    open spec fn view(&self) -> RequestView {
        RequestView {
            method: self.method,
            url: self.url@,
            query: pair_views(self.query@),
            content_type: option_view(self.content_type),
            body: self.body@,
            timeout: self.timeout,
        }
    }
}

/// A request without query, content type or body.
pub open spec fn bare(method: Method, url: Seq<char>, timeout: u64) -> RequestView {
    RequestView {
        method,
        url,
        query: Seq::empty(),
        content_type: None,
        body: BodyView::Empty,
        timeout,
    }
}

impl RequestView {
    pub open spec fn with_query(self, key: Seq<char>, value: Seq<char>) -> RequestView {
        RequestView { query: self.query.push((key, value)), ..self }
    }

    pub open spec fn with_maybe_query(self, key: Seq<char>, value: Option<Seq<char>>) -> RequestView {
        match value {
            Some(v) => self.with_query(key, v),
            None => self,
        }
    }

    pub open spec fn with_json(self, members: Seq<(Seq<char>, JsonView)>) -> RequestView {
        RequestView { body: BodyView::Json(JsonView::Object(members)), ..self }
    }
}

impl Request {
    fn bare(method: Method, url: String, timeout: u64) -> (out: Request)
        ensures
            out@ == bare(method, url@, timeout),
    {
        let query: Vec<(String, String)> = Vec::new();
        assert(pair_views(query@) =~= Seq::<(Seq<char>, Seq<char>)>::empty());
        Request { method, url, query, content_type: None, body: Body::Empty, timeout }
    }

    fn with_query(self, key: &str, value: &str) -> (out: Request)
        ensures
            out@ == self@.with_query(key@, value@),
    {
        let mut out = self;
        let ghost before = pair_views(out.query@);
        out.query.push((key.to_owned(), value.to_owned()));
        assert(pair_views(out.query@) =~= before.push((key@, value@)));
        out
    }

    fn with_maybe_query(self, key: &str, value: Option<&str>) -> (out: Request)
        ensures
            out@ == self@.with_maybe_query(key@, option_str_view(value)),
    {
        match value {
            Some(v) => self.with_query(key, v),
            None => self,
        }
    }

    fn with_json(self, members: Members) -> (out: Request)
        ensures
            out@ == self@.with_json(members@),
    {
        let mut out = self;
        let j = Json::Object(members.list);
        assert(j@->Object_0 =~= members@);
        out.body = Body::Json(j);
        out
    }
}

/// The members of an object under construction.
pub struct Members {
    pub list: Vec<(String, Json)>,
}

impl View for Members {
    type V = Seq<(Seq<char>, JsonView)>;

    open spec fn view(&self) -> Seq<(Seq<char>, JsonView)> {
        Seq::new(self.list@.len(), |i: int| (self.list@[i].0@, self.list@[i].1@))
    }
}

/// `members` and a text under one more key, where there is one.
pub open spec fn and_maybe(
    members: Seq<(Seq<char>, JsonView)>,
    key: Seq<char>,
    value: Option<Seq<char>>,
) -> Seq<(Seq<char>, JsonView)> {
    match value {
        Some(v) => members.push((key, JsonView::Text(v))),
        None => members,
    }
}

impl Members {
    pub fn new() -> (out: Members)
        ensures
            out@ == Seq::<(Seq<char>, JsonView)>::empty(),
    {
        let out = Members { list: Vec::new() };
        assert(out@ =~= Seq::<(Seq<char>, JsonView)>::empty());
        out
    }

    pub fn and(self, key: &str, value: Json) -> (out: Members)
        ensures
            out@ == self@.push((key@, value@)),
    {
        let mut out = self;
        let ghost before = out@;
        out.list.push((key.to_owned(), value));
        assert(out@ =~= before.push((key@, value@)));
        out
    }

    pub fn and_text(self, key: &str, value: &str) -> (out: Members)
        ensures
            out@ == self@.push((key@, JsonView::Text(value@))),
    {
        self.and(key, Json::Text(value.to_owned()))
    }

    pub fn and_maybe(self, key: &str, value: Option<&str>) -> (out: Members)
        ensures
            out@ == and_maybe(self@, key@, option_str_view(value)),
    {
        match value {
            Some(v) => self.and_text(key, v),
            None => self,
        }
    }

    pub fn into_json(self) -> (out: Json)
        ensures
            out@ == JsonView::Object(self@),
    {
        let out = Json::Object(self.list);
        assert(out@->Object_0 =~= self@);
        out
    }
}

/// What a sent message relates to: a message that it replies to, or a thread
/// root.
#[derive(Debug, Clone, Copy)]
pub struct SendRelation<'a> {
    pub reply_to: Option<&'a str>,
    pub thread_root: Option<&'a str>,
}

impl<'a> Default for SendRelation<'a> {
    fn default() -> (out: SendRelation<'a>)
        ensures
            out.reply_to is None,
            out.thread_root is None,
    {
        SendRelation { reply_to: None, thread_root: None }
    }
}

/// The parameters of a search.
#[derive(Debug)]
pub struct SearchRequest {
    pub q: String,
    pub account_id: Option<u128>,
    pub room_id: Option<String>,
    pub sender: Option<String>,
    pub from: Option<i64>,
    pub to: Option<i64>,
    pub limit: usize,
    pub cursor: Option<String>,
}

pub open spec fn maybe_id_text(id: Option<u128>) -> Option<Seq<char>> {
    match id {
        Some(id) => Some(id_text(id)),
        None => None,
    }
}

pub open spec fn maybe_decimal(n: Option<i64>) -> Option<Seq<char>> {
    match n {
        Some(n) => Some(decimal_int(n as int)),
        None => None,
    }
}

fn maybe_format_id(id: Option<u128>) -> (out: Option<String>)
    ensures
        option_view(out) == maybe_id_text(id),
{
    match id {
        Some(id) => Some(format_id(id)),
        None => None,
    }
}

fn maybe_format_int(n: Option<i64>) -> (out: Option<String>)
    ensures
        option_view(out) == maybe_decimal(n),
{
    match n {
        Some(n) => Some(decimal_i64(n)),
        None => None,
    }
}

fn opt_str<'a>(s: &'a Option<String>) -> (out: Option<&'a str>)
    ensures
        option_str_view(out) == option_view(*s),
{
    match s {
        Some(t) => Some(t.as_str()),
        None => None,
    }
}

/// The value of the header that carries a token.
pub fn bearer_value_str(token: &str) -> (out: String)
    ensures
        out@ == "Bearer "@ + token@,
{
    cat2("Bearer ", token)
}

/// The address of the server and the token, if any.
#[derive(Debug, Clone)]
pub struct AxonClient {
    base_url: String,
    token: Option<String>,
}

/// The address of an account on the server.
pub open spec fn account_url(base: Seq<char>, account_id: u128) -> Seq<char> {
    base + "/v1/accounts/"@ + id_text(account_id)
}

/// The address of a room of an account on the server.
pub open spec fn room_url(base: Seq<char>, account_id: u128, room_id: Seq<char>) -> Seq<char> {
    account_url(base, account_id) + "/rooms/"@ + escaped(room_id)
}

pub open spec fn event_url(
    base: Seq<char>,
    account_id: u128,
    room_id: Seq<char>,
    event_id: Seq<char>,
) -> Seq<char> {
    room_url(base, account_id, room_id) + "/events/"@ + escaped(event_id)
}

/// The server and the media id of an `mxc://` address.
pub open spec fn mxc_parts(url: Seq<char>) -> Result<(Seq<char>, Seq<char>), ApiErrorView> {
    match without_prefix(url, "mxc://"@) {
        None => Err(ApiErrorView::Url("not an mxc:// URI"@)),
        Some(rest) => match split_once(rest, '/') {
            None => Err(ApiErrorView::Url("malformed mxc:// URI"@)),
            Some((server, media)) => if server.len() == 0 || media.len() == 0 {
                Err(ApiErrorView::Url("malformed mxc:// URI"@))
            } else {
                Ok((server, media))
            },
        },
    }
}

pub open spec fn formatted_members(
    members: Seq<(Seq<char>, JsonView)>,
    formatted: Option<(&str, &str)>,
) -> Seq<(Seq<char>, JsonView)> {
    match formatted {
        Some((format, body)) => members.push(("format"@, JsonView::Text(format@))).push(
            ("formatted_body"@, JsonView::Text(body@)),
        ),
        None => members,
    }
}

impl AxonClient {
    /// The address of the server.
    pub closed spec fn base(self) -> Seq<char> {
        self.base_url@
    }

    pub closed spec fn bearer(self) -> Option<Seq<char>> {
        option_view(self.token)
    }

    pub fn new(base_url: String, token: Option<String>) -> (out: AxonClient)
        ensures
            out.base() == trim_end_char(base_url@, '/'),
            out.bearer() == option_view(token),
    {
        AxonClient { base_url: trim_text_end_char(base_url.as_str(), '/').to_owned(), token }
    }

    pub fn base_url(&self) -> (out: &str)
        ensures
            out@ == self.base(),
    {
        self.base_url.as_str()
    }

    pub fn has_bearer_token(&self) -> (r: bool)
        ensures
            r == (self.bearer() is Some),
    {
        self.token.is_some()
    }

    /// The header that carries the token.
    pub fn authorization(&self) -> (out: Option<String>)
        ensures
            option_view(out) == match self.bearer() {
                Some(t) => Some("Bearer "@ + t),
                None => None,
            },
    {
        match &self.token {
            Some(t) => Some(bearer_value_str(t.as_str())),
            None => None,
        }
    }

    fn account_url(&self, account_id: u128) -> (out: String)
        ensures
            out@ == account_url(self.base(), account_id),
    {
        let id = format_id(account_id);
        cat3(self.base_url.as_str(), "/v1/accounts/", id.as_str())
    }

    fn room_url(&self, account_id: u128, room_id: &str) -> (out: String)
        ensures
            out@ == room_url(self.base(), account_id, room_id@),
    {
        let account = self.account_url(account_id);
        let room = path_segment(room_id);
        cat3(account.as_str(), "/rooms/", room.as_str())
    }

    fn event_url(&self, account_id: u128, room_id: &str, event_id: &str) -> (out: String)
        ensures
            out@ == event_url(self.base(), account_id, room_id@, event_id@),
    {
        let room = self.room_url(account_id, room_id);
        let event = path_segment(event_id);
        cat3(room.as_str(), "/events/", event.as_str())
    }

    pub fn list_rooms(&self, account_id: Option<u128>) -> (out: Request)
        ensures
            out@ == bare(Method::Get, self.base() + "/v1/rooms"@, HTTP_REQUEST_TIMEOUT)
                .with_maybe_query("account_id"@, maybe_id_text(account_id)),
    {
        let id = maybe_format_id(account_id);
        Request::bare(
            Method::Get,
            cat2(self.base_url.as_str(), "/v1/rooms"),
            HTTP_REQUEST_TIMEOUT,
        ).with_maybe_query("account_id", opt_str(&id))
    }

    pub fn list_accounts(&self) -> (out: Request)
        ensures
            out@ == bare(Method::Get, self.base() + "/v1/accounts"@, HTTP_REQUEST_TIMEOUT),
    {
        Request::bare(
            Method::Get,
            cat2(self.base_url.as_str(), "/v1/accounts"),
            HTTP_REQUEST_TIMEOUT,
        )
    }

    /// Logs an account in. The homeserver is named only where the caller names
    /// it; else the server finds it from the user id.
    pub fn login(&self, username: &str, password: &str, homeserver_url: Option<&str>) -> (out:
        Request)
        ensures
            out@ == bare(Method::Post, self.base() + "/v1/accounts/login"@, LIFECYCLE_TIMEOUT)
                .with_json(
                and_maybe(
                    seq![
                        ("username"@, JsonView::Text(username@)),
                        ("password"@, JsonView::Text(password@)),
                    ],
                    "homeserver_url"@,
                    option_str_view(homeserver_url),
                ),
            ),
    {
        let members = Members::new().and_text("username", username).and_text(
            "password",
            password,
        );
        assert(members@ =~= seq![
            ("username"@, JsonView::Text(username@)),
            ("password"@, JsonView::Text(password@)),
        ]);
        Request::bare(
            Method::Post,
            cat2(self.base_url.as_str(), "/v1/accounts/login"),
            LIFECYCLE_TIMEOUT,
        ).with_json(members.and_maybe("homeserver_url", homeserver_url))
    }

    pub fn logout(&self, account_id: u128) -> (out: Request)
        ensures
            out@ == bare(
                Method::Post,
                account_url(self.base(), account_id) + "/logout"@,
                LIFECYCLE_TIMEOUT,
            ),
    {
        let account = self.account_url(account_id);
        Request::bare(Method::Post, cat2(account.as_str(), "/logout"), LIFECYCLE_TIMEOUT)
    }

    pub fn recover(&self, account_id: u128, recovery_key: &str) -> (out: Request)
        ensures
            out@ == bare(
                Method::Post,
                account_url(self.base(), account_id) + "/recover"@,
                LIFECYCLE_TIMEOUT,
            ).with_json(seq![("recovery_key"@, JsonView::Text(recovery_key@))]),
    {
        let account = self.account_url(account_id);
        let members = Members::new().and_text("recovery_key", recovery_key);
        assert(members@ =~= seq![("recovery_key"@, JsonView::Text(recovery_key@))]);
        Request::bare(
            Method::Post,
            cat2(account.as_str(), "/recover"),
            LIFECYCLE_TIMEOUT,
        ).with_json(members)
    }

    /// Enables the key backup. Without a key the server only resumes uploading.
    pub fn enable_backup(&self, account_id: u128, recovery_key: Option<&str>) -> (out: Request)
        ensures
            out@ == bare(
                Method::Post,
                account_url(self.base(), account_id) + "/backup/enable"@,
                LIFECYCLE_TIMEOUT,
            ).with_json(
                and_maybe(Seq::empty(), "recovery_key"@, option_str_view(recovery_key)),
            ),
    {
        let account = self.account_url(account_id);
        Request::bare(
            Method::Post,
            cat2(account.as_str(), "/backup/enable"),
            LIFECYCLE_TIMEOUT,
        ).with_json(Members::new().and_maybe("recovery_key", recovery_key))
    }

    pub fn delete_account(&self, account_id: u128) -> (out: Request)
        ensures
            out@ == bare(
                Method::Delete,
                account_url(self.base(), account_id),
                LIFECYCLE_TIMEOUT,
            ),
    {
        Request::bare(Method::Delete, self.account_url(account_id), LIFECYCLE_TIMEOUT)
    }

    pub fn room_timeline(
        &self,
        account_id: u128,
        room_id: &str,
        cursor: Option<&str>,
        at_ts: Option<i64>,
        limit: usize,
    ) -> (out: Request)
        ensures
            out@ == bare(
                Method::Get,
                room_url(self.base(), account_id, room_id@) + "/timeline"@,
                HTTP_REQUEST_TIMEOUT,
            ).with_query("limit"@, decimal(limit as nat)).with_maybe_query(
                "cursor"@,
                option_str_view(cursor),
            ).with_maybe_query("at_ts"@, maybe_decimal(at_ts)),
    {
        let room = self.room_url(account_id, room_id);
        let limit_text = decimal_usize(limit);
        let at = maybe_format_int(at_ts);
        Request::bare(
            Method::Get,
            cat2(room.as_str(), "/timeline"),
            HTTP_REQUEST_TIMEOUT,
        ).with_query("limit", limit_text.as_str()).with_maybe_query(
            "cursor",
            cursor,
        ).with_maybe_query("at_ts", opt_str(&at))
    }

    pub fn search(&self, params: &SearchRequest) -> (out: Request)
        ensures
            out@ == bare(Method::Get, self.base() + "/v1/search"@, HTTP_REQUEST_TIMEOUT).with_query(
                "q"@,
                params.q@,
            ).with_maybe_query("account_id"@, maybe_id_text(params.account_id)).with_maybe_query(
                "room_id"@,
                option_view(params.room_id),
            ).with_maybe_query("sender"@, option_view(params.sender)).with_maybe_query(
                "from"@,
                maybe_decimal(params.from),
            ).with_maybe_query("to"@, maybe_decimal(params.to)).with_query(
                "limit"@,
                decimal(params.limit as nat),
            ).with_maybe_query("cursor"@, option_view(params.cursor)),
    {
        let account = maybe_format_id(params.account_id);
        let from = maybe_format_int(params.from);
        let to = maybe_format_int(params.to);
        let limit = decimal_usize(params.limit);
        Request::bare(
            Method::Get,
            cat2(self.base_url.as_str(), "/v1/search"),
            HTTP_REQUEST_TIMEOUT,
        ).with_query("q", params.q.as_str()).with_maybe_query(
            "account_id",
            opt_str(&account),
        ).with_maybe_query("room_id", opt_str(&params.room_id)).with_maybe_query(
            "sender",
            opt_str(&params.sender),
        ).with_maybe_query("from", opt_str(&from)).with_maybe_query(
            "to",
            opt_str(&to),
        ).with_query("limit", limit.as_str()).with_maybe_query("cursor", opt_str(&params.cursor))
    }

    fn device_state_url(&self, device_id: u128, namespace: &str) -> (out: String)
        ensures
            out@ == self.base() + "/v1/devices/"@ + id_text(device_id) + "/state/"@ + escaped(
                namespace@,
            ),
    {
        let device = format_id(device_id);
        let segment = path_segment(namespace);
        cat5(
            self.base_url.as_str(),
            "/v1/devices/",
            device.as_str(),
            "/state/",
            segment.as_str(),
        )
    }

    /// Reads one namespace of the state that the devices of an account share.
    pub fn get_device_state(&self, device_id: u128, account_id: u128, namespace: &str) -> (out:
        Request)
        ensures
            out@ == bare(
                Method::Get,
                self.base() + "/v1/devices/"@ + id_text(device_id) + "/state/"@ + escaped(
                    namespace@,
                ),
                HTTP_REQUEST_TIMEOUT,
            ).with_query("account_id"@, id_text(account_id)),
    {
        let account = format_id(account_id);
        Request::bare(
            Method::Get,
            self.device_state_url(device_id, namespace),
            HTTP_REQUEST_TIMEOUT,
        ).with_query("account_id", account.as_str())
    }

    /// Writes entries of a namespace. A null deletes its key.
    pub fn put_device_state(
        &self,
        device_id: u128,
        account_id: u128,
        namespace: &str,
        entries: Members,
    ) -> (out: Request)
        ensures
            out@ == bare(
                Method::Put,
                self.base() + "/v1/devices/"@ + id_text(device_id) + "/state/"@ + escaped(
                    namespace@,
                ),
                HTTP_REQUEST_TIMEOUT,
            ).with_query("account_id"@, id_text(account_id)).with_json(
                seq![("entries"@, JsonView::Object(entries@))],
            ),
    {
        let account = format_id(account_id);
        let members = Members::new().and("entries", entries.into_json());
        assert(members@ =~= seq![("entries"@, JsonView::Object(entries@))]);
        Request::bare(
            Method::Put,
            self.device_state_url(device_id, namespace),
            HTTP_REQUEST_TIMEOUT,
        ).with_query("account_id", account.as_str()).with_json(members)
    }

    pub fn room_members(&self, account_id: u128, room_id: &str) -> (out: Request)
        ensures
            out@ == bare(
                Method::Get,
                room_url(self.base(), account_id, room_id@) + "/members"@,
                HTTP_REQUEST_TIMEOUT,
            ),
    {
        let room = self.room_url(account_id, room_id);
        Request::bare(Method::Get, cat2(room.as_str(), "/members"), HTTP_REQUEST_TIMEOUT)
    }

    fn message_members(&self, body: &str, formatted: Option<(&str, &str)>) -> (out: Members)
        ensures
            out@ == formatted_members(seq![("body"@, JsonView::Text(body@))], formatted),
    {
        let members = Members::new().and_text("body", body);
        assert(members@ =~= seq![("body"@, JsonView::Text(body@))]);
        match formatted {
            Some((format, text)) => members.and_text("format", format).and_text(
                "formatted_body",
                text,
            ),
            None => members,
        }
    }

    pub fn send_message(
        &self,
        account_id: u128,
        room_id: &str,
        body: &str,
        formatted: Option<(&str, &str)>,
        relation: SendRelation<'_>,
    ) -> (out: Request)
        ensures
            out@ == bare(
                Method::Post,
                room_url(self.base(), account_id, room_id@) + "/send"@,
                MESSAGE_MUTATION_TIMEOUT,
            ).with_json(
                and_maybe(
                    and_maybe(
                        formatted_members(seq![("body"@, JsonView::Text(body@))], formatted),
                        "reply_to"@,
                        option_str_view(relation.reply_to),
                    ),
                    "thread_root"@,
                    option_str_view(relation.thread_root),
                ),
            ),
    {
        let room = self.room_url(account_id, room_id);
        let members = self.message_members(body, formatted).and_maybe(
            "reply_to",
            relation.reply_to,
        ).and_maybe("thread_root", relation.thread_root);
        Request::bare(
            Method::Post,
            cat2(room.as_str(), "/send"),
            MESSAGE_MUTATION_TIMEOUT,
        ).with_json(members)
    }

    pub fn edit_message(
        &self,
        account_id: u128,
        room_id: &str,
        event_id: &str,
        body: &str,
        formatted: Option<(&str, &str)>,
    ) -> (out: Request)
        ensures
            out@ == bare(
                Method::Put,
                event_url(self.base(), account_id, room_id@, event_id@),
                MESSAGE_MUTATION_TIMEOUT,
            ).with_json(formatted_members(seq![("body"@, JsonView::Text(body@))], formatted)),
    {
        let members = self.message_members(body, formatted);
        Request::bare(
            Method::Put,
            self.event_url(account_id, room_id, event_id),
            MESSAGE_MUTATION_TIMEOUT,
        ).with_json(members)
    }

    pub fn redact_event(
        &self,
        account_id: u128,
        room_id: &str,
        event_id: &str,
        reason: Option<&str>,
    ) -> (out: Request)
        ensures
            out@ == bare(
                Method::Delete,
                event_url(self.base(), account_id, room_id@, event_id@),
                MESSAGE_MUTATION_TIMEOUT,
            ).with_maybe_query("reason"@, option_str_view(reason)),
    {
        Request::bare(
            Method::Delete,
            self.event_url(account_id, room_id, event_id),
            MESSAGE_MUTATION_TIMEOUT,
        ).with_maybe_query("reason", reason)
    }

    pub fn react(&self, account_id: u128, room_id: &str, event_id: &str, key: &str) -> (out:
        Request)
        ensures
            out@ == bare(
                Method::Post,
                event_url(self.base(), account_id, room_id@, event_id@) + "/reactions"@,
                MESSAGE_MUTATION_TIMEOUT,
            ).with_json(seq![("key"@, JsonView::Text(key@))]),
    {
        let event = self.event_url(account_id, room_id, event_id);
        let members = Members::new().and_text("key", key);
        assert(members@ =~= seq![("key"@, JsonView::Text(key@))]);
        Request::bare(
            Method::Post,
            cat2(event.as_str(), "/reactions"),
            MESSAGE_MUTATION_TIMEOUT,
        ).with_json(members)
    }

    /// Tells the homeserver that the room is read up to an event.
    pub fn send_read_receipt(&self, account_id: u128, room_id: &str, event_id: &str) -> (out:
        Request)
        ensures
            out@ == bare(
                Method::Post,
                room_url(self.base(), account_id, room_id@) + "/read"@,
                MESSAGE_MUTATION_TIMEOUT,
            ).with_json(seq![("event_id"@, JsonView::Text(event_id@))]),
    {
        let room = self.room_url(account_id, room_id);
        let members = Members::new().and_text("event_id", event_id);
        assert(members@ =~= seq![("event_id"@, JsonView::Text(event_id@))]);
        Request::bare(
            Method::Post,
            cat2(room.as_str(), "/read"),
            MESSAGE_MUTATION_TIMEOUT,
        ).with_json(members)
    }

    pub fn send_typing_notice(&self, account_id: u128, room_id: &str, typing: bool) -> (out:
        Request)
        ensures
            out@ == bare(
                Method::Put,
                room_url(self.base(), account_id, room_id@) + "/typing"@,
                MESSAGE_MUTATION_TIMEOUT,
            ).with_json(seq![("typing"@, JsonView::Bool(typing))]),
    {
        let room = self.room_url(account_id, room_id);
        let members = Members::new().and("typing", Json::Bool(typing));
        assert(members@ =~= seq![("typing"@, JsonView::Bool(typing))]);
        Request::bare(
            Method::Put,
            cat2(room.as_str(), "/typing"),
            MESSAGE_MUTATION_TIMEOUT,
        ).with_json(members)
    }

    /// A request that changes a membership of a room.
    pub fn room_membership_request(&self, account_id: u128, room_id: &str, verb: &str) -> (out:
        Request)
        ensures
            out@ == bare(
                Method::Post,
                room_url(self.base(), account_id, room_id@) + "/"@ + verb@,
                MESSAGE_MUTATION_TIMEOUT,
            ),
    {
        let room = self.room_url(account_id, room_id);
        Request::bare(Method::Post, cat3(room.as_str(), "/", verb), MESSAGE_MUTATION_TIMEOUT)
    }

    pub fn leave_room(&self, account_id: u128, room_id: &str) -> (out: Request)
        ensures
            out@ == bare(
                Method::Post,
                room_url(self.base(), account_id, room_id@) + "/"@ + "leave"@,
                MESSAGE_MUTATION_TIMEOUT,
            ),
    {
        self.room_membership_request(account_id, room_id, "leave")
    }

    pub fn forget_room(&self, account_id: u128, room_id: &str) -> (out: Request)
        ensures
            out@ == bare(
                Method::Post,
                room_url(self.base(), account_id, room_id@) + "/"@ + "forget"@,
                MESSAGE_MUTATION_TIMEOUT,
            ),
    {
        self.room_membership_request(account_id, room_id, "forget")
    }

    pub fn invite_user(&self, account_id: u128, room_id: &str, user_id: &str) -> (out: Request)
        ensures
            out@ == bare(
                Method::Post,
                room_url(self.base(), account_id, room_id@) + "/"@ + "invite"@,
                MESSAGE_MUTATION_TIMEOUT,
            ).with_json(seq![("user_id"@, JsonView::Text(user_id@))]),
    {
        let members = Members::new().and_text("user_id", user_id);
        assert(members@ =~= seq![("user_id"@, JsonView::Text(user_id@))]);
        self.room_membership_request(account_id, room_id, "invite").with_json(members)
    }

    /// A kick, ban or unban. A blank reason is left out.
    pub open spec fn moderation(
        base: Seq<char>,
        account_id: u128,
        room_id: Seq<char>,
        verb: Seq<char>,
        user_id: Seq<char>,
        reason: Option<Seq<char>>,
    ) -> RequestView {
        bare(
            Method::Post,
            room_url(base, account_id, room_id) + "/"@ + verb,
            MESSAGE_MUTATION_TIMEOUT,
        ).with_json(
            and_maybe(
                seq![("user_id"@, JsonView::Text(user_id))],
                "reason"@,
                if reason is Some && is_blank(reason->0) {
                    None
                } else {
                    reason
                },
            ),
        )
    }

    pub fn moderate_user(
        &self,
        account_id: u128,
        room_id: &str,
        verb: &str,
        user_id: &str,
        reason: Option<&str>,
    ) -> (out: Request)
        ensures
            out@ == Self::moderation(
                self.base(),
                account_id,
                room_id@,
                verb@,
                user_id@,
                option_str_view(reason),
            ),
    {
        let members = Members::new().and_text("user_id", user_id);
        assert(members@ =~= seq![("user_id"@, JsonView::Text(user_id@))]);
        let given = match reason {
            Some(r) => if text_is_blank(r) {
                None
            } else {
                Some(r)
            },
            None => None,
        };
        self.room_membership_request(account_id, room_id, verb).with_json(
            members.and_maybe("reason", given),
        )
    }

    pub fn kick_user(
        &self,
        account_id: u128,
        room_id: &str,
        user_id: &str,
        reason: Option<&str>,
    ) -> (out: Request)
        ensures
            out@ == Self::moderation(
                self.base(),
                account_id,
                room_id@,
                "kick"@,
                user_id@,
                option_str_view(reason),
            ),
    {
        self.moderate_user(account_id, room_id, "kick", user_id, reason)
    }

    pub fn ban_user(
        &self,
        account_id: u128,
        room_id: &str,
        user_id: &str,
        reason: Option<&str>,
    ) -> (out: Request)
        ensures
            out@ == Self::moderation(
                self.base(),
                account_id,
                room_id@,
                "ban"@,
                user_id@,
                option_str_view(reason),
            ),
    {
        self.moderate_user(account_id, room_id, "ban", user_id, reason)
    }

    pub fn unban_user(
        &self,
        account_id: u128,
        room_id: &str,
        user_id: &str,
        reason: Option<&str>,
    ) -> (out: Request)
        ensures
            out@ == Self::moderation(
                self.base(),
                account_id,
                room_id@,
                "unban"@,
                user_id@,
                option_str_view(reason),
            ),
    {
        self.moderate_user(account_id, room_id, "unban", user_id, reason)
    }

    /// Stages the bytes of an upload that a later send claims.
    pub fn stage_upload(
        &self,
        account_id: u128,
        kind: &str,
        filename: &str,
        content_type: Option<&str>,
        bytes: Vec<u8>,
    ) -> (out: Request)
        ensures
            out@ == (RequestView {
                body: BodyView::Bytes(bytes@),
                content_type: option_str_view(content_type),
                ..bare(
                    Method::Post,
                    account_url(self.base(), account_id) + "/media/uploads"@,
                    UPLOAD_TIMEOUT,
                ).with_query("kind"@, kind@).with_query("filename"@, filename@)
            }),
    {
        let account = self.account_url(account_id);
        let mut out = Request::bare(
            Method::Post,
            cat2(account.as_str(), "/media/uploads"),
            UPLOAD_TIMEOUT,
        ).with_query("kind", kind).with_query("filename", filename);
        out.body = Body::Bytes(bytes);
        out.content_type = match content_type {
            Some(t) => Some(t.to_owned()),
            None => None,
        };
        out
    }

    /// Sends a staged upload into a room.
    pub fn send_media(
        &self,
        account_id: u128,
        room_id: &str,
        upload_id: u128,
        caption: Option<&str>,
        relation: SendRelation<'_>,
    ) -> (out: Request)
        ensures
            out@ == bare(
                Method::Post,
                room_url(self.base(), account_id, room_id@) + "/send-media"@,
                MESSAGE_MUTATION_TIMEOUT,
            ).with_json(
                and_maybe(
                    and_maybe(
                        and_maybe(
                            seq![("upload_id"@, JsonView::Text(id_text(upload_id)))],
                            "caption"@,
                            option_str_view(caption),
                        ),
                        "reply_to"@,
                        option_str_view(relation.reply_to),
                    ),
                    "thread_root"@,
                    option_str_view(relation.thread_root),
                ),
            ),
    {
        let room = self.room_url(account_id, room_id);
        let upload = format_id(upload_id);
        let members = Members::new().and_text("upload_id", upload.as_str());
        assert(members@ =~= seq![("upload_id"@, JsonView::Text(id_text(upload_id)))]);
        let members = members.and_maybe("caption", caption).and_maybe(
            "reply_to",
            relation.reply_to,
        ).and_maybe("thread_root", relation.thread_root);
        Request::bare(
            Method::Post,
            cat2(room.as_str(), "/send-media"),
            MESSAGE_MUTATION_TIMEOUT,
        ).with_json(members)
    }

    /// The request for media that an `mxc://` address names.
    pub fn get_media(&self, account_id: u128, mxc_url: &str) -> (out: Result<Request, ApiError>)
        ensures
            match (out, mxc_parts(mxc_url@)) {
                (Ok(request), Ok((server, media))) => request@ == bare(
                    Method::Get,
                    self.base() + "/v1/media/"@ + id_text(account_id) + "/"@ + escaped(server)
                        + "/"@ + escaped(media),
                    MEDIA_TIMEOUT,
                ),
                (Err(e), Err(expected)) => e@ == expected,
                _ => false,
            },
    {
        let rest = match strip_text_prefix(mxc_url, "mxc://") {
            Some(rest) => rest,
            None => return Err(ApiError::Url("not an mxc:// URI".to_owned())),
        };
        let (server, media) = match split_text_once(rest, '/') {
            Some(parts) => parts,
            None => return Err(ApiError::Url("malformed mxc:// URI".to_owned())),
        };
        if server.is_empty() || media.is_empty() {
            return Err(ApiError::Url("malformed mxc:// URI".to_owned()));
        }
        let account = format_id(account_id);
        let server_segment = path_segment(server);
        let media_segment = path_segment(media);
        let mut url = cat5(
            self.base_url.as_str(),
            "/v1/media/",
            account.as_str(),
            "/",
            server_segment.as_str(),
        );
        url.append("/");
        url.append(media_segment.as_str());
        Ok(Request::bare(Method::Get, url, MEDIA_TIMEOUT))
    }

    pub fn get_event(&self, account_id: u128, event_id: &str) -> (out: Request)
        ensures
            out@ == bare(
                Method::Get,
                account_url(self.base(), account_id) + "/events/"@ + escaped(event_id@),
                HTTP_REQUEST_TIMEOUT,
            ),
    {
        let account = self.account_url(account_id);
        let event = path_segment(event_id);
        Request::bare(
            Method::Get,
            cat3(account.as_str(), "/events/", event.as_str()),
            HTTP_REQUEST_TIMEOUT,
        )
    }

    pub fn room_threads(&self, account_id: u128, room_id: &str) -> (out: Request)
        ensures
            out@ == bare(
                Method::Get,
                room_url(self.base(), account_id, room_id@) + "/threads"@,
                HTTP_REQUEST_TIMEOUT,
            ),
    {
        let room = self.room_url(account_id, room_id);
        Request::bare(Method::Get, cat2(room.as_str(), "/threads"), HTTP_REQUEST_TIMEOUT)
    }

    pub fn thread_timeline(
        &self,
        account_id: u128,
        room_id: &str,
        root_id: &str,
        cursor: Option<&str>,
        limit: usize,
    ) -> (out: Request)
        ensures
            out@ == bare(
                Method::Get,
                room_url(self.base(), account_id, room_id@) + "/threads/"@ + escaped(root_id@)
                    + "/timeline"@,
                HTTP_REQUEST_TIMEOUT,
            ).with_query("limit"@, decimal(limit as nat)).with_maybe_query(
                "cursor"@,
                option_str_view(cursor),
            ),
    {
        let room = self.room_url(account_id, room_id);
        let root = path_segment(root_id);
        let limit_text = decimal_usize(limit);
        Request::bare(
            Method::Get,
            cat4(room.as_str(), "/threads/", root.as_str(), "/timeline"),
            HTTP_REQUEST_TIMEOUT,
        ).with_query("limit", limit_text.as_str()).with_maybe_query("cursor", cursor)
    }

    /// Starts a verification: of a device of the account, or of another user.
    pub fn start_verification(
        &self,
        account_id: u128,
        user_id: Option<&str>,
        device_id: Option<&str>,
    ) -> (out: Request)
        ensures
            out@ == bare(
                Method::Post,
                account_url(self.base(), account_id) + "/verify"@,
                LIFECYCLE_TIMEOUT,
            ).with_json(
                and_maybe(
                    and_maybe(Seq::empty(), "user_id"@, option_str_view(user_id)),
                    "device_id"@,
                    option_str_view(device_id),
                ),
            ),
    {
        let account = self.account_url(account_id);
        Request::bare(
            Method::Post,
            cat2(account.as_str(), "/verify"),
            LIFECYCLE_TIMEOUT,
        ).with_json(
            Members::new().and_maybe("user_id", user_id).and_maybe("device_id", device_id),
        )
    }

    pub fn list_devices(&self, account_id: u128) -> (out: Request)
        ensures
            out@ == bare(
                Method::Get,
                account_url(self.base(), account_id) + "/devices"@,
                HTTP_REQUEST_TIMEOUT,
            ),
    {
        let account = self.account_url(account_id);
        Request::bare(Method::Get, cat2(account.as_str(), "/devices"), HTTP_REQUEST_TIMEOUT)
    }

    pub fn list_flows(&self, account_id: u128) -> (out: Request)
        ensures
            out@ == bare(
                Method::Get,
                account_url(self.base(), account_id) + "/verify"@,
                HTTP_REQUEST_TIMEOUT,
            ),
    {
        let account = self.account_url(account_id);
        Request::bare(Method::Get, cat2(account.as_str(), "/verify"), HTTP_REQUEST_TIMEOUT)
    }

    pub fn get_flow(&self, account_id: u128, flow_id: &str) -> (out: Request)
        ensures
            out@ == bare(
                Method::Get,
                account_url(self.base(), account_id) + "/verify/"@ + escaped(flow_id@),
                HTTP_REQUEST_TIMEOUT,
            ),
    {
        let account = self.account_url(account_id);
        let flow = path_segment(flow_id);
        Request::bare(
            Method::Get,
            cat3(account.as_str(), "/verify/", flow.as_str()),
            HTTP_REQUEST_TIMEOUT,
        )
    }

    pub fn confirm_verification(&self, account_id: u128, flow_id: &str) -> (out: Request)
        ensures
            out@ == bare(
                Method::Post,
                account_url(self.base(), account_id) + "/verify/"@ + escaped(flow_id@)
                    + "/confirm"@,
                LIFECYCLE_TIMEOUT,
            ),
    {
        let account = self.account_url(account_id);
        let flow = path_segment(flow_id);
        Request::bare(
            Method::Post,
            cat4(account.as_str(), "/verify/", flow.as_str(), "/confirm"),
            LIFECYCLE_TIMEOUT,
        )
    }

    pub fn cancel_verification(&self, account_id: u128, flow_id: &str) -> (out: Request)
        ensures
            out@ == bare(
                Method::Post,
                account_url(self.base(), account_id) + "/verify/"@ + escaped(flow_id@)
                    + "/cancel"@,
                LIFECYCLE_TIMEOUT,
            ),
    {
        let account = self.account_url(account_id);
        let flow = path_segment(flow_id);
        Request::bare(
            Method::Post,
            cat4(account.as_str(), "/verify/", flow.as_str(), "/cancel"),
            LIFECYCLE_TIMEOUT,
        )
    }

    pub fn get_verification_bundle(&self, account_id: u128, event_id: &str) -> (out: Request)
        ensures
            out@ == bare(
                Method::Get,
                account_url(self.base(), account_id) + "/events/"@ + escaped(event_id@)
                    + "/verification"@,
                HTTP_REQUEST_TIMEOUT,
            ),
    {
        let account = self.account_url(account_id);
        let event = path_segment(event_id);
        Request::bare(
            Method::Get,
            cat4(account.as_str(), "/events/", event.as_str(), "/verification"),
            HTTP_REQUEST_TIMEOUT,
        )
    }

    /// The address of the live socket.
    pub fn ws_url(&self) -> (out: Result<String, ApiError>)
        ensures
            match (out, live_url(self.base())) {
                (Ok(url), Ok(expected)) => url@ == expected,
                (Err(e), Err(expected)) => e@ == expected,
                _ => false,
            },
            out matches Ok(url) ==> scheme_at(url@) == Some("ws"@) || scheme_at(url@) == Some(
                "wss"@,
            ),
    {
        let mut url = match parse_url(self.base_url.as_str()) {
            Ok(url) => url,
            Err(e) => return Err(ApiError::Url(e)),
        };
        let scheme = url.scheme().to_owned();
        let live = if same_text(scheme.as_str(), "http") {
            "ws"
        } else if same_text(scheme.as_str(), "https") {
            "wss"
        } else {
            return Err(ApiError::UnsupportedScheme(scheme));
        };
        proof {
            reveal_strlit("ws");
            reveal_strlit("wss");
        }
        if url.set_scheme(live).is_err() {
            return Err(ApiError::UnsupportedScheme(live.to_owned()));
        }
        url.set_path("/v1/ws");
        url.set_query(None);
        Ok(write_url(&url))
    }
}

// ---------------------------------------------------------------------------
// Addresses
// ---------------------------------------------------------------------------

/// A `reqwest::Url`.
#[verifier::external_type_specification]
#[verifier::external_body]
pub struct ExUrl(reqwest::Url);

/// The address that a `reqwest::Url` holds, as it is written.
pub uninterp spec fn address_of(url: reqwest::Url) -> Seq<char>;

/// The address that `reqwest::Url` reads from a text, or the message of its error.
pub uninterp spec fn address_read(text: Seq<char>) -> Result<Seq<char>, Seq<char>>;

/// Reads an address: `reqwest::Url::parse`. The result is named.
#[verifier::external_body]
fn parse_url(text: &str) -> (out: Result<reqwest::Url, String>)
    ensures
        match out {
            Ok(url) => address_read(text@) == Ok::<Seq<char>, Seq<char>>(address_of(url)),
            Err(e) => address_read(text@) == Err::<Seq<char>, Seq<char>>(e@),
        },
{
    reqwest::Url::parse(text).map_err(|e| e.to_string())
}

/// Writes an address: `Display` of `reqwest::Url`.
#[verifier::external_body]
fn write_url(url: &reqwest::Url) -> (out: String)
    ensures
        out@ == address_of(*url),
{
    url.to_string()
}

/// The scheme of an address: what stands before the first colon.
pub open spec fn scheme_at(address: Seq<char>) -> Option<Seq<char>> {
    match split_once(address, ':') {
        Some((scheme, _)) => Some(scheme),
        None => None,
    }
}

/// The scheme of an address: `reqwest::Url::scheme`, what stands before its first colon.
pub assume_specification[ reqwest::Url::scheme ](url: &reqwest::Url) -> (out: &str)
    ensures
        Some(out@) == scheme_at(address_of(*url)),
;

/// An address with another scheme, where `reqwest::Url` takes it.
pub uninterp spec fn address_with_scheme(address: Seq<char>, scheme: Seq<char>) -> Option<
    Seq<char>,
>;

/// Changes the scheme of an address: `reqwest::Url::set_scheme`. Where it does not take
/// the scheme, the address stays as it is. What comes of it is named; a scheme of small
/// letters is the scheme of the address from then on.
pub assume_specification[ reqwest::Url::set_scheme ](url: &mut reqwest::Url, scheme: &str) -> (out:
    Result<(), ()>)
    ensures
        match out {
            Ok(()) => {
                &&& address_with_scheme(address_of(*old(url)), scheme@) == Some(
                    address_of(*final(url)),
                )
                &&& small_letters(scheme@) ==> scheme_at(address_of(*final(url))) == Some(scheme@)
            },
            Err(()) => {
                &&& address_with_scheme(address_of(*old(url)), scheme@) is None
                &&& address_of(*final(url)) == address_of(*old(url))
            },
        },
;

/// Whether a text is made of small letters.
pub open spec fn small_letters(text: Seq<char>) -> bool {
    text.len() > 0 && forall|i: int| 0 <= i < text.len() ==> 'a' <= #[trigger] text[i] <= 'z'
}

/// An address with another path.
pub uninterp spec fn address_with_path(address: Seq<char>, path: Seq<char>) -> Seq<char>;

/// Changes the path of an address: `reqwest::Url::set_path`. What comes of it is named;
/// the scheme stays.
pub assume_specification[ reqwest::Url::set_path ](url: &mut reqwest::Url, path: &str)
    ensures
        address_of(*final(url)) == address_with_path(address_of(*old(url)), path@),
        scheme_at(address_of(*final(url))) == scheme_at(address_of(*old(url))),
;

/// An address with another query, or with none.
pub uninterp spec fn address_with_query(address: Seq<char>, query: Option<Seq<char>>) -> Seq<char>;

/// Changes the query of an address or takes it away: `reqwest::Url::set_query`. What comes
/// of it is named; the scheme stays.
pub assume_specification[ reqwest::Url::set_query ](url: &mut reqwest::Url, query: Option<&str>)
    ensures
        address_of(*final(url)) == address_with_query(
            address_of(*old(url)),
            option_str_view(query),
        ),
        scheme_at(address_of(*final(url))) == scheme_at(address_of(*old(url))),
;

/// The address of the live socket of a server.
pub open spec fn live_url(base: Seq<char>) -> Result<Seq<char>, ApiErrorView> {
    match address_read(base) {
        Err(e) => Err(ApiErrorView::Url(e)),
        Ok(address) => if scheme_at(address) == Some("http"@) {
            moved_or_refused(address, "ws"@)
        } else if scheme_at(address) == Some("https"@) {
            moved_or_refused(address, "wss"@)
        } else {
            Err(ApiErrorView::UnsupportedScheme(scheme_at(address)->0))
        },
    }
}

/// An address under another scheme with the path of the live socket and no query.
pub open spec fn moved_or_refused(address: Seq<char>, scheme: Seq<char>) -> Result<
    Seq<char>,
    ApiErrorView,
> {
    match address_with_scheme(address, scheme) {
        Some(moved) => Ok(address_with_query(address_with_path(moved, "/v1/ws"@), None)),
        None => Err(ApiErrorView::UnsupportedScheme(scheme)),
    }
}

// ---------------------------------------------------------------------------
// Replies
// ---------------------------------------------------------------------------

pub open spec fn is_success(status: u16) -> bool {
    200 <= status < 300
}

pub fn succeeded(status: u16) -> (r: bool)
    ensures
        r == is_success(status),
{
    status >= 200 && status < 300
}

/// What an error reply says: the code and message of its body, else the body. A body
/// that `serde_json` refuses is told as it stands.
pub open spec fn error_message_of(text: Seq<char>, refused: Option<Seq<char>>) -> Seq<char> {
    match taken(text, refused) {
        Err(_) => text,
        Ok(j) => match by_name(j, seq!["error"@], 1).get("error"@) {
            None => text,
            Some(given) => {
                let e = by_name(given, seq!["code"@, "message"@], 2);
                match (e.text_at("code"@), e.text_at("message"@)) {
                    (Some(code), Some(message)) => code + ": "@ + message,
                    _ => text,
                }
            },
        },
    }
}

pub fn error_message(text: &str, refused: Option<&str>) -> (out: String)
    ensures
        out@ == error_message_of(text@, option_str_view(refused)),
{
    let j = match take_json(text, refused) {
        Ok(j) => j,
        Err(_) => return text.to_owned(),
    };
    let outer: Vec<&str> = vec!["error"];
    assert(views(outer@) =~= seq!["error"@]);
    let named = name_items(&j, &outer, 1);
    let j = match &named {
        Some(n) => n,
        None => &j,
    };
    let e = match j.get("error") {
        Some(e) => e,
        None => return text.to_owned(),
    };
    let inner: Vec<&str> = vec!["code", "message"];
    assert(views(inner@) =~= seq!["code"@, "message"@]);
    let named_error = name_items(e, &inner, 2);
    let e = match &named_error {
        Some(n) => n,
        None => e,
    };
    match (e.text_at("code"), e.text_at("message")) {
        (Some(code), Some(message)) => cat3(code, ": ", message),
        _ => text.to_owned(),
    }
}

pub open spec fn refusal(status: u16, text: Seq<char>, refused: Option<Seq<char>>) -> ApiErrorView {
    ApiErrorView::Status { status, message: error_message_of(text, refused) }
}

/// The value in a reply. `refused` holds what `serde_json` says of the text where it
/// refuses it: as the answer that is awaited, or as an error where the status is one.
pub fn read_reply<T: Wire>(status: u16, text: &str, refused: Option<&str>) -> (out: Result<
    T,
    ApiError,
>)
    ensures
        ({
            let read = response_of::<T>(text@, option_str_view(refused));
            match out {
                Ok(v) => is_success(status) && read == Ok::<T::V, Seq<char>>(v@),
                Err(e) => if is_success(status) {
                    read is Err && e@ == ApiErrorView::Json(read->Err_0)
                } else {
                    e@ == refusal(status, text@, option_str_view(refused))
                },
            }
        }),
{
    if succeeded(status) {
        match ApiResponse::<T>::read(text, refused) {
            Ok(r) => Ok(r.data),
            Err(e) => Err(ApiError::Json(e)),
        }
    } else {
        Err(ApiError::Status { status, message: error_message(text, refused) })
    }
}

/// The list in a reply.
pub fn read_list_reply<T: Wire>(status: u16, text: &str, refused: Option<&str>) -> (out: Result<
    Vec<T>,
    ApiError,
>)
    ensures
        ({
            let read = list_response_of::<T>(text@, option_str_view(refused));
            match out {
                Ok(v) => is_success(status) && read == Ok::<Seq<T::V>, Seq<char>>(views(v@)),
                Err(e) => if is_success(status) {
                    read is Err && e@ == ApiErrorView::Json(read->Err_0)
                } else {
                    e@ == refusal(status, text@, option_str_view(refused))
                },
            }
        }),
{
    if succeeded(status) {
        match ApiResponse::<T>::read_list(text, refused) {
            Ok(r) => Ok(r.data),
            Err(e) => Err(ApiError::Json(e)),
        }
    } else {
        Err(ApiError::Status { status, message: error_message(text, refused) })
    }
}

/// A reply whose body does not matter where it succeeds.
pub fn read_empty_reply(status: u16, text: &str, refused: Option<&str>) -> (out: Result<
    (),
    ApiError,
>)
    ensures
        match out {
            Ok(()) => is_success(status),
            Err(e) => !is_success(status) && e@ == refusal(
                status,
                text@,
                option_str_view(refused),
            ),
        },
{
    if succeeded(status) {
        Ok(())
    } else {
        Err(ApiError::Status { status, message: error_message(text, refused) })
    }
}

/// A download that is refused as soon as it grows too large.
pub struct MediaDownload {
    bytes: Vec<u8>,
}

/// The error of a download that is too large.
pub open spec fn too_large() -> ApiErrorView {
    ApiErrorView::Url("media exceeds 20 MiB limit"@)
}

impl MediaDownload {
    pub closed spec fn view(self) -> Seq<u8> {
        self.bytes@
    }

    #[verifier::type_invariant]
    closed spec fn inv(self) -> bool {
        self.bytes@.len() <= MAX_MEDIA_BYTES
    }

    /// Starts reading a reply. The length that the server announces may refuse
    /// it at once; a reply that is no success is an error.
    pub fn start(status: u16, announced: Option<u64>) -> (out: Result<MediaDownload, ApiError>)
        requires
            is_success(status),
        ensures
            match out {
                Ok(d) => d@ == Seq::<u8>::empty() && (announced is None || announced->0
                    <= MAX_MEDIA_BYTES),
                Err(e) => announced is Some && announced->0 > MAX_MEDIA_BYTES && e@ == too_large(),
            },
    {
        if let Some(length) = announced {
            if length > MAX_MEDIA_BYTES as u64 {
                return Err(ApiError::Url("media exceeds 20 MiB limit".to_owned()));
            }
        }
        Ok(MediaDownload { bytes: Vec::new() })
    }

    /// Takes one more piece of the reply.
    pub fn take(self, chunk: &[u8]) -> (out: Result<MediaDownload, ApiError>)
        ensures
            match out {
                Ok(d) => d@ == self@ + chunk@ && self@.len() + chunk@.len() <= MAX_MEDIA_BYTES,
                Err(e) => self@.len() + chunk@.len() > MAX_MEDIA_BYTES && e@ == too_large(),
            },
    {
        proof {
            use_type_invariant(&self);
        }
        if chunk.len() > MAX_MEDIA_BYTES - self.bytes.len() {
            return Err(ApiError::Url("media exceeds 20 MiB limit".to_owned()));
        }
        let mut bytes = self.bytes;
        let mut i: usize = 0;
        let ghost before = bytes@;
        while i < chunk.len()
            invariant
                i <= chunk.len(),
                bytes@ == before + chunk@.take(i as int),
            decreases chunk.len() - i,
        {
            bytes.push(chunk[i]);
            assert(chunk@.take(i + 1) =~= chunk@.take(i as int).push(chunk@[i as int]));
            i = i + 1;
        }
        assert(chunk@.take(i as int) =~= chunk@);
        Ok(MediaDownload { bytes })
    }

    pub fn finish(self) -> (out: Vec<u8>)
        ensures
            out@ == self@,
            out@.len() <= MAX_MEDIA_BYTES,
    {
        proof {
            use_type_invariant(&self);
        }
        self.bytes
    }
}

/// The error of a download that the server refused. The body is given as it
/// came.
pub fn media_refusal(status: u16, text: String) -> (out: ApiError)
    ensures
        out@ == (ApiErrorView::Status { status, message: text@ }),
{
    ApiError::Status { status, message: text }
}

} // verus!
