//! The decisions of the MCP (Model Context Protocol) server.
//!
//! The server exposes the headless-browser debug HTTP API as MCP tools. Each
//! tool call becomes one HTTP request to the debug server ([`plan`]), and the
//! reply becomes the tool's result ([`screenshot_result`], [`check_reply`],
//! ...). The HTTP transport, the MCP transport and JSON (de)serialisation are
//! done by the caller.
use vstd::prelude::*;

use vstd::utf8::encode_utf8;

use crate::text::{hex_digit, hex_upper, push_char, push_decimal, push_str, decimal, result_view};

verus! {

/// Whether byte `b` is left as is in a query string: an ASCII letter or
/// digit, `-`, `_`, `.` or `~`.
pub open spec fn unreserved(b: u8) -> bool {
    (48 <= b <= 57) || (65 <= b <= 90) || (97 <= b <= 122) || b == 45 || b == 95 || b == 46 || b
        == 126
}

/// The percent-encoding of one byte.
pub open spec fn encode_byte(b: u8) -> Seq<char> {
    if unreserved(b) {
        seq![b as char]
    } else {
        seq!['%', hex_upper(b / 16), hex_upper(b % 16)]
    }
}

/// The percent-encoding of the bytes `b`: unreserved bytes as they are,
/// every other byte as `%XX` in upper-case hexadecimal.
pub open spec fn url_encode_spec(b: Seq<u8>) -> Seq<char>
    decreases b.len(),
{
    if b.len() == 0 {
        Seq::empty()
    } else {
        url_encode_spec(b.drop_last()) + encode_byte(b.last())
    }
}

/// Appends the percent-encoding of the UTF-8 bytes of `s` to `out`.
fn push_url_encoded(out: &mut String, s: &str)
    ensures
        final(out)@ == old(out)@ + url_encode_spec(encode_utf8(s@)),
{
    let bytes = s.as_bytes();
    let mut i: usize = 0;
    while i < bytes.len()
        invariant
            i <= bytes@.len(),
            bytes@ == encode_utf8(s@),
            out@ == old(out)@ + url_encode_spec(bytes@.take(i as int)),
        decreases bytes@.len() - i,
    {
        let b = bytes[i];
        assert(bytes@.take(i + 1).drop_last() =~= bytes@.take(i as int));
        if (48 <= b && b <= 57) || (65 <= b && b <= 90) || (97 <= b && b <= 122) || b == 45 || b
            == 95 || b == 46 || b == 126 {
            push_char(out, b as char);
        } else {
            push_char(out, '%');
            push_char(out, hex_digit(b / 16));
            push_char(out, hex_digit(b % 16));
        }
        assert(out@ =~= old(out)@ + url_encode_spec(bytes@.take(i + 1)));
        i = i + 1;
    }
    assert(bytes@.take(bytes@.len() as int) =~= bytes@);
}

/// Minimal percent-encoding for a query string value.
pub fn url_encode(s: &str) -> (r: String)
    ensures
        r@ == url_encode_spec(encode_utf8(s@)),
{
    let mut out = String::new();
    push_url_encoded(&mut out, s);
    out
}

/// `{base}/{path}`.
pub open spec fn api_spec(base: Seq<char>, path: Seq<char>) -> Seq<char> {
    base + seq!['/'] + path
}

/// The URL of debug-server endpoint `path` under `base`.
pub fn api_url(base: &str, path: &str) -> (r: String)
    ensures
        r@ == api_spec(base@, path@),
{
    let mut s = String::new();
    push_str(&mut s, base);
    push_char(&mut s, '/');
    push_str(&mut s, path);
    assert(s@ =~= api_spec(base@, path@));
    s
}

/// `key=value`, both percent-encoded.
pub open spec fn pair_spec(k: Seq<u8>, v: Seq<u8>) -> Seq<char> {
    url_encode_spec(k) + seq!['='] + url_encode_spec(v)
}

/// The first `n` pairs of `q`, joined by `&`.
pub open spec fn join_pairs(q: Seq<(String, String)>, n: int) -> Seq<char>
    decreases n,
{
    if n <= 0 {
        Seq::empty()
    } else if n == 1 {
        pair_spec(encode_utf8(q[0].0@), encode_utf8(q[0].1@))
    } else {
        join_pairs(q, n - 1) + seq!['&'] + pair_spec(
            encode_utf8(q[n - 1].0@),
            encode_utf8(q[n - 1].1@),
        )
    }
}

/// The URL of a GET request: `{base}/{path}`, followed by `?` and the
/// encoded query pairs joined by `&` when there are any.
pub open spec fn get_url_spec(base: Seq<char>, path: Seq<char>, q: Seq<(String, String)>) -> Seq<
    char,
> {
    if q.len() == 0 {
        api_spec(base, path)
    } else {
        api_spec(base, path) + seq!['?'] + join_pairs(q, q.len() as int)
    }
}

/// The URL of a GET request to endpoint `path` with query pairs `query`.
pub fn get_url(base: &str, path: &str, query: &Vec<(String, String)>) -> (r: String)
    ensures
        r@ == get_url_spec(base@, path@, query@),
{
    let mut s = api_url(base, path);
    if query.len() == 0 {
        return s;
    }
    push_char(&mut s, '?');
    let ghost start = s@;
    let mut i: usize = 0;
    while i < query.len()
        invariant
            i <= query@.len(),
            s@ == start + join_pairs(query@, i as int),
        decreases query@.len() - i,
    {
        if i > 0 {
            push_char(&mut s, '&');
        }
        push_url_encoded(&mut s, query[i].0.as_str());
        push_char(&mut s, '=');
        push_url_encoded(&mut s, query[i].1.as_str());
        assert(s@ =~= start + join_pairs(query@, i + 1));
        i = i + 1;
    }
    s
}

/// The debug server's base URL, or the error that says it is not up yet (its
/// URL is published once its health check answers).
pub fn ensure_up(base: &str) -> (r: Result<String, String>)
    ensures
        base@.len() == 0 ==> result_view(r) == Err::<Seq<char>, Seq<char>>(
            "Debug server is not up yet. Wait a moment and retry."@,
        ),
        base@.len() != 0 ==> result_view(r) == Ok::<Seq<char>, Seq<char>>(base@),
{
    let mut s = String::new();
    if base.is_empty() {
        push_str(&mut s, "Debug server is not up yet. Wait a moment and retry.");
        Err(s)
    } else {
        push_str(&mut s, base);
        Ok(s)
    }
}

/// The initial page URL: `SHIRABE_URL` when set, otherwise `about:blank`.
pub fn initial_base_url(shirabe_url: Option<String>) -> (r: String)
    ensures
        r@ == match shirabe_url {
            Some(u) => u@,
            None => "about:blank"@,
        },
{
    match shirabe_url {
        Some(u) => u,
        None => {
            let mut s = String::new();
            push_str(&mut s, "about:blank");
            s
        },
    }
}

/// A call of one of the browser tools, with its arguments.
pub enum Tool {
    /// Navigate to a URL.
    Navigate { url: String },
    /// Go back to the previous page.
    NavigateBack,
    /// Go forward to the next page.
    NavigateForward,
    /// Capture the accessibility snapshot, optionally scoped to a CSS selector.
    Snapshot { target: Option<String> },
    /// Query a DOM element by CSS selector.
    Dom { selector: String, attribute: Option<String>, computed: Option<bool>, all: Option<bool> },
    /// Take a screenshot, of an element or the full page.
    Screenshot { element: Option<String>, full_page: Option<bool> },
    /// Click an element.
    Click { target: String },
    /// Type text into an editable element.
    Type { target: String, text: String, submit: Option<bool> },
    /// Press a keyboard key.
    PressKey { key: String },
    /// Evaluate a JavaScript expression in the page.
    Evaluate { function: String },
    /// Get console log entries, optionally from a minimum level on.
    ConsoleMessages { level: Option<String> },
    /// Resize the viewport.
    Resize { width: u32, height: u32 },
}

/// A JSON value in a request body.
pub enum Scalar {
    Str(String),
    Bool(bool),
    Num(u32),
}

/// The mathematical form of a [`Scalar`].
pub enum ScalarView {
    Str(Seq<char>),
    Bool(bool),
    Num(nat),
}

impl View for Scalar {
    type V = ScalarView;

    open spec fn view(&self) -> ScalarView {
        match self {
            Scalar::Str(s) => ScalarView::Str(s@),
            Scalar::Bool(b) => ScalarView::Bool(*b),
            Scalar::Num(n) => ScalarView::Num(*n as nat),
        }
    }
}

/// How a request is sent and its reply read.
#[derive(Debug, Clone, Copy, PartialEq, Eq, Structural)]
pub enum Method {
    /// POST whose reply body is not read: only its status matters.
    FireAndForget,
    /// GET whose JSON reply is read.
    Get,
    /// POST whose JSON reply is read.
    Post,
}

/// One request to the debug server: its method, endpoint, query pairs (GET)
/// and JSON object body (POST), the body's fields in order.
pub struct Request {
    pub method: Method,
    pub path: &'static str,
    pub query: Vec<(String, String)>,
    pub body: Vec<(&'static str, Scalar)>,
}

/// What the result of a tool is made of.
pub enum ReplyKind {
    /// This text.
    Text(String),
    /// The compact JSON of the reply's `data` field, or `{}`.
    Data,
    /// The pretty JSON of the reply's `data` field, or of the whole reply.
    Pretty,
    /// A `data:` URL made from the screenshot reply (see [`screenshot_result`]).
    Screenshot,
}

/// The mathematical form of a request and its reply kind.
pub struct PlanView {
    pub method: Method,
    pub path: Seq<char>,
    pub query: Seq<(Seq<char>, Seq<char>)>,
    pub body: Seq<(Seq<char>, ScalarView)>,
    pub text: Option<Seq<char>>,
    pub kind: nat,
}

/// The views of a request and reply kind.
pub open spec fn plan_view(r: Request, k: ReplyKind) -> PlanView {
    PlanView {
        method: r.method,
        path: r.path@,
        query: r.query@.map_values(|p: (String, String)| (p.0@, p.1@)),
        body: r.body@.map_values(|f: (&'static str, Scalar)| (f.0@, f.1@)),
        text: match k {
            ReplyKind::Text(t) => Some(t@),
            _ => None,
        },
        kind: match k {
            ReplyKind::Text(_) => 0,
            ReplyKind::Data => 1,
            ReplyKind::Pretty => 2,
            ReplyKind::Screenshot => 3,
        },
    }
}

/// A fire-and-forget request with the given body whose result is `text`.
pub open spec fn faf(path: Seq<char>, body: Seq<(Seq<char>, ScalarView)>, text: Seq<char>) -> PlanView {
    PlanView { method: Method::FireAndForget, path, query: seq![], body, text: Some(text), kind: 0 }
}

/// The query pair `(k, v)` when `v` is set and non-empty.
pub open spec fn opt_pair(k: Seq<char>, v: Option<String>) -> Seq<(Seq<char>, Seq<char>)> {
    match v {
        Some(s) => if s@.len() > 0 {
            seq![(k, s@)]
        } else {
            seq![]
        },
        None => seq![],
    }
}

/// The query pair `(k, "true")` when the flag is `Some(true)`.
pub open spec fn flag_pair(k: Seq<char>, v: Option<bool>) -> Seq<(Seq<char>, Seq<char>)> {
    if v == Some(true) {
        seq![(k, "true"@)]
    } else {
        seq![]
    }
}

/// The request each tool makes and what its result is made of.
pub open spec fn plan_spec(t: Tool) -> PlanView {
    match t {
        Tool::Navigate { url } => faf(
            "navigate"@,
            seq![("url"@, ScalarView::Str(url@))],
            "Navigated to "@ + url@,
        ),
        Tool::NavigateBack => faf("back"@, seq![], "Navigated back"@),
        Tool::NavigateForward => faf("forward"@, seq![], "Navigated forward"@),
        Tool::Snapshot { target } => PlanView {
            method: Method::Get,
            path: "a11y"@,
            query: opt_pair("selector"@, target),
            body: seq![],
            text: None,
            kind: 1,
        },
        Tool::Dom { selector, attribute, computed, all } => PlanView {
            method: Method::Get,
            path: "dom"@,
            query: seq![("selector"@, selector@)] + opt_pair("attribute"@, attribute) + flag_pair(
                "computed"@,
                computed,
            ) + flag_pair("all"@, all),
            body: seq![],
            text: None,
            kind: 1,
        },
        Tool::Screenshot { element, full_page } => PlanView {
            method: Method::Post,
            path: "screenshot"@,
            query: seq![],
            body: (match element {
                Some(e) => seq![("selector"@, ScalarView::Str(e@))],
                None => seq![],
            }) + (match full_page {
                Some(f) => seq![("full_page"@, ScalarView::Bool(f))],
                None => seq![],
            }),
            text: None,
            kind: 3,
        },
        Tool::Click { target } => faf(
            "click"@,
            seq![("selector"@, ScalarView::Str(target@))],
            "Clicked: "@ + target@,
        ),
        Tool::Type { target, text, submit } => faf(
            "type"@,
            seq![
                ("selector"@, ScalarView::Str(target@)),
                ("text"@, ScalarView::Str(text@)),
                ("clear_first"@, ScalarView::Bool(false)),
                ("submit"@, ScalarView::Bool(submit == Some(true))),
            ],
            "Typed: "@ + text@,
        ),
        Tool::PressKey { key } => faf(
            "press"@,
            seq![("key"@, ScalarView::Str(key@))],
            "Pressed: "@ + key@,
        ),
        Tool::Evaluate { function } => PlanView {
            method: Method::Post,
            path: "evaluate"@,
            query: seq![],
            body: seq![("expression"@, ScalarView::Str(function@))],
            text: None,
            kind: 2,
        },
        Tool::ConsoleMessages { level } => PlanView {
            method: Method::Get,
            path: "console"@,
            query: opt_pair("level"@, level),
            body: seq![],
            text: None,
            kind: 2,
        },
        Tool::Resize { width, height } => faf(
            "resize"@,
            seq![
                ("width"@, ScalarView::Num(width as nat)),
                ("height"@, ScalarView::Num(height as nat)),
            ],
            "Resized to "@ + decimal(width as nat) + "x"@ + decimal(height as nat),
        ),
    }
}

/// `prefix` followed by `s`, as a new string.
fn concat(prefix: &str, s: &str) -> (r: String)
    ensures
        r@ == prefix@ + s@,
{
    let mut r = String::new();
    push_str(&mut r, prefix);
    push_str(&mut r, s);
    r
}

/// A copy of `s`.
fn copy_of(s: &str) -> (r: String)
    ensures
        r@ == s@,
{
    let mut r = String::new();
    push_str(&mut r, s);
    r
}

/// Appends the pair `(k, v)` to `q` when `v` is set and non-empty.
fn push_opt_pair(q: &mut Vec<(String, String)>, k: &str, v: &Option<String>)
    ensures
        final(q)@.map_values(|p: (String, String)| (p.0@, p.1@)) == old(q)@.map_values(
            |p: (String, String)| (p.0@, p.1@),
        ) + opt_pair(k@, *v),
{
    let ghost before = q@;
    match v {
        Some(s) => {
            if !s.as_str().is_empty() {
                q.push((copy_of(k), s.clone()));
                assert(q@.map_values(|p: (String, String)| (p.0@, p.1@)) =~= before.map_values(
                    |p: (String, String)| (p.0@, p.1@),
                ) + opt_pair(k@, *v));
                return ;
            }
        },
        None => {},
    }
    assert(q@.map_values(|p: (String, String)| (p.0@, p.1@)) =~= before.map_values(
        |p: (String, String)| (p.0@, p.1@),
    ) + opt_pair(k@, *v));
}

/// Appends the pair `(k, "true")` to `q` when the flag is `Some(true)`.
fn push_flag_pair(q: &mut Vec<(String, String)>, k: &str, v: Option<bool>)
    ensures
        final(q)@.map_values(|p: (String, String)| (p.0@, p.1@)) == old(q)@.map_values(
            |p: (String, String)| (p.0@, p.1@),
        ) + flag_pair(k@, v),
{
    let ghost before = q@;
    match v {
        Some(true) => {
            q.push((copy_of(k), copy_of("true")));
        },
        _ => {},
    }
    assert(q@.map_values(|p: (String, String)| (p.0@, p.1@)) =~= before.map_values(
        |p: (String, String)| (p.0@, p.1@),
    ) + flag_pair(k@, v));
}

/// The request a tool call makes to the debug server, and what its result is
/// made of.
pub fn plan(t: &Tool) -> (r: (Request, ReplyKind))
    ensures
        plan_view(r.0, r.1) == plan_spec(*t),
{
    let mut query: Vec<(String, String)> = Vec::new();
    let mut body: Vec<(&'static str, Scalar)> = Vec::new();
    assert(query@.map_values(|p: (String, String)| (p.0@, p.1@)) =~= seq![]);
    assert(body@.map_values(|f: (&'static str, Scalar)| (f.0@, f.1@)) =~= seq![]);
    let r = match t {
        Tool::Navigate { url } => {
            body.push(("url", Scalar::Str(url.clone())));
            assert(body@.map_values(|f: (&'static str, Scalar)| (f.0@, f.1@)) =~= seq![("url"@, ScalarView::Str(url@))]);
            (
                Request { method: Method::FireAndForget, path: "navigate", query, body },
                ReplyKind::Text(concat("Navigated to ", url.as_str())),
            )
        },
        Tool::NavigateBack => (
            Request { method: Method::FireAndForget, path: "back", query, body },
            ReplyKind::Text(copy_of("Navigated back")),
        ),
        Tool::NavigateForward => (
            Request { method: Method::FireAndForget, path: "forward", query, body },
            ReplyKind::Text(copy_of("Navigated forward")),
        ),
        Tool::Snapshot { target } => {
            push_opt_pair(&mut query, "selector", target);
            (Request { method: Method::Get, path: "a11y", query, body }, ReplyKind::Data)
        },
        Tool::Dom { selector, attribute, computed, all } => {
            query.push((copy_of("selector"), selector.clone()));
            assert(query@.map_values(|p: (String, String)| (p.0@, p.1@)) =~= seq![("selector"@, selector@)]);
            push_opt_pair(&mut query, "attribute", attribute);
            push_flag_pair(&mut query, "computed", *computed);
            push_flag_pair(&mut query, "all", *all);
            (Request { method: Method::Get, path: "dom", query, body }, ReplyKind::Data)
        },
        Tool::Screenshot { element, full_page } => {
            match element {
                Some(e) => body.push(("selector", Scalar::Str(e.clone()))),
                None => {},
            }
            match full_page {
                Some(f) => body.push(("full_page", Scalar::Bool(*f))),
                None => {},
            }
            assert(body@.map_values(|f: (&'static str, Scalar)| (f.0@, f.1@)) =~= (match element {
                Some(e) => seq![("selector"@, ScalarView::Str(e@))],
                None => seq![],
            }) + (match full_page {
                Some(f) => seq![("full_page"@, ScalarView::Bool(*f))],
                None => seq![],
            }));
            (Request { method: Method::Post, path: "screenshot", query, body }, ReplyKind::Screenshot)
        },
        Tool::Click { target } => {
            body.push(("selector", Scalar::Str(target.clone())));
            assert(body@.map_values(|f: (&'static str, Scalar)| (f.0@, f.1@)) =~= seq![("selector"@, ScalarView::Str(target@))]);
            (
                Request { method: Method::FireAndForget, path: "click", query, body },
                ReplyKind::Text(concat("Clicked: ", target.as_str())),
            )
        },
        Tool::Type { target, text, submit } => {
            body.push(("selector", Scalar::Str(target.clone())));
            body.push(("text", Scalar::Str(text.clone())));
            body.push(("clear_first", Scalar::Bool(false)));
            let sub = match submit {
                Some(b) => *b,
                None => false,
            };
            body.push(("submit", Scalar::Bool(sub)));
            assert(body@.map_values(|f: (&'static str, Scalar)| (f.0@, f.1@)) =~= seq![
                ("selector"@, ScalarView::Str(target@)),
                ("text"@, ScalarView::Str(text@)),
                ("clear_first"@, ScalarView::Bool(false)),
                ("submit"@, ScalarView::Bool(*submit == Some(true))),
            ]);
            (
                Request { method: Method::FireAndForget, path: "type", query, body },
                ReplyKind::Text(concat("Typed: ", text.as_str())),
            )
        },
        Tool::PressKey { key } => {
            body.push(("key", Scalar::Str(key.clone())));
            assert(body@.map_values(|f: (&'static str, Scalar)| (f.0@, f.1@)) =~= seq![("key"@, ScalarView::Str(key@))]);
            (
                Request { method: Method::FireAndForget, path: "press", query, body },
                ReplyKind::Text(concat("Pressed: ", key.as_str())),
            )
        },
        Tool::Evaluate { function } => {
            body.push(("expression", Scalar::Str(function.clone())));
            assert(body@.map_values(|f: (&'static str, Scalar)| (f.0@, f.1@)) =~= seq![("expression"@, ScalarView::Str(function@))]);
            (Request { method: Method::Post, path: "evaluate", query, body }, ReplyKind::Pretty)
        },
        Tool::ConsoleMessages { level } => {
            push_opt_pair(&mut query, "level", level);
            (Request { method: Method::Get, path: "console", query, body }, ReplyKind::Pretty)
        },
        Tool::Resize { width, height } => {
            body.push(("width", Scalar::Num(*width)));
            body.push(("height", Scalar::Num(*height)));
            assert(body@.map_values(|f: (&'static str, Scalar)| (f.0@, f.1@)) =~= seq![
                ("width"@, ScalarView::Num(*width as nat)),
                ("height"@, ScalarView::Num(*height as nat)),
            ]);
            let mut text = copy_of("Resized to ");
            push_decimal(&mut text, *width as u64);
            push_str(&mut text, "x");
            push_decimal(&mut text, *height as u64);
            (
                Request { method: Method::FireAndForget, path: "resize", query, body },
                ReplyKind::Text(text),
            )
        },
    };
    assert(plan_view(r.0, r.1) =~~= plan_spec(*t));
    r
}

/// The `data` field of a screenshot reply, as far as it is read.
pub enum ReplyData {
    /// There is no `data` field.
    Missing,
    /// `data` is a string.
    Str(String),
    /// `data` is an object: its own `data` field when that is a string, its
    /// `mime_type` field when that is a string, and its compact JSON.
    Object { data: Option<String>, mime_type: Option<String>, json: String },
    /// `data` is some other JSON value.
    Other,
}

/// A screenshot reply of the debug server, as far as it is read: its `ok`
/// field when that is a boolean, its `data` field, and its `error` field when
/// that is a string.
pub struct ScreenshotReply {
    pub ok: Option<bool>,
    pub data: ReplyData,
    pub error: Option<String>,
}

/// The image data of a screenshot reply: `data` itself when a string, else
/// its string `data` field, else its JSON when an object, else nothing.
pub open spec fn image_data(d: ReplyData) -> Seq<char> {
    match d {
        ReplyData::Str(s) => s@,
        ReplyData::Object { data, json, .. } => match data {
            Some(x) => x@,
            None => json@,
        },
        _ => Seq::empty(),
    }
}

/// The MIME type of a screenshot reply: the string `mime_type` field of its
/// `data` object, else `image/png`.
pub open spec fn image_mime(d: ReplyData) -> Seq<char> {
    match d {
        ReplyData::Object { mime_type: Some(m), .. } => m@,
        _ => "image/png"@,
    }
}

/// The result of the screenshot tool: on an `ok` reply a `data:` URL (the
/// image data itself when it already is one, else
/// `data:{mime};base64,{data}`), otherwise the reply's error, or `unknown`.
pub open spec fn screenshot_spec(reply: ScreenshotReply) -> Result<Seq<char>, Seq<char>> {
    if reply.ok == Some(true) {
        let data = image_data(reply.data);
        if "data:"@.is_prefix_of(data) {
            Ok(data)
        } else {
            Ok("data:"@ + image_mime(reply.data) + ";base64,"@ + data)
        }
    } else {
        match reply.error {
            Some(e) => Err(e@),
            None => Err("unknown"@),
        }
    }
}

/// Whether `s` starts with `p`.
fn starts_with(s: &str, p: &str) -> (r: bool)
    ensures
        r == p@.is_prefix_of(s@),
{
    let v = crate::text::str_chars(s);
    let w = crate::text::str_chars(p);
    if w.len() > v.len() {
        return false;
    }
    let r = crate::text::range_eq(&v, 0, w.len(), p);
    assert(r == (v@.subrange(0, w@.len() as int) == p@));
    assert(r == p@.is_prefix_of(s@)) by {
        if r {
            assert forall|i: int| 0 <= i < p@.len() implies p@[i] == s@[i] by {
                assert(v@.subrange(0, w@.len() as int)[i] == s@[i]);
            }
        } else if p@.is_prefix_of(s@) {
            assert(v@.subrange(0, w@.len() as int) =~= p@);
        }
    }
    r
}

/// The result of the screenshot tool for a reply.
pub fn screenshot_result(reply: ScreenshotReply) -> (r: Result<String, String>)
    ensures
        result_view(r) == screenshot_spec(reply),
{
    let ghost rv = reply;
    let ScreenshotReply { ok, data, error } = reply;
    let is_ok = match ok {
        Some(b) => b,
        None => false,
    };
    if is_ok {
        let (img, mime) = match data {
            ReplyData::Str(s) => (s, copy_of("image/png")),
            ReplyData::Object { data, mime_type, json } => {
                let img = match data {
                    Some(x) => x,
                    None => json,
                };
                let mime = match mime_type {
                    Some(m) => m,
                    None => copy_of("image/png"),
                };
                (img, mime)
            },
            _ => (String::new(), copy_of("image/png")),
        };
        assert(img@ == image_data(rv.data));
        assert(mime@ == image_mime(rv.data));
        if starts_with(img.as_str(), "data:") {
            Ok(img)
        } else {
            let mut s = copy_of("data:");
            push_str(&mut s, mime.as_str());
            push_str(&mut s, ";base64,");
            push_str(&mut s, img.as_str());
            Ok(s)
        }
    } else {
        match error {
            Some(e) => Err(e),
            None => Err(copy_of("unknown")),
        }
    }
}

/// The error of a reply with status `status` (as displayed, e.g. `404 Not
/// Found`) whose detail is `detail`.
pub open spec fn status_error(status: Seq<char>, detail: Seq<char>) -> Seq<char> {
    "debug server returned "@ + status + ": "@ + detail
}

/// Whether a JSON reply is accepted: a successful status is, any other is an
/// error with the reply's string `error` field, or `unknown error`.
pub fn check_reply(success: bool, status: &str, error: Option<&str>) -> (r: Result<(), String>)
    ensures
        success <==> r is Ok,
        r matches Err(m) ==> m@ == status_error(
            status@,
            match error {
                Some(e) => e@,
                None => "unknown error"@,
            },
        ),
{
    if success {
        Ok(())
    } else {
        let mut s = copy_of("debug server returned ");
        push_str(&mut s, status);
        push_str(&mut s, ": ");
        match error {
            Some(e) => push_str(&mut s, e),
            None => push_str(&mut s, "unknown error"),
        }
        Err(s)
    }
}

/// Whether a fire-and-forget reply is accepted: a successful status is, any
/// other is an error with the reply's body text.
pub fn check_fire_and_forget(success: bool, status: &str, body_text: &str) -> (r: Result<
    (),
    String,
>)
    ensures
        success <==> r is Ok,
        r matches Err(m) ==> m@ == status_error(status@, body_text@),
{
    if success {
        Ok(())
    } else {
        let mut s = copy_of("debug server returned ");
        push_str(&mut s, status);
        push_str(&mut s, ": ");
        push_str(&mut s, body_text);
        Err(s)
    }
}

/// Whether `c` may stand in an encoded query value: an unreserved character
/// or `%`.
pub open spec fn query_safe(c: char) -> bool {
    ('0' <= c <= '9') || ('A' <= c <= 'Z') || ('a' <= c <= 'z') || c == '-' || c == '_' || c
        == '.' || c == '~' || c == '%'
}

/// Percent-encoding leaves nothing that would end a query value: every
/// character it produces is unreserved or `%`, so no `&`, `=`, `#`, `?` or
/// space survives into the query string.
pub proof fn url_encode_is_query_safe(b: Seq<u8>)
    ensures
        forall|i: int| 0 <= i < url_encode_spec(b).len() ==> query_safe(#[trigger] url_encode_spec(b)[i]),
    decreases b.len(),
{
    if b.len() > 0 {
        url_encode_is_query_safe(b.drop_last());
        let pre = url_encode_spec(b.drop_last());
        let e = encode_byte(b.last());
        let x = b.last();
        assert(x / 16 < 16 && x % 16 < 16);
        assert forall|i: int| 0 <= i < e.len() implies query_safe(#[trigger] e[i]) by {
            if !unreserved(x) {
                assert(query_safe(hex_upper(x / 16)));
                assert(query_safe(hex_upper(x % 16)));
            }
        }
        assert forall|i: int| 0 <= i < (pre + e).len() implies query_safe(#[trigger] (pre + e)[i]) by {
            if i < pre.len() {
                assert((pre + e)[i] == pre[i]);
            } else {
                assert((pre + e)[i] == e[i - pre.len()]);
            }
        }
    }
}

/// The value of a hexadecimal digit (either case); 0 for other characters.
pub open spec fn hex_value(c: char) -> int {
    let u = c as int;
    if 48 <= u <= 57 {
        u - 48
    } else if 65 <= u <= 70 {
        u - 55
    } else if 97 <= u <= 102 {
        u - 87
    } else {
        0
    }
}

/// Percent-decoding: `%XY` is the byte with hexadecimal value `XY`, any other
/// character is the byte of its code.
pub open spec fn url_decode_spec(s: Seq<char>) -> Seq<u8>
    decreases s.len(),
{
    if s.len() == 0 {
        Seq::empty()
    } else if s[0] == '%' && s.len() >= 3 {
        seq![(hex_value(s[1]) * 16 + hex_value(s[2])) as u8] + url_decode_spec(s.skip(3))
    } else {
        seq![s[0] as u8] + url_decode_spec(s.skip(1))
    }
}

/// The encoding read from the front: the first byte's encoding, then the
/// rest's.
proof fn lemma_encode_front(b: Seq<u8>)
    requires
        b.len() > 0,
    ensures
        url_encode_spec(b) == encode_byte(b[0]) + url_encode_spec(b.drop_first()),
    decreases b.len(),
{
    if b.len() > 1 {
        lemma_encode_front(b.drop_last());
        assert(b.drop_last().drop_first() =~= b.drop_first().drop_last());
        assert(b.drop_first().last() == b.last());
        assert(url_encode_spec(b) =~= encode_byte(b[0]) + url_encode_spec(b.drop_first()));
    } else {
        assert(b.drop_first() =~= Seq::<u8>::empty());
        assert(b.drop_last() =~= Seq::<u8>::empty());
        assert(url_encode_spec(b) =~= encode_byte(b[0]) + url_encode_spec(b.drop_first()));
    }
}

/// Decoding one byte's encoding, followed by anything, gives that byte first.
proof fn lemma_decode_byte(x: u8, rest: Seq<char>)
    ensures
        url_decode_spec(encode_byte(x) + rest) == seq![x] + url_decode_spec(rest),
{
    let e = encode_byte(x);
    let s = e + rest;
    if unreserved(x) {
        assert(s[0] == x as char);
        assert(s.skip(1) =~= rest);
    } else {
        assert(x / 16 < 16 && x % 16 < 16);
        assert(hex_value(hex_upper(x / 16)) == x / 16);
        assert(hex_value(hex_upper(x % 16)) == x % 16);
        assert(s[0] == '%');
        assert(s.skip(3) =~= rest);
        assert((hex_value(s[1]) * 16 + hex_value(s[2])) as u8 == x);
    }
}

/// Percent-decoding the encoding of any bytes gives them back.
pub proof fn url_encode_round_trip(b: Seq<u8>)
    ensures
        url_decode_spec(url_encode_spec(b)) == b,
    decreases b.len(),
{
    if b.len() == 0 {
        assert(url_encode_spec(b) =~= Seq::<char>::empty());
        assert(url_decode_spec(url_encode_spec(b)) =~= b);
    } else {
        lemma_encode_front(b);
        lemma_decode_byte(b[0], url_encode_spec(b.drop_first()));
        url_encode_round_trip(b.drop_first());
        assert(seq![b[0]] + b.drop_first() =~= b);
    }
}

/// A JSON value as the caller serialised it: its text, or a failed
/// serialisation.
pub enum Rendered {
    Json(String),
    Failed,
}

/// A JSON reply as far as a data or pretty result reads it: its `data` field
/// rendered (when it has one), and the whole reply rendered.
pub struct JsonReply {
    pub data: Option<Rendered>,
    pub whole: Rendered,
}

/// The text of a rendered value, with `fallback` for a failed rendering.
pub open spec fn rendered_or(r: Rendered, fallback: Seq<char>) -> Seq<char> {
    match r {
        Rendered::Json(s) => s@,
        Rendered::Failed => fallback,
    }
}

/// The result text of a JSON reply. A data result (compact JSON) is the
/// `data` field, or `{}` when it is absent or fails to render; a pretty
/// result is the `data` field when present, else the whole reply, or empty
/// when rendering fails.
pub open spec fn json_text_spec(pretty: bool, reply: JsonReply) -> Seq<char> {
    if pretty {
        match reply.data {
            Some(d) => rendered_or(d, Seq::empty()),
            None => rendered_or(reply.whole, Seq::empty()),
        }
    } else {
        match reply.data {
            Some(d) => rendered_or(d, "{}"@),
            None => "{}"@,
        }
    }
}

/// The result text of a JSON reply, rendered compact (`pretty` false, for
/// [`ReplyKind::Data`]) or pretty (for [`ReplyKind::Pretty`]).
pub fn json_reply_text(pretty: bool, reply: JsonReply) -> (r: String)
    ensures
        r@ == json_text_spec(pretty, reply),
{
    let ghost rv = reply;
    let JsonReply { data, whole } = reply;
    let chosen = match data {
        Some(d) => d,
        None => {
            if pretty {
                whole
            } else {
                Rendered::Failed
            }
        },
    };
    match chosen {
        Rendered::Json(s) => s,
        Rendered::Failed => {
            if pretty {
                String::new()
            } else {
                copy_of("{}")
            }
        },
    }
}

/// Where the wait for the debug server's health check stands.
#[derive(Debug, Clone, Copy, PartialEq, Eq, Structural)]
pub enum PollState {
    /// Waiting for the time elapsed since the wait began.
    Clock,
    /// Waiting for the answer of a health check.
    Probe,
    /// Waiting to wake from a pause.
    Wake,
    /// Done: the server was published or given up on.
    Finished,
}

/// What the waiting loop observed.
pub enum PollEvent {
    /// Milliseconds elapsed since the wait began.
    Elapsed(u64),
    /// Whether the health check answered with a success status.
    Healthy(bool),
    /// The pause is over.
    Woke,
}

/// What the waiting loop does next.
pub enum PollAction {
    /// Read the clock.
    ReadClock,
    /// Send a health check to this URL.
    Get(String),
    /// Pause for this many milliseconds.
    Sleep(u64),
    /// Publish this base URL to the tools.
    Publish(String),
    /// Stop waiting and log this warning.
    GiveUp(String),
    /// Nothing more.
    Stop,
}

/// The mathematical form of a [`PollAction`].
pub enum PollActionView {
    ReadClock,
    Get(Seq<char>),
    Sleep(nat),
    Publish(Seq<char>),
    GiveUp(Seq<char>),
    Stop,
}

impl View for PollAction {
    type V = PollActionView;

    open spec fn view(&self) -> PollActionView {
        match self {
            PollAction::ReadClock => PollActionView::ReadClock,
            PollAction::Get(u) => PollActionView::Get(u@),
            PollAction::Sleep(ms) => PollActionView::Sleep(*ms as nat),
            PollAction::Publish(t) => PollActionView::Publish(t@),
            PollAction::GiveUp(w) => PollActionView::GiveUp(w@),
            PollAction::Stop => PollActionView::Stop,
        }
    }
}

/// How long the debug server is waited for, in milliseconds.
pub open spec fn health_deadline_ms() -> nat {
    45000
}

/// The pause between two health checks, in milliseconds.
pub open spec fn health_pause_ms() -> nat {
    250
}

/// The warning logged when the debug server never answers.
pub open spec fn give_up_warning() -> Seq<char> {
    "debug server never became healthy within 45s; browser tools will error"@
}

/// The base URL of the debug server on loopback port `port`.
pub open spec fn health_target_spec(port: u16) -> Seq<char> {
    "http://127.0.0.1:"@ + decimal(port as nat)
}

/// The base URL of the debug server on loopback port `port`.
pub fn health_target(port: u16) -> (r: String)
    ensures
        r@ == health_target_spec(port),
{
    let mut s = copy_of("http://127.0.0.1:");
    push_decimal(&mut s, port as u64);
    s
}

/// The action that state `st` waits on.
pub open spec fn poll_action_spec(target: Seq<char>, st: PollState) -> PollActionView {
    match st {
        PollState::Clock => PollActionView::ReadClock,
        PollState::Probe => PollActionView::Get(target + "/health"@),
        PollState::Wake => PollActionView::Sleep(health_pause_ms()),
        PollState::Finished => PollActionView::Stop,
    }
}

/// The next state and action of the wait for the debug server at `target`:
/// while less than the deadline has elapsed, check `/health`; a healthy answer
/// publishes `target`, an unhealthy one pauses and reads the clock again; at
/// the deadline, give up with a warning. An event that does not answer the
/// state's action repeats that action.
pub open spec fn poll_spec(target: Seq<char>, st: PollState, ev: PollEvent) -> (
    PollState,
    PollActionView,
) {
    match (st, ev) {
        (PollState::Clock, PollEvent::Elapsed(ms)) => if ms < health_deadline_ms() {
            (PollState::Probe, PollActionView::Get(target + "/health"@))
        } else {
            (PollState::Finished, PollActionView::GiveUp(give_up_warning()))
        },
        (PollState::Probe, PollEvent::Healthy(ok)) => if ok {
            (PollState::Finished, PollActionView::Publish(target))
        } else {
            (PollState::Wake, PollActionView::Sleep(health_pause_ms()))
        },
        (PollState::Wake, PollEvent::Woke) => (PollState::Clock, PollActionView::ReadClock),
        _ => (st, poll_action_spec(target, st)),
    }
}

/// The action that state `st` waits on.
fn poll_action(target: &str, st: PollState) -> (r: PollAction)
    ensures
        r@ == poll_action_spec(target@, st),
{
    match st {
        PollState::Clock => PollAction::ReadClock,
        PollState::Probe => PollAction::Get(concat(target, "/health")),
        PollState::Wake => PollAction::Sleep(250),
        PollState::Finished => PollAction::Stop,
    }
}

/// One step of the wait for the debug server at `target`.
pub fn poll_step(target: &str, st: PollState, ev: PollEvent) -> (r: (PollState, PollAction))
    ensures
        (r.0, r.1@) == poll_spec(target@, st, ev),
{
    match (st, ev) {
        (PollState::Clock, PollEvent::Elapsed(ms)) => {
            if ms < 45000 {
                (PollState::Probe, PollAction::Get(concat(target, "/health")))
            } else {
                (
                    PollState::Finished,
                    PollAction::GiveUp(
                        copy_of(
                            "debug server never became healthy within 45s; browser tools will error",
                        ),
                    ),
                )
            }
        },
        (PollState::Probe, PollEvent::Healthy(ok)) => {
            if ok {
                (PollState::Finished, PollAction::Publish(copy_of(target)))
            } else {
                (PollState::Wake, PollAction::Sleep(250))
            }
        },
        (PollState::Wake, PollEvent::Woke) => (PollState::Clock, PollAction::ReadClock),
        (st, _) => (st, poll_action(target, st)),
    }
}

/// The wait publishes only its own target, and only on a healthy answer; it
/// gives up only once the deadline has elapsed.
pub proof fn poll_publishes_only_when_healthy(target: Seq<char>, st: PollState, ev: PollEvent)
    ensures
        poll_spec(target, st, ev).1 is Publish ==> poll_spec(target, st, ev).1->Publish_0
            == target && st == PollState::Probe && ev == PollEvent::Healthy(true),
        poll_spec(target, st, ev).1 is GiveUp ==> st == PollState::Clock && (
        ev matches PollEvent::Elapsed(ms) && ms >= health_deadline_ms()),
{
}

/// A DOM query sends the selector first, then the attribute when one is
/// given (non-empty), then `computed` and `all` when they are `true`: one
/// pair per set argument.
pub proof fn dom_query_carries_every_argument(
    selector: String,
    attribute: Option<String>,
    computed: Option<bool>,
    all: Option<bool>,
)
    ensures
        ({
            let q = plan_spec(Tool::Dom { selector, attribute, computed, all }).query;
            let has_attr = attribute is Some && attribute->0@.len() > 0;
            &&& q.len() == 1 + (if has_attr { 1int } else { 0 }) + (if computed == Some(true) {
                1int
            } else {
                0
            }) + (if all == Some(true) {
                1int
            } else {
                0
            })
            &&& q[0] == ("selector"@, selector@)
            &&& has_attr ==> q[1] == ("attribute"@, attribute->0@)
            &&& computed == Some(true) ==> q.contains(("computed"@, "true"@))
            &&& all == Some(true) ==> q.contains(("all"@, "true"@))
            &&& q.last() == if all == Some(true) {
                ("all"@, "true"@)
            } else if computed == Some(true) {
                ("computed"@, "true"@)
            } else if has_attr {
                ("attribute"@, attribute->0@)
            } else {
                ("selector"@, selector@)
            }
        }),
{
    let q = plan_spec(Tool::Dom { selector, attribute, computed, all }).query;
    let a = seq![("selector"@, selector@)];
    let b = opt_pair("attribute"@, attribute);
    let c = flag_pair("computed"@, computed);
    let d = flag_pair("all"@, all);
    assert(q == a + b + c + d);
    if computed == Some(true) {
        assert((a + b + c + d)[(a.len() + b.len()) as int] == ("computed"@, "true"@));
    }
    if all == Some(true) {
        assert((a + b + c + d)[(a.len() + b.len() + c.len()) as int] == ("all"@, "true"@));
    }
}

} // verus!
