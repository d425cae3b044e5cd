use shirabe::mcp::{
    health_target, json_reply_text, poll_step, JsonReply, PollAction, PollEvent, PollState,
    Rendered, api_url, check_fire_and_forget, check_reply, ensure_up, get_url, initial_base_url, plan,
    screenshot_result, url_encode, Method, ReplyData, ReplyKind, Scalar, ScreenshotReply, Tool,
};

#[test]
fn url_encode_keeps_unreserved_and_escapes_the_rest() {
    assert_eq!(url_encode("aZ09-_.~"), "aZ09-_.~");
    assert_eq!(url_encode("div > a[href='x']"), "div%20%3E%20a%5Bhref%3D%27x%27%5D");
    assert_eq!(url_encode("é"), "%C3%A9");
    assert_eq!(url_encode(""), "");
}

#[test]
fn get_urls_carry_encoded_queries() {
    assert_eq!(api_url("http://127.0.0.1:9", "a11y"), "http://127.0.0.1:9/a11y");
    assert_eq!(get_url("http://h", "dom", &vec![]), "http://h/dom");
    let q = vec![
        ("selector".to_string(), "#a b".to_string()),
        ("all".to_string(), "true".to_string()),
    ];
    assert_eq!(get_url("http://h", "dom", &q), "http://h/dom?selector=%23a%20b&all=true");
}

#[test]
fn tools_need_the_debug_server_up() {
    assert_eq!(
        ensure_up(""),
        Err("Debug server is not up yet. Wait a moment and retry.".to_string())
    );
    assert_eq!(ensure_up("http://h"), Ok("http://h".to_string()));
    assert_eq!(initial_base_url(None), "about:blank");
    assert_eq!(initial_base_url(Some("http://x".into())), "http://x");
}

fn text_of(k: &ReplyKind) -> &str {
    match k {
        ReplyKind::Text(t) => t.as_str(),
        _ => panic!("not a text reply"),
    }
}

#[test]
fn plans_of_fire_and_forget_tools() {
    let (req, kind) = plan(&Tool::Navigate { url: "https://e.x".into() });
    assert_eq!(req.method, Method::FireAndForget);
    assert_eq!(req.path, "navigate");
    assert_eq!(req.body.len(), 1);
    assert_eq!(req.body[0].0, "url");
    assert!(matches!(&req.body[0].1, Scalar::Str(s) if s == "https://e.x"));
    assert_eq!(text_of(&kind), "Navigated to https://e.x");

    let (req, kind) = plan(&Tool::Resize { width: 1280, height: 720 });
    assert_eq!(req.path, "resize");
    assert!(matches!(req.body[0].1, Scalar::Num(1280)));
    assert_eq!(text_of(&kind), "Resized to 1280x720");

    let (req, kind) = plan(&Tool::Type { target: "#q".into(), text: "hi".into(), submit: None });
    let keys: Vec<&str> = req.body.iter().map(|(k, _)| *k).collect();
    assert_eq!(keys, vec!["selector", "text", "clear_first", "submit"]);
    assert!(matches!(req.body[3].1, Scalar::Bool(false)));
    assert_eq!(text_of(&kind), "Typed: hi");

    let (req, kind) = plan(&Tool::NavigateBack);
    assert_eq!(req.path, "back");
    assert!(req.body.is_empty());
    assert_eq!(text_of(&kind), "Navigated back");
    let (_, kind) = plan(&Tool::Click { target: "a".into() });
    assert_eq!(text_of(&kind), "Clicked: a");
    let (_, kind) = plan(&Tool::PressKey { key: "Enter".into() });
    assert_eq!(text_of(&kind), "Pressed: Enter");
}

#[test]
fn plans_of_query_tools() {
    let (req, kind) = plan(&Tool::Dom {
        selector: "ul li".into(),
        attribute: Some("".into()),
        computed: Some(true),
        all: Some(false),
    });
    assert_eq!(req.method, Method::Get);
    assert_eq!(req.path, "dom");
    assert_eq!(
        req.query,
        vec![
            ("selector".to_string(), "ul li".to_string()),
            ("computed".to_string(), "true".to_string())
        ]
    );
    assert!(matches!(kind, ReplyKind::Data));

    let (req, _) = plan(&Tool::Snapshot { target: Some("".into()) });
    assert!(req.query.is_empty());
    let (req, kind) = plan(&Tool::ConsoleMessages { level: Some("error".into()) });
    assert_eq!(req.query, vec![("level".to_string(), "error".to_string())]);
    assert!(matches!(kind, ReplyKind::Pretty));

    let (req, kind) = plan(&Tool::Screenshot { element: None, full_page: Some(true) });
    assert_eq!(req.method, Method::Post);
    assert_eq!(req.body.len(), 1);
    assert_eq!(req.body[0].0, "full_page");
    assert!(matches!(kind, ReplyKind::Screenshot));
    let (req, kind) = plan(&Tool::Evaluate { function: "1+1".into() });
    assert_eq!(req.path, "evaluate");
    assert_eq!(req.body[0].0, "expression");
    assert!(matches!(kind, ReplyKind::Pretty));
}

#[test]
fn screenshot_replies_become_data_urls() {
    let r = screenshot_result(ScreenshotReply {
        ok: Some(true),
        data: ReplyData::Str("iVBOR".into()),
        error: None,
    });
    assert_eq!(r, Ok("data:image/png;base64,iVBOR".to_string()));
    let r = screenshot_result(ScreenshotReply {
        ok: Some(true),
        data: ReplyData::Object {
            data: Some("AAAA".into()),
            mime_type: Some("image/jpeg".into()),
            json: "{}".into(),
        },
        error: None,
    });
    assert_eq!(r, Ok("data:image/jpeg;base64,AAAA".to_string()));
    let r = screenshot_result(ScreenshotReply {
        ok: Some(true),
        data: ReplyData::Str("data:image/webp;base64,xx".into()),
        error: None,
    });
    assert_eq!(r, Ok("data:image/webp;base64,xx".to_string()));
    let r = screenshot_result(ScreenshotReply { ok: Some(true), data: ReplyData::Missing, error: None });
    assert_eq!(r, Ok("data:image/png;base64,".to_string()));
    let r = screenshot_result(ScreenshotReply {
        ok: Some(false),
        data: ReplyData::Other,
        error: Some("no page".into()),
    });
    assert_eq!(r, Err("no page".to_string()));
    let r = screenshot_result(ScreenshotReply { ok: None, data: ReplyData::Other, error: None });
    assert_eq!(r, Err("unknown".to_string()));
}

#[test]
fn failed_replies_name_status_and_detail() {
    assert_eq!(check_reply(true, "200 OK", None), Ok(()));
    assert_eq!(
        check_reply(false, "404 Not Found", Some("no such element")),
        Err("debug server returned 404 Not Found: no such element".to_string())
    );
    assert_eq!(
        check_reply(false, "500 Internal Server Error", None),
        Err("debug server returned 500 Internal Server Error: unknown error".to_string())
    );
    assert_eq!(
        check_fire_and_forget(false, "400 Bad Request", "bad url"),
        Err("debug server returned 400 Bad Request: bad url".to_string())
    );
    assert_eq!(check_fire_and_forget(true, "200 OK", ""), Ok(()));
}

#[test]
fn encoded_values_cannot_break_the_query() {
    let nasty = "a&b=c?d#e f%g/h+i\u{1F600}";
    let enc = url_encode(nasty);
    assert!(enc
        .chars()
        .all(|c| c.is_ascii_alphanumeric() || matches!(c, '-' | '_' | '.' | '~' | '%')));
    assert_eq!(enc, "a%26b%3Dc%3Fd%23e%20f%25g%2Fh%2Bi%F0%9F%98%80");
}

fn percent_decode(s: &str) -> Vec<u8> {
    let b = s.as_bytes();
    let mut out = Vec::new();
    let mut i = 0;
    while i < b.len() {
        if b[i] == b'%' && i + 2 < b.len() {
            let hex = std::str::from_utf8(&b[i + 1..i + 3]).unwrap();
            out.push(u8::from_str_radix(hex, 16).unwrap());
            i += 3;
        } else {
            out.push(b[i]);
            i += 1;
        }
    }
    out
}

#[test]
fn percent_decoding_gives_the_bytes_back() {
    assert_eq!(url_encode("a b/c"), "a%20b%2Fc");
    for s in ["a b/c", "", "%%%", "x=1&y=é", "~-_.", "\u{1F600}?#"] {
        assert_eq!(percent_decode(&url_encode(s)), s.as_bytes());
    }
}

#[test]
fn json_replies_choose_data_or_fallback() {
    let r = |d: Option<Rendered>, w: Rendered| JsonReply { data: d, whole: w };
    assert_eq!(json_reply_text(false, r(Some(Rendered::Json("[1]".into())), Rendered::Failed)), "[1]");
    assert_eq!(json_reply_text(false, r(None, Rendered::Json("{\"ok\":true}".into()))), "{}");
    assert_eq!(json_reply_text(false, r(Some(Rendered::Failed), Rendered::Failed)), "{}");
    assert_eq!(json_reply_text(true, r(None, Rendered::Json("{ }".into()))), "{ }");
    assert_eq!(json_reply_text(true, r(Some(Rendered::Json("2".into())), Rendered::Json("w".into()))), "2");
    assert_eq!(json_reply_text(true, r(Some(Rendered::Failed), Rendered::Json("w".into()))), "");
}

#[test]
fn health_poll_publishes_after_a_healthy_check() {
    let target = health_target(4321);
    assert_eq!(target, "http://127.0.0.1:4321");
    let (st, act) = poll_step(&target, PollState::Clock, PollEvent::Elapsed(0));
    assert_eq!(st, PollState::Probe);
    assert!(matches!(act, PollAction::Get(u) if u == "http://127.0.0.1:4321/health"));
    let (st, act) = poll_step(&target, st, PollEvent::Healthy(false));
    assert_eq!(st, PollState::Wake);
    assert!(matches!(act, PollAction::Sleep(250)));
    let (st, act) = poll_step(&target, st, PollEvent::Woke);
    assert_eq!(st, PollState::Clock);
    assert!(matches!(act, PollAction::ReadClock));
    let (st, act) = poll_step(&target, st, PollEvent::Elapsed(44_999));
    let (st, act2) = poll_step(&target, st, PollEvent::Healthy(true));
    assert!(matches!(act, PollAction::Get(_)));
    assert_eq!(st, PollState::Finished);
    assert!(matches!(act2, PollAction::Publish(t) if t == "http://127.0.0.1:4321"));
}

#[test]
fn health_poll_gives_up_at_the_deadline() {
    let (st, act) = poll_step("http://h", PollState::Clock, PollEvent::Elapsed(45_000));
    assert_eq!(st, PollState::Finished);
    assert!(matches!(act, PollAction::GiveUp(w)
        if w == "debug server never became healthy within 45s; browser tools will error"));
    let (st, act) = poll_step("http://h", PollState::Probe, PollEvent::Woke);
    assert_eq!(st, PollState::Probe);
    assert!(matches!(act, PollAction::Get(u) if u == "http://h/health"));
    let (_, act) = poll_step("http://h", PollState::Finished, PollEvent::Healthy(true));
    assert!(matches!(act, PollAction::Stop));
}
