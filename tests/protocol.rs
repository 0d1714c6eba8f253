use webdriver_client::chrome::ChromeDriverBuilder;
use webdriver_client::firefox::GeckoDriverBuilder;
use webdriver_client::json::JsonValue;
use webdriver_client::messages::{
    Cookie, ElementReference, ExecuteCmd, LocationStrategy, NewSessionCmd, SwitchWindowCmd,
    WebDriverError,
};
use webdriver_client::session::{DriverSession, Element, FrameContext, HttpDriverBuilder, Screenshot};
use webdriver_client::transport::{
    decode_cookies, decode_element, decode_elements, decode_empty, decode_response, decode_string,
    decode_strings, decode_value, make_request, Method, Request,
};
use webdriver_client::Error;

const BASE: &str = "http://localhost:4444";
const W3C: &str = "element-6066-11e4-a52e-4f735466cecf";

fn text(v: &str) -> JsonValue {
    JsonValue::String(v.to_string())
}

fn obj(entries: Vec<(&str, JsonValue)>) -> JsonValue {
    JsonValue::Object(entries.into_iter().map(|(k, v)| (k.to_string(), v)).collect())
}

fn session() -> DriverSession {
    let reply = obj(vec![(
        "value",
        obj(vec![("sessionId", text("abc")), ("capabilities", obj(vec![("browserName", text("firefox"))]))]),
    )]);
    DriverSession::create_session(BASE, decode_response(200, Ok(reply))).unwrap()
}

fn check(r: Result<Request, Error>, method: Method, url: &str, body: Option<JsonValue>) {
    let r = r.unwrap();
    assert_eq!(r.method, method);
    assert_eq!(r.url, url);
    assert_eq!(r.body, body);
}

fn ok(value: JsonValue) -> Result<JsonValue, Error> {
    decode_response(200, Ok(obj(vec![("value", value)])))
}

#[test]
fn element_reference_round_trip() {
    for r in ["abc", "f7a9-22", "x"] {
        let encoded = ElementReference::from_str(r).to_json();
        assert_eq!(encoded, obj(vec![(W3C, text(r)), ("ELEMENT", text(r))]));
        assert_eq!(ElementReference::from_json(&encoded).unwrap().reference, r);
    }
}

#[test]
fn element_reference_legacy_key() {
    let legacy = obj(vec![("ELEMENT", text("old-1"))]);
    assert_eq!(ElementReference::from_json(&legacy).unwrap().reference, "old-1");
    assert!(ElementReference::from_json(&obj(vec![("other", text("x"))])).is_none());
    assert!(ElementReference::from_json(&text("x")).is_none());
}

#[test]
fn find_vs_find_all_on_no_match() {
    let sess = session();
    let one = sess.find_element("p.none", LocationStrategy::Css).unwrap();
    let all = sess.find_elements("p.none", LocationStrategy::Css).unwrap();
    assert_eq!(one.body, all.body);
    assert_eq!(one.url, "http://localhost:4444/session/abc/element");
    assert_eq!(all.url, "http://localhost:4444/session/abc/elements");
    let none = decode_elements(ok(JsonValue::Array(vec![]))).unwrap();
    assert!(none.is_empty());
    let missing = decode_response(
        404,
        Ok(obj(vec![("value", obj(vec![("error", text("no such element")), ("message", text("none"))]))])),
    );
    match decode_element(missing) {
        Err(Error::WebDriverError(e)) => assert_eq!(e.error, "no such element"),
        other => panic!("unexpected: {:?}", other),
    }
    assert!(matches!(decode_element(ok(JsonValue::Array(vec![]))), Err(Error::JsonDecodeError(_))));
}

#[test]
fn teardown_sends_delete_once() {
    let mut sess = session();
    let first = sess.close();
    check(first.unwrap(), Method::Delete, "http://localhost:4444/session/abc", None);
    assert!(sess.close().is_none());
}

#[test]
fn teardown_without_drop_session_sends_nothing() {
    let mut sess = session();
    sess.drop_session(false);
    assert!(sess.close().is_none());
    assert!(sess.close().is_none());
}

#[test]
fn error_envelope_maps_to_webdriver_error() {
    let body = obj(vec![("error", text("no such element")), ("message", text("Unable to locate"))]);
    match decode_response(404, Ok(body)) {
        Err(Error::WebDriverError(e)) => {
            assert_eq!(e.error, "no such element");
            assert_eq!(e.message, "Unable to locate");
            assert_eq!(e.stacktrace, None);
        }
        other => panic!("unexpected: {:?}", other),
    }
    let wrapped = obj(vec![(
        "value",
        obj(vec![("error", text("stale element reference")), ("message", text("gone")), ("stacktrace", text("at x"))]),
    )]);
    match decode_response(500, Ok(wrapped)) {
        Err(Error::WebDriverError(e)) => {
            assert_eq!(e.error, "stale element reference");
            assert_eq!(e.stacktrace, Some("at x".to_string()));
        }
        other => panic!("unexpected: {:?}", other),
    }
}

#[test]
fn failure_without_envelope_is_decode_error() {
    assert!(matches!(decode_response(500, Ok(obj(vec![("oops", text("x"))]))), Err(Error::JsonDecodeError(_))));
    assert!(matches!(decode_response(200, Err("expected value".to_string())), Err(Error::JsonDecodeError(_))));
    assert!(matches!(decode_response(299, Ok(JsonValue::Null)), Ok(JsonValue::Null)));
    assert!(matches!(decode_response(300, Ok(JsonValue::Null)), Err(Error::JsonDecodeError(_))));
}

#[test]
fn navigation_round_trip() {
    let sess = session();
    check(sess.go("/a.html"), Method::Post, "http://localhost:4444/session/abc/url", Some(obj(vec![("url", text("/a.html"))])));
    check(sess.get_current_url(), Method::Get, "http://localhost:4444/session/abc/url", None);
    assert_eq!(decode_string(ok(text("http://localhost:8000/a.html"))).unwrap(), "http://localhost:8000/a.html");
    check(sess.back(), Method::Post, "http://localhost:4444/session/abc/back", Some(obj(vec![])));
    check(sess.forward(), Method::Post, "http://localhost:4444/session/abc/forward", Some(obj(vec![])));
    check(sess.refresh(), Method::Post, "http://localhost:4444/session/abc/refresh", Some(obj(vec![])));
    assert!(decode_empty(ok(JsonValue::Null)).is_ok());
    assert!(matches!(decode_empty(decode_response(200, Ok(text("x")))), Err(Error::JsonDecodeError(_))));
}

#[test]
fn frame_guard_restores_top_level() {
    let sess = session();
    let frame = obj(vec![(W3C, text("f1")), ("ELEMENT", text("f1"))]);
    check(
        FrameContext::enter(&sess, frame.deep_clone()),
        Method::Post,
        "http://localhost:4444/session/abc/frame",
        Some(obj(vec![("id", frame)])),
    );
    let guard = FrameContext::new(&sess, Ok(())).unwrap();
    check(guard.leave(), Method::Post, "http://localhost:4444/session/abc/frame", Some(obj(vec![("id", JsonValue::Null)])));
    assert!(FrameContext::new(&sess, Err(Error::ConnectionError)).is_err());
    let frames = decode_elements(ok(JsonValue::Array(vec![obj(vec![(W3C, text("f1"))]), obj(vec![("ELEMENT", text("f2"))])]))).unwrap();
    assert_eq!(frames.len(), 2);
    assert_eq!(frames[1].reference, "f2");
}

#[test]
fn execute_argument_marshaling() {
    let sess = session();
    let cmd = ExecuteCmd {
        script: "return arguments[0]+arguments[1]".to_string(),
        args: vec![JsonValue::Number("1".to_string()), JsonValue::Number("2".to_string())],
    };
    check(
        sess.execute(cmd),
        Method::Post,
        "http://localhost:4444/session/abc/execute/sync",
        Some(obj(vec![
            ("script", text("return arguments[0]+arguments[1]")),
            ("args", JsonValue::Array(vec![JsonValue::Number("1".to_string()), JsonValue::Number("2".to_string())])),
        ])),
    );
    assert_eq!(decode_value(ok(JsonValue::Number("3".to_string()))).unwrap(), JsonValue::Number("3".to_string()));
    let thrown = decode_response(
        500,
        Ok(obj(vec![("value", obj(vec![("error", text("javascript error")), ("message", text("uncaught exception: x"))]))])),
    );
    match decode_value(thrown) {
        Err(Error::WebDriverError(e)) => assert!(e.message.contains("x")),
        other => panic!("unexpected: {:?}", other),
    }
    let empty = ExecuteCmd { script: "throw 'x'".to_string(), args: vec![] };
    check(
        sess.execute_async(empty),
        Method::Post,
        "http://localhost:4444/session/abc/execute/async",
        Some(obj(vec![("script", text("throw 'x'")), ("args", JsonValue::Array(vec![]))])),
    );
}

#[test]
fn session_reads() {
    let sess = session();
    assert_eq!(sess.session_id(), "abc");
    assert_eq!(sess.browser_name(), Some("firefox"));
    check(sess.get_page_source(), Method::Get, "http://localhost:4444/session/abc/source", None);
    check(sess.get_title(), Method::Get, "http://localhost:4444/session/abc/title", None);
    check(sess.get_cookies(), Method::Get, "http://localhost:4444/session/abc/cookie", None);
    check(sess.get_window_handle(), Method::Get, "http://localhost:4444/session/abc/window", None);
    check(sess.get_window_handles(), Method::Get, "http://localhost:4444/session/abc/window/handles", None);
    check(sess.switch_window("w2"), Method::Post, "http://localhost:4444/session/abc/window", Some(obj(vec![("handle", text("w2"))])));
    check(sess.close_window(), Method::Delete, "http://localhost:4444/session/abc/window", None);
    check(sess.switch_to_parent_frame(), Method::Post, "http://localhost:4444/session/abc/frame/parent", Some(obj(vec![])));
    check(sess.screenshot(), Method::Get, "http://localhost:4444/session/abc/screenshot", None);
    assert_eq!(
        SwitchWindowCmd::from("w9").to_json(),
        obj(vec![("handle", text("w9"))])
    );
    let handles = decode_strings(ok(JsonValue::Array(vec![text("w1"), text("w2")]))).unwrap();
    assert_eq!(handles, vec!["w1".to_string(), "w2".to_string()]);
    assert!(matches!(decode_strings(ok(JsonValue::Array(vec![text("w1"), JsonValue::Null]))), Err(Error::JsonDecodeError(_))));
}

#[test]
fn element_requests() {
    let sess = session();
    let e = Element::new(&sess, "e1".to_string());
    let p = "http://localhost:4444/session/abc/element/e1";
    check(e.attribute("href"), Method::Get, &format!("{}/attribute/href", p), None);
    check(e.property("value"), Method::Get, &format!("{}/property/value", p), None);
    check(e.css_value("color"), Method::Get, &format!("{}/css/color", p), None);
    check(e.text(), Method::Get, &format!("{}/text", p), None);
    check(e.name(), Method::Get, &format!("{}/name", p), None);
    check(e.click(), Method::Post, &format!("{}/click", p), Some(obj(vec![])));
    check(e.clear(), Method::Post, &format!("{}/clear", p), Some(obj(vec![])));
    check(e.send_keys("hi"), Method::Post, &format!("{}/value", p), Some(obj(vec![("text", text("hi"))])));
    check(e.screenshot(), Method::Get, &format!("{}/screenshot", p), None);
    check(
        e.find_elements("a", LocationStrategy::XPath),
        Method::Post,
        &format!("{}/elements", p),
        Some(obj(vec![("using", text("xpath")), ("value", text("a"))])),
    );
    check(
        e.find_element("more", LocationStrategy::PartialLinkText),
        Method::Post,
        &format!("{}/element", p),
        Some(obj(vec![("using", text("partial link text")), ("value", text("more"))])),
    );
    assert_eq!(e.raw_reference(), "e1");
    let reference = obj(vec![(W3C, text("e1")), ("ELEMENT", text("e1"))]);
    assert_eq!(e.reference().unwrap(), reference);
    check(
        e.inner_html(),
        Method::Post,
        "http://localhost:4444/session/abc/execute/sync",
        Some(obj(vec![
            ("script", text("return arguments[0].innerHTML;")),
            ("args", JsonValue::Array(vec![reference.deep_clone()])),
        ])),
    );
    check(
        e.outer_html(),
        Method::Post,
        "http://localhost:4444/session/abc/execute/sync",
        Some(obj(vec![
            ("script", text("return arguments[0].outerHTML;")),
            ("args", JsonValue::Array(vec![reference])),
        ])),
    );
}

#[test]
fn strategies_on_the_wire() {
    assert_eq!(LocationStrategy::Css.wire_name(), "css selector");
    assert_eq!(LocationStrategy::LinkText.wire_name(), "link text");
    assert_eq!(LocationStrategy::PartialLinkText.wire_name(), "partial link text");
    assert_eq!(LocationStrategy::XPath.wire_name(), "xpath");
}

#[test]
fn new_session_handshake() {
    let params = NewSessionCmd::default();
    let req = DriverSession::new_session_request(BASE, &params).unwrap();
    assert_eq!(req.method, Method::Post);
    assert_eq!(req.url, "http://localhost:4444/session");
    assert_eq!(req.body, Some(params.to_json()));
    assert!(matches!(DriverSession::new_session_request("not a url", &params), Err(Error::InvalidUrl)));
    let empty_id = obj(vec![("value", obj(vec![("sessionId", text("")), ("capabilities", obj(vec![]))]))]);
    assert!(matches!(DriverSession::create_session(BASE, decode_response(200, Ok(empty_id))), Err(Error::JsonDecodeError(_))));
    assert!(matches!(DriverSession::create_session(BASE, Err(Error::ConnectionError)), Err(Error::ConnectionError)));
}

#[test]
fn attach_confirms_before_teardown() {
    let mut sess = DriverSession::attach(BASE, "old");
    check(sess.get_current_url(), Method::Get, "http://localhost:4444/session/old/url", None);
    assert!(sess.browser_name().is_none());
    assert!(sess.attached(Err(Error::ConnectionError)).is_err());
    let mut unconfirmed = DriverSession::attach(BASE, "old");
    assert!(unconfirmed.close().is_none());
    assert!(sess.attached(Ok("about:blank".to_string())).is_ok());
    check(sess.close().unwrap(), Method::Delete, "http://localhost:4444/session/old", None);
}

#[test]
fn url_resolution() {
    check(make_request(BASE, Method::Get, "/session/abc/url", None), Method::Get, "http://localhost:4444/session/abc/url", None);
    check(
        make_request("http://localhost:4444/wd/hub/", Method::Post, "session", Some(JsonValue::Null)),
        Method::Post,
        "http://localhost:4444/wd/hub/session",
        Some(JsonValue::Null),
    );
    assert!(matches!(make_request("localhost", Method::Get, "/session", None), Err(Error::InvalidUrl)));
}

#[test]
fn screenshot_bytes() {
    let shot = Screenshot::from_string("aGVsbG8=".to_string()).unwrap();
    assert_eq!(shot.bytes().unwrap(), b"hello".to_vec());
    let bad = Screenshot::from_string("not base64!".to_string()).unwrap();
    assert!(matches!(bad.bytes(), Err(Error::Base64DecodeError(_))));
}

#[test]
fn cookies_decode() {
    let cookie = obj(vec![
        ("name", text("n")),
        ("value", text("v")),
        ("path", text("/")),
        ("domain", text("example.org")),
        ("secure", JsonValue::Bool(true)),
        ("httpOnly", JsonValue::Bool(false)),
    ]);
    let cs: Vec<Cookie> = decode_cookies(ok(JsonValue::Array(vec![cookie]))).unwrap();
    assert_eq!(cs.len(), 1);
    assert_eq!(cs[0].domain, "example.org");
    assert!(cs[0].secure && !cs[0].httpOnly);
    let partial = obj(vec![("name", text("n"))]);
    assert!(matches!(decode_cookies(ok(JsonValue::Array(vec![partial]))), Err(Error::JsonDecodeError(_))));
    assert!(matches!(decode_cookies(decode_response(200, Ok(obj(vec![])))), Err(Error::JsonDecodeError(_))));
}

#[test]
fn error_messages() {
    assert_eq!(Error::FailedToLaunchDriver.message(), "Unable to start browser driver");
    assert_eq!(Error::InvalidUrl.message(), "Invalid URL");
    assert_eq!(Error::ConnectionError.message(), "Error connecting to browser");
    assert_eq!(Error::Io("disk full".to_string()).message(), "disk full");
    assert_eq!(
        Error::JsonDecodeError("the value is no string".to_string()).message(),
        "Received invalid response from browser: the value is no string"
    );
    assert_eq!(Error::Base64DecodeError("bad".to_string()).message(), "Base64DecodeError: bad");
    let e = WebDriverError { error: "x".to_string(), message: "boom".to_string(), stacktrace: None };
    assert_eq!(Error::WebDriverError(e).message(), "Error: boom");
}

#[test]
fn driver_builders() {
    let c = ChromeDriverBuilder::new();
    assert_eq!(c.port_setting(), None);
    assert!(c.kills_on_drop());
    let c = c.port(9515).kill_on_drop(false);
    assert_eq!(c.port_setting(), Some(9515));
    assert!(!c.kills_on_drop());
    let g = GeckoDriverBuilder::new();
    assert_eq!(g.binary(), "firefox");
    let g = g.port(4444).firefox_binary("/opt/ff").kill_on_drop(false);
    assert_eq!(g.port_setting(), Some(4444));
    assert_eq!(g.binary(), "/opt/ff");
    assert!(!g.kills_on_drop());
    let mut b = HttpDriverBuilder::default();
    assert!(b.build().is_err());
    let d = b.url("http://localhost:4444").build().unwrap();
    assert_eq!(d.url(), "http://localhost:4444");
}

#[test]
fn malformed_stacktrace_is_no_envelope() {
    let body = obj(vec![("error", text("e")), ("message", text("m")), ("stacktrace", JsonValue::Number("5".to_string()))]);
    assert!(matches!(decode_response(500, Ok(body)), Err(Error::JsonDecodeError(_))));
    let null_trace = obj(vec![("error", text("e")), ("message", text("m")), ("stacktrace", JsonValue::Null)]);
    match decode_response(500, Ok(null_trace)) {
        Err(Error::WebDriverError(e)) => assert_eq!(e.stacktrace, None),
        other => panic!("unexpected: {:?}", other),
    }
}

#[test]
fn decode_errors_carry_detail() {
    match decode_response(200, Err("expected value at line 1".to_string())) {
        Err(Error::JsonDecodeError(d)) => assert_eq!(d, "expected value at line 1"),
        other => panic!("unexpected: {:?}", other),
    }
    match decode_string(ok(JsonValue::Bool(true))) {
        Err(Error::JsonDecodeError(d)) => assert_eq!(d, "the value is no string"),
        other => panic!("unexpected: {:?}", other),
    }
    match Screenshot::from_string("@@".to_string()).unwrap().bytes() {
        Err(Error::Base64DecodeError(d)) => assert!(!d.is_empty()),
        other => panic!("unexpected: {:?}", other),
    }
}
