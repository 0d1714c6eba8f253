//! Requests to the remote end and the decoding of its responses.
use vstd::prelude::*;

use crate::error::{outcome, Error, ErrorModel};
use crate::json::{get, get_key, items_of, lemma_items_of, Entries, Json, JsonValue};
use crate::messages::{
    cookie_of, element_ref_of, envelope_of, error_fields, session_of, Cookie, ElementReference, Session,
    WebDriverError,
};

verus! {

/// An HTTP method.
#[derive(Clone, Copy, Debug, PartialEq, Eq)]
pub enum Method {
    Get,
    Post,
    Delete,
}

/// A request to send: its method, its absolute URL and its JSON body.
#[derive(Debug)]
pub struct Request {
    pub method: Method,
    pub url: String,
    pub body: Option<JsonValue>,
}

/// The model of a request.
pub struct RequestModel {
    pub method: Method,
    pub url: Seq<char>,
    pub body: Option<Json>,
}

impl DeepView for Request {
    type V = RequestModel;

    open spec fn deep_view(&self) -> RequestModel {
        RequestModel { method: self.method, url: self.url@, body: self.body.deep_view() }
    }
}

/// The URL that `path` names relative to `base`, where `base` is an
/// absolute URL and the two resolve.
pub uninterp spec fn resolved_url(base: Seq<char>, path: Seq<char>) -> Option<Seq<char>>;

/// Relies on `hyper::Url::parse` and `Url::join` (of the url crate): `path`
/// resolved against the absolute URL `base`, serialized; none where either
/// step fails.
#[verifier::external_body]
fn resolve_url(base: &str, path: &str) -> (r: Option<String>)
    ensures
        r is Some <==> resolved_url(base@, path@) is Some,
        r is Some ==> r->0@ == resolved_url(base@, path@)->0,
{
    match hyper::Url::parse(base) {
        Ok(b) => b.join(path).ok().map(|u| u.into_string()),
        Err(_) => None,
    }
}

/// The request with `method`, `path` resolved against `base` and `body`;
/// a URL that does not resolve is `InvalidUrl`.
pub open spec fn request_for(base: Seq<char>, method: Method, path: Seq<char>, body: Option<Json>) -> Result<RequestModel, ErrorModel> {
    match resolved_url(base, path) {
        Some(u) => Ok(RequestModel { method: method, url: u, body: body }),
        None => Err(ErrorModel::InvalidUrl),
    }
}

/// Builds the request with `method`, `path` against `base`, and `body`.
pub fn make_request(base: &str, method: Method, path: &str, body: Option<JsonValue>) -> (r: Result<Request, Error>)
    ensures
        outcome(r) == request_for(base@, method, path@, body.deep_view()),
{
    match resolve_url(base, path) {
        Some(u) => Ok(Request { method: method, url: u, body: body }),
        None => Err(Error::InvalidUrl),
    }
}

/// A status in the success class.
pub open spec fn is_success(status: u16) -> bool {
    200 <= status <= 299
}

/// What a response says: on success its body; on failure the error that
/// its body reports. A body that is missing (no JSON) or that holds no error
/// where one is due is a decode error.
pub open spec fn response_body(status: u16, body: Option<Json>) -> Result<Json, ErrorModel> {
    match body {
        None => Err(ErrorModel::JsonDecode),
        Some(b) => if is_success(status) {
            Ok(b)
        } else {
            match envelope_of(b) {
                Some((e, m, st)) => Err(ErrorModel::WebDriver(e, m, st)),
                None => Err(ErrorModel::JsonDecode),
            }
        },
    }
}

/// The model of a parsed body: the value, or none where the text was no
/// JSON.
pub open spec fn parsed_view(body: Result<JsonValue, String>) -> Option<Json> {
    match body {
        Ok(b) => Some(b@),
        Err(_) => None,
    }
}

/// Decodes a response with HTTP status `status` and body `body`: the body
/// parsed as JSON, or the parser's message where it is no JSON.
pub fn decode_response(status: u16, body: Result<JsonValue, String>) -> (r: Result<JsonValue, Error>)
    ensures
        outcome(r) == response_body(status, parsed_view(body)),
{
    match body {
        Err(detail) => Err(Error::JsonDecodeError(detail)),
        Ok(b) => {
            if 200 <= status && status <= 299 {
                Ok(b)
            } else {
                match WebDriverError::from_json(&b) {
                    Some(e) => Err(Error::WebDriverError(e)),
                    None => Err(Error::JsonDecodeError(String::from_str("the failure reply holds no error object"))),
                }
            }
        },
    }
}

/// The payload under `value` of a decoded body.
pub open spec fn value_in(o: Result<Json, ErrorModel>) -> Result<Json, ErrorModel> {
    match o {
        Ok(b) => match get(b, "value"@) {
            Some(v) => Ok(v),
            None => Err(ErrorModel::JsonDecode),
        },
        Err(e) => Err(e),
    }
}

/// The payload under `value` of a decoded body.
pub fn decode_value(r: Result<JsonValue, Error>) -> (x: Result<JsonValue, Error>)
    ensures
        outcome(x) == value_in(outcome(r)),
{
    match r {
        Ok(b) => match get_key(&b, "value") {
            Some(v) => Ok(v.deep_clone()),
            None => Err(Error::JsonDecodeError(String::from_str("the reply has no value"))),
        },
        Err(e) => Err(e),
    }
}

/// A decoded body that should be an object whose contents do not matter.
pub fn decode_empty(r: Result<JsonValue, Error>) -> (x: Result<(), Error>)
    ensures
        match outcome(r) {
            Ok(b) => (x is Ok <==> b is Object) && (x is Err ==> x->Err_0.deep_view()
                == ErrorModel::JsonDecode),
            Err(e) => x is Err && x->Err_0.deep_view() == e,
        },
{
    match r {
        Ok(JsonValue::Object(_)) => Ok(()),
        Ok(_) => Err(Error::JsonDecodeError(String::from_str("the reply is no object"))),
        Err(e) => Err(e),
    }
}

/// A payload that should be a string.
pub open spec fn string_in(o: Result<Json, ErrorModel>) -> Result<Seq<char>, ErrorModel> {
    match value_in(o) {
        Ok(Json::Str(s)) => Ok(s),
        Ok(_) => Err(ErrorModel::JsonDecode),
        Err(e) => Err(e),
    }
}

pub fn decode_string(r: Result<JsonValue, Error>) -> (x: Result<String, Error>)
    ensures
        outcome(x) == string_in(outcome(r)),
{
    match decode_value(r) {
        Ok(JsonValue::String(s)) => Ok(s),
        Ok(_) => Err(Error::JsonDecodeError(String::from_str("the value is no string"))),
        Err(e) => Err(e),
    }
}

/// Each item read by `f`, where `f` reads every one of them.
pub open spec fn all_items<A>(items: Seq<Json>, f: spec_fn(Json) -> Option<A>) -> Option<Seq<A>> {
    if forall|i: int| 0 <= i < items.len() ==> (#[trigger] f(items[i])) is Some {
        Some(Seq::new(items.len(), |i: int| f(items[i])->0))
    } else {
        None
    }
}

/// A payload that should be an array whose items `f` reads.
pub open spec fn list_in<A>(o: Result<Json, ErrorModel>, f: spec_fn(Json) -> Option<A>) -> Result<Seq<A>, ErrorModel> {
    match value_in(o) {
        Ok(Json::Array(items)) => match all_items(items, f) {
            Some(s) => Ok(s),
            None => Err(ErrorModel::JsonDecode),
        },
        Ok(_) => Err(ErrorModel::JsonDecode),
        Err(e) => Err(e),
    }
}

/// The text of a JSON string.
pub open spec fn str_of(j: Json) -> Option<Seq<char>> {
    match j {
        Json::Str(s) => Some(s),
        _ => None,
    }
}

/// Reads a JSON string.
pub open spec fn string_reader() -> spec_fn(Json) -> Option<Seq<char>> {
    |j: Json| str_of(j)
}

/// Reads an element reference.
pub open spec fn element_reader() -> spec_fn(Json) -> Option<Seq<char>> {
    |j: Json| element_ref_of(j)
}

/// Reads a cookie.
pub open spec fn cookie_reader() -> spec_fn(Json) -> Option<(Seq<char>, Seq<char>, Seq<char>, Seq<char>, bool, bool)> {
    |j: Json| cookie_of(j)
}

pub fn decode_strings(r: Result<JsonValue, Error>) -> (x: Result<Vec<String>, Error>)
    ensures
        outcome(x) == list_in(outcome(r), string_reader()),
{
    let v = decode_value(r);
    match v {
        Ok(JsonValue::Array(items)) => {
            proof {
                lemma_items_of(items@);
            }
            let ghost im = items_of(items@);
            let mut out: Vec<String> = Vec::new();
            let mut i: usize = 0;
            while i < items.len()
                invariant
                    i <= items.len(),
                    value_in(outcome(r)) == Ok::<Json, ErrorModel>(Json::Array(im)),
                    im == items_of(items@),
                    im.len() == items@.len(),
                    forall|j: int| 0 <= j < items@.len() ==> #[trigger] im[j] == items@[j]@,
                    out@.len() == i,
                    forall|j: int| 0 <= j < i ==> str_of(im[j]) == Some((#[trigger] out@[j])@),
                decreases items.len() - i,
            {
                match &items[i] {
                    JsonValue::String(s) => {
                        out.push(s.clone());
                    },
                    _ => {
                        proof {
                            let ghost g = string_reader();
                            assert(g(im[i as int]) is None);
                            assert(all_items(im, g) is None);
                        }
                        return Err(Error::JsonDecodeError(String::from_str("an item is no string")));
                    },
                }
                i += 1;
            }
            proof {
                assert forall|k: int| 0 <= k < im.len() implies (#[trigger] str_of(im[k])) is Some by {
                    assert(str_of(im[k]) == Some(out@[k]@));
                }
                assert(out.deep_view() =~= Seq::new(im.len(), |k: int| str_of(im[k])->0));
                assert(all_items(im, string_reader()) == Some(out.deep_view()));
            }
            Ok(out)
        },
        Ok(_) => Err(Error::JsonDecodeError(String::from_str("the value is no array"))),
        Err(e) => Err(e),
    }
}

/// A payload that should be an element reference.
pub open spec fn element_in(o: Result<Json, ErrorModel>) -> Result<Seq<char>, ErrorModel> {
    match value_in(o) {
        Ok(j) => match element_ref_of(j) {
            Some(r) => Ok(r),
            None => Err(ErrorModel::JsonDecode),
        },
        Err(e) => Err(e),
    }
}

pub fn decode_element(r: Result<JsonValue, Error>) -> (x: Result<ElementReference, Error>)
    ensures
        outcome(x) == element_in(outcome(r)),
{
    match decode_value(r) {
        Ok(v) => match ElementReference::from_json(&v) {
            Some(e) => Ok(e),
            None => Err(Error::JsonDecodeError(String::from_str("the value is no element reference"))),
        },
        Err(e) => Err(e),
    }
}

pub fn decode_elements(r: Result<JsonValue, Error>) -> (x: Result<Vec<ElementReference>, Error>)
    ensures
        outcome(x) == list_in(outcome(r), element_reader()),
{
    let v = decode_value(r);
    match v {
        Ok(JsonValue::Array(items)) => {
            proof {
                lemma_items_of(items@);
            }
            let ghost im = items_of(items@);
            let mut out: Vec<ElementReference> = Vec::new();
            let mut i: usize = 0;
            while i < items.len()
                invariant
                    i <= items.len(),
                    value_in(outcome(r)) == Ok::<Json, ErrorModel>(Json::Array(im)),
                    im == items_of(items@),
                    im.len() == items@.len(),
                    forall|j: int| 0 <= j < items@.len() ==> #[trigger] im[j] == items@[j]@,
                    out@.len() == i,
                    forall|j: int|
                        0 <= j < i ==> element_ref_of(im[j]) == Some(
                            (#[trigger] out@[j]).deep_view(),
                        ),
                decreases items.len() - i,
            {
                match ElementReference::from_json(&items[i]) {
                    Some(e) => {
                        out.push(e);
                    },
                    None => {
                        proof {
                            let ghost g = element_reader();
                            assert(g(im[i as int]) is None);
                            assert(all_items(im, g) is None);
                        }
                        return Err(Error::JsonDecodeError(String::from_str("an item is no element reference")));
                    },
                }
                i += 1;
            }
            proof {
                assert forall|k: int| 0 <= k < im.len() implies (#[trigger] element_ref_of(im[k])) is Some by {
                    assert(element_ref_of(im[k]) == Some(out@[k].deep_view()));
                }
                assert(out.deep_view() =~= Seq::new(
                    im.len(),
                    |k: int| element_ref_of(im[k])->0,
                ));
                assert(all_items(im, element_reader()) == Some(out.deep_view()));
            }
            Ok(out)
        },
        Ok(_) => Err(Error::JsonDecodeError(String::from_str("the value is no array"))),
        Err(e) => Err(e),
    }
}

pub fn decode_cookies(r: Result<JsonValue, Error>) -> (x: Result<Vec<Cookie>, Error>)
    ensures
        outcome(x) == list_in(outcome(r), cookie_reader()),
{
    let v = decode_value(r);
    match v {
        Ok(JsonValue::Array(items)) => {
            proof {
                lemma_items_of(items@);
            }
            let ghost im = items_of(items@);
            let mut out: Vec<Cookie> = Vec::new();
            let mut i: usize = 0;
            while i < items.len()
                invariant
                    i <= items.len(),
                    value_in(outcome(r)) == Ok::<Json, ErrorModel>(Json::Array(im)),
                    im == items_of(items@),
                    im.len() == items@.len(),
                    forall|j: int| 0 <= j < items@.len() ==> #[trigger] im[j] == items@[j]@,
                    out@.len() == i,
                    forall|j: int|
                        0 <= j < i ==> cookie_of(im[j]) == Some((#[trigger] out@[j]).deep_view()),
                decreases items.len() - i,
            {
                match Cookie::from_json(&items[i]) {
                    Some(c) => {
                        out.push(c);
                    },
                    None => {
                        proof {
                            let ghost g = cookie_reader();
                            assert(g(im[i as int]) is None);
                            assert(all_items(im, g) is None);
                        }
                        return Err(Error::JsonDecodeError(String::from_str("an item is no cookie")));
                    },
                }
                i += 1;
            }
            proof {
                assert forall|k: int| 0 <= k < im.len() implies (#[trigger] cookie_of(im[k])) is Some by {
                    assert(cookie_of(im[k]) == Some(out@[k].deep_view()));
                }
                assert(out.deep_view() =~= Seq::new(im.len(), |k: int| cookie_of(im[k])->0));
                assert(all_items(im, cookie_reader()) == Some(out.deep_view()));
            }
            Ok(out)
        },
        Ok(_) => Err(Error::JsonDecodeError(String::from_str("the value is no array"))),
        Err(e) => Err(e),
    }
}

/// A payload that should be a new-session reply.
pub open spec fn session_in(o: Result<Json, ErrorModel>) -> Result<(Seq<char>, Entries), ErrorModel> {
    match value_in(o) {
        Ok(j) => match session_of(j) {
            Some(s) => Ok(s),
            None => Err(ErrorModel::JsonDecode),
        },
        Err(e) => Err(e),
    }
}

pub fn decode_session(r: Result<JsonValue, Error>) -> (x: Result<Session, Error>)
    ensures
        outcome(x) == session_in(outcome(r)),
{
    match decode_value(r) {
        Ok(v) => match Session::from_json(&v) {
            Some(s) => Ok(s),
            None => Err(Error::JsonDecodeError(String::from_str("the value is no new-session reply"))),
        },
        Err(e) => Err(e),
    }
}

/// The error object `{"error": code, "message": message}`.
pub open spec fn error_object(code: Seq<char>, message: Seq<char>) -> Json {
    Json::Object(seq![("error"@, Json::Str(code)), ("message"@, Json::Str(message))])
}

proof fn lemma_keys_differ()
    ensures
        "value"@ != "error"@,
        "value"@ != "message"@,
        "stacktrace"@ != "error"@,
        "stacktrace"@ != "message"@,
        "error"@ != "message"@,
        "value"@ != "stacktrace"@,
{
    reveal_strlit("value");
    reveal_strlit("error");
    reveal_strlit("message");
    reveal_strlit("stacktrace");
    assert("value"@[0] != "error"@[0]);
    assert("value"@.len() != "message"@.len());
    assert("stacktrace"@.len() != "error"@.len());
    assert("stacktrace"@.len() != "message"@.len());
    assert("error"@.len() != "message"@.len());
    assert("value"@.len() != "stacktrace"@.len());
}

proof fn lemma_error_object_fields(code: Seq<char>, message: Seq<char>)
    ensures
        get(error_object(code, message), "value"@) is None,
        error_fields(error_object(code, message)) == Some((code, message, None::<Seq<char>>)),
{
    lemma_keys_differ();
    let e = seq![("error"@, Json::Str(code)), ("message"@, Json::Str(message))];
    crate::json::lemma_key_index_is(e, "value"@, 2);
    crate::json::lemma_key_index_is(e, "error"@, 0);
    crate::json::lemma_key_index_is(e, "message"@, 1);
    crate::json::lemma_key_index_is(e, "stacktrace"@, 2);
}

/// Error envelope mapping: a failure response whose body is an error object
/// `{"error": code, "message": message}`, bare or under `value`, is the
/// remote error with that code and message, not a decode error.
pub proof fn lemma_error_envelope(status: u16, code: Seq<char>, message: Seq<char>)
    requires
        !is_success(status),
    ensures
        response_body(status, Some(error_object(code, message))) == Err::<Json, ErrorModel>(
            ErrorModel::WebDriver(code, message, None),
        ),
        response_body(
            status,
            Some(Json::Object(seq![("value"@, error_object(code, message))])),
        ) == Err::<Json, ErrorModel>(ErrorModel::WebDriver(code, message, None)),
{
    lemma_error_object_fields(code, message);
    crate::json::lemma_key_index_is(seq![("value"@, error_object(code, message))], "value"@, 0);
}

/// The success body `{"value": []}`.
pub open spec fn empty_list_body() -> Json {
    Json::Object(seq![("value"@, Json::Array(Seq::empty()))])
}

/// Find versus find-all on no match: the empty list that a search for all
/// matches receives decodes to no elements, while that same list is no
/// element for a search for one match, and the "no such element" error that
/// the remote end gives such a search is handed on as that error.
pub proof fn lemma_find_no_match(status: u16, message: Seq<char>)
    requires
        !is_success(status),
    ensures
        list_in(response_body(200, Some(empty_list_body())), element_reader()) == Ok::<
            Seq<Seq<char>>,
            ErrorModel,
        >(Seq::empty()),
        element_in(response_body(200, Some(empty_list_body()))) == Err::<Seq<char>, ErrorModel>(
            ErrorModel::JsonDecode,
        ),
        element_in(response_body(status, Some(error_object("no such element"@, message))))
            == Err::<Seq<char>, ErrorModel>(
            ErrorModel::WebDriver("no such element"@, message, None),
        ),
{
    lemma_error_object_fields("no such element"@, message);
    crate::json::lemma_key_index_is(seq![("value"@, Json::Array(Seq::<Json>::empty()))], "value"@, 0);
    assert(all_items(Seq::<Json>::empty(), element_reader()) == Some(Seq::<Seq<char>>::empty()));
}

} // verus!
