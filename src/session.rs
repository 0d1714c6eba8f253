//! Sessions, the elements found in them, frame guards and screenshots.
//!
//! A session does not talk to the network itself: each operation builds the
//! request to send, and the decoders of `transport` read the reply.
use vstd::prelude::*;

use crate::error::{outcome, Error, ErrorModel};
use crate::json::{
    entries_of, find_key, items_of, json_str, lemma_entries_of, lemma_items_of, object1, Entries,
    Json, JsonValue,
};
use crate::messages::{
    element_ref_json, execute_json, find_json, new_session_json, str_at, ElementReference,
    Empty, ExecuteCmd, FindElementCmd, GoCmd, LocationStrategy, NewSessionCmd, SwitchFrameCmd,
    SwitchWindowCmd,
};
use crate::transport::{make_request, request_for, session_in, Method, Request, RequestModel};

verus! {

/// The state of a session: its base URL, its id, whether it is deleted on
/// teardown, whether teardown has run, and the negotiated capabilities.
pub struct SessionState {
    pub base: Seq<char>,
    pub id: Seq<char>,
    pub drop_session: bool,
    pub closed: bool,
    pub capabilities: Entries,
}

/// A WebDriver session.
///
/// By default the session is deleted on teardown.
pub struct DriverSession {
    baseurl: String,
    session_id: String,
    drop_session: bool,
    closed: bool,
    capabilities: Vec<(String, JsonValue)>,
}

impl View for DriverSession {
    type V = SessionState;

    closed spec fn view(&self) -> SessionState {
        SessionState {
            base: self.baseurl@,
            id: self.session_id@,
            drop_session: self.drop_session,
            closed: self.closed,
            capabilities: entries_of(self.capabilities@),
        }
    }
}

/// The path of a session-scoped endpoint.
pub open spec fn session_path(id: Seq<char>, suffix: Seq<char>) -> Seq<char> {
    "/session/"@ + id + suffix
}

/// The request of a session-scoped operation.
pub open spec fn session_request(s: SessionState, method: Method, suffix: Seq<char>, body: Option<Json>) -> Result<RequestModel, ErrorModel> {
    request_for(s.base, method, session_path(s.id, suffix), body)
}

/// An empty JSON object.
pub open spec fn empty_object() -> Json {
    Json::Object(Seq::empty())
}

/// Teardown: the next state, and whether the DELETE of the session is sent.
/// It is sent once, and only where the session is to be deleted.
pub open spec fn close_model(s: SessionState) -> (SessionState, bool) {
    (SessionState { closed: true, ..s }, s.drop_session && !s.closed)
}

/// Teardown idempotence: closing a second time sends nothing and changes
/// nothing, so two closes send the DELETE at most once, as one does; a
/// session that is not to be deleted never sends it.
pub proof fn lemma_teardown_idempotent(s: SessionState)
    ensures
        ({
            let (s1, sent1) = close_model(s);
            let (s2, sent2) = close_model(s1);
            &&& s2 == s1
            &&& !sent2
            &&& sent1 == (s.drop_session && !s.closed)
        }),
        !s.drop_session ==> !close_model(s).1 && !close_model(close_model(s).0).1,
{
}

impl DriverSession {
    /// The request that creates a session at the driver with base URL
    /// `base_url`.
    pub fn new_session_request(base_url: &str, params: &NewSessionCmd) -> (r: Result<Request, Error>)
        ensures
            outcome(r) == request_for(
                base_url@,
                Method::Post,
                "/session"@,
                Some(new_session_json(params@)),
            ),
    {
        make_request(base_url, Method::Post, "/session", Some(params.to_json()))
    }

    /// The session that a new-session reply describes; it is deleted on
    /// teardown.
    pub fn create_session(base_url: &str, reply: Result<JsonValue, Error>) -> (r: Result<DriverSession, Error>)
        ensures
            match session_in(outcome(reply)) {
                Ok((id, caps)) => r is Ok && r->Ok_0@ == (SessionState {
                    base: base_url@,
                    id: id,
                    drop_session: true,
                    closed: false,
                    capabilities: caps,
                }),
                Err(e) => r is Err && r->Err_0.deep_view() == e,
            },
    {
        match crate::transport::decode_session(reply) {
            Ok(s) => Ok(
                DriverSession {
                    baseurl: String::from_str(base_url),
                    session_id: s.sessionId,
                    drop_session: true,
                    closed: false,
                    capabilities: s.capabilities,
                },
            ),
            Err(e) => Err(e),
        }
    }

    /// A session with the existing id `session_id`. It is not deleted on
    /// teardown until `attached` confirms it.
    pub fn attach(url: &str, session_id: &str) -> (r: DriverSession)
        ensures
            r@ == (SessionState {
                base: url@,
                id: session_id@,
                drop_session: false,
                closed: false,
                capabilities: Seq::empty(),
            }),
    {
        proof {
            lemma_entries_of(Seq::<(String, JsonValue)>::empty());
        }
        DriverSession {
            baseurl: String::from_str(url),
            session_id: String::from_str(session_id),
            drop_session: false,
            closed: false,
            capabilities: Vec::new(),
        }
    }

    /// Takes the outcome of reading the current URL of an attached session:
    /// on success the session is live and is deleted on teardown; on failure
    /// the error is handed back and nothing changes.
    pub fn attached(&mut self, check: Result<String, Error>) -> (r: Result<(), Error>)
        ensures
            r is Ok <==> check is Ok,
            check is Ok ==> final(self)@ == (SessionState { drop_session: true, ..old(self)@ }),
            check is Err ==> final(self)@ == old(self)@ && r->Err_0.deep_view()
                == check->Err_0.deep_view(),
    {
        match check {
            Ok(_) => {
                self.drop_session = true;
                Ok(())
            },
            Err(e) => Err(e),
        }
    }

    /// The name of the browser, as the capabilities give it.
    pub fn browser_name(&self) -> (r: Option<&str>)
        ensures
            match str_at(Json::Object(self@.capabilities), "browserName"@) {
                Some(n) => r is Some && r->0@ == n,
                None => r is None,
            },
    {
        let key = String::from_str("browserName");
        let i = find_key(&self.capabilities, &key);
        proof {
            lemma_entries_of(self.capabilities@);
        }
        if i < self.capabilities.len() {
            match &self.capabilities[i].1 {
                JsonValue::String(s) => Some(s.as_str()),
                _ => None,
            }
        } else {
            None
        }
    }

    pub fn session_id(&self) -> (r: &str)
        ensures
            r@ == self@.id,
    {
        self.session_id.as_str()
    }

    /// Whether to delete the session on teardown; the default is true.
    pub fn drop_session(&mut self, drop: bool)
        ensures
            final(self)@ == (SessionState { drop_session: drop, ..old(self)@ }),
    {
        self.drop_session = drop;
    }

    /// Teardown: the DELETE of the session, where it is due. It is due once,
    /// and only where the session is to be deleted.
    pub fn close(&mut self) -> (r: Option<Result<Request, Error>>)
        ensures
            final(self)@ == close_model(old(self)@).0,
            r is Some == close_model(old(self)@).1,
            r is Some ==> outcome(r->0) == session_request(old(self)@, Method::Delete, Seq::empty(), None),
    {
        let due = self.drop_session && !self.closed;
        let r = if due {
            let req = self.request(Method::Delete, "", None);
            proof {
                reveal_strlit("");
                assert(""@ =~= Seq::<char>::empty());
            }
            Some(req)
        } else {
            None
        };
        self.closed = true;
        r
    }

    fn request(&self, method: Method, suffix: &str, body: Option<JsonValue>) -> (r: Result<Request, Error>)
        requires
            !self@.closed,
        ensures
            outcome(r) == session_request(self@, method, suffix@, body.deep_view()),
    {
        let mut p = String::from_str("/session/");
        p.append(self.session_id.as_str());
        p.append(suffix);
        make_request(self.baseurl.as_str(), method, p.as_str(), body)
    }

    fn empty_body() -> (r: Option<JsonValue>)
        ensures
            r.deep_view() == Some(empty_object()),
    {
        let e = Empty {  };
        Some(e.to_json())
    }

    /// Navigates to `url`.
    pub fn go(&self, url: &str) -> (r: Result<Request, Error>)
        requires
            !self@.closed,
        ensures
            outcome(r) == session_request(
                self@,
                Method::Post,
                "/url"@,
                Some(Json::Object(seq![("url"@, Json::Str(url@))])),
            ),
    {
        let params = GoCmd { url: String::from_str(url) };
        self.request(Method::Post, "/url", Some(params.to_json()))
    }

    pub fn get_current_url(&self) -> (r: Result<Request, Error>)
        requires
            !self@.closed,
        ensures
            outcome(r) == session_request(self@, Method::Get, "/url"@, None),
    {
        self.request(Method::Get, "/url", None)
    }

    pub fn back(&self) -> (r: Result<Request, Error>)
        requires
            !self@.closed,
        ensures
            outcome(r) == session_request(self@, Method::Post, "/back"@, Some(empty_object())),
    {
        self.request(Method::Post, "/back", Self::empty_body())
    }

    pub fn forward(&self) -> (r: Result<Request, Error>)
        requires
            !self@.closed,
        ensures
            outcome(r) == session_request(self@, Method::Post, "/forward"@, Some(empty_object())),
    {
        self.request(Method::Post, "/forward", Self::empty_body())
    }

    pub fn refresh(&self) -> (r: Result<Request, Error>)
        requires
            !self@.closed,
        ensures
            outcome(r) == session_request(self@, Method::Post, "/refresh"@, Some(empty_object())),
    {
        self.request(Method::Post, "/refresh", Self::empty_body())
    }

    pub fn get_page_source(&self) -> (r: Result<Request, Error>)
        requires
            !self@.closed,
        ensures
            outcome(r) == session_request(self@, Method::Get, "/source"@, None),
    {
        self.request(Method::Get, "/source", None)
    }

    pub fn get_title(&self) -> (r: Result<Request, Error>)
        requires
            !self@.closed,
        ensures
            outcome(r) == session_request(self@, Method::Get, "/title"@, None),
    {
        self.request(Method::Get, "/title", None)
    }

    /// Gets all cookies.
    pub fn get_cookies(&self) -> (r: Result<Request, Error>)
        requires
            !self@.closed,
        ensures
            outcome(r) == session_request(self@, Method::Get, "/cookie"@, None),
    {
        self.request(Method::Get, "/cookie", None)
    }

    pub fn get_window_handle(&self) -> (r: Result<Request, Error>)
        requires
            !self@.closed,
        ensures
            outcome(r) == session_request(self@, Method::Get, "/window"@, None),
    {
        self.request(Method::Get, "/window", None)
    }

    pub fn switch_window(&self, handle: &str) -> (r: Result<Request, Error>)
        requires
            !self@.closed,
        ensures
            outcome(r) == session_request(
                self@,
                Method::Post,
                "/window"@,
                Some(Json::Object(seq![("handle"@, Json::Str(handle@))])),
            ),
    {
        let cmd = SwitchWindowCmd::from(handle);
        self.request(Method::Post, "/window", Some(cmd.to_json()))
    }

    pub fn close_window(&self) -> (r: Result<Request, Error>)
        requires
            !self@.closed,
        ensures
            outcome(r) == session_request(self@, Method::Delete, "/window"@, None),
    {
        self.request(Method::Delete, "/window", None)
    }

    pub fn get_window_handles(&self) -> (r: Result<Request, Error>)
        requires
            !self@.closed,
        ensures
            outcome(r) == session_request(self@, Method::Get, "/window/handles"@, None),
    {
        self.request(Method::Get, "/window/handles", None)
    }

    /// Finds the first element that `selector` matches; a reply that
    /// reports no match is an error.
    pub fn find_element(&self, selector: &str, strategy: LocationStrategy) -> (r: Result<Request, Error>)
        requires
            !self@.closed,
        ensures
            outcome(r) == session_request(
                self@,
                Method::Post,
                "/element"@,
                Some(find_json(strategy, selector@)),
            ),
    {
        let cmd = FindElementCmd { using: strategy, value: selector };
        self.request(Method::Post, "/element", Some(cmd.to_json()))
    }

    /// Finds all elements that `selector` matches; none is an empty list.
    pub fn find_elements(&self, selector: &str, strategy: LocationStrategy) -> (r: Result<Request, Error>)
        requires
            !self@.closed,
        ensures
            outcome(r) == session_request(
                self@,
                Method::Post,
                "/elements"@,
                Some(find_json(strategy, selector@)),
            ),
    {
        let cmd = FindElementCmd { using: strategy, value: selector };
        self.request(Method::Post, "/elements", Some(cmd.to_json()))
    }

    pub fn execute(&self, script: ExecuteCmd) -> (r: Result<Request, Error>)
        requires
            !self@.closed,
        ensures
            outcome(r) == session_request(
                self@,
                Method::Post,
                "/execute/sync"@,
                Some(execute_json(script.script@, items_of(script.args@))),
            ),
    {
        self.request(Method::Post, "/execute/sync", Some(script.into_json()))
    }

    pub fn execute_async(&self, script: ExecuteCmd) -> (r: Result<Request, Error>)
        requires
            !self@.closed,
        ensures
            outcome(r) == session_request(
                self@,
                Method::Post,
                "/execute/async"@,
                Some(execute_json(script.script@, items_of(script.args@))),
            ),
    {
        self.request(Method::Post, "/execute/async", Some(script.into_json()))
    }

    /// Valid values are element references as returned by
    /// `Element::reference`, or null to switch to the top level frame.
    pub fn switch_to_frame(&self, handle: JsonValue) -> (r: Result<Request, Error>)
        requires
            !self@.closed,
        ensures
            outcome(r) == session_request(
                self@,
                Method::Post,
                "/frame"@,
                Some(Json::Object(seq![("id"@, handle@)])),
            ),
    {
        let cmd = SwitchFrameCmd::from(handle);
        self.request(Method::Post, "/frame", Some(cmd.to_json()))
    }

    pub fn switch_to_parent_frame(&self) -> (r: Result<Request, Error>)
        requires
            !self@.closed,
        ensures
            outcome(r) == session_request(
                self@,
                Method::Post,
                "/frame/parent"@,
                Some(empty_object()),
            ),
    {
        self.request(Method::Post, "/frame/parent", Self::empty_body())
    }

    /// Takes a screenshot of the current frame.
    pub fn screenshot(&self) -> (r: Result<Request, Error>)
        requires
            !self@.closed,
        ensures
            outcome(r) == session_request(self@, Method::Get, "/screenshot"@, None),
    {
        self.request(Method::Get, "/screenshot", None)
    }
}

/// The state of an element: the session it belongs to and its reference.
pub struct ElementState {
    pub session: SessionState,
    pub reference: Seq<char>,
}

/// The path of an endpoint of element `reference`.
pub open spec fn element_suffix(reference: Seq<char>, suffix: Seq<char>) -> Seq<char> {
    "/element/"@ + reference + suffix
}

/// The request of an element-scoped operation.
pub open spec fn element_request(e: ElementState, method: Method, suffix: Seq<char>, body: Option<Json>) -> Result<RequestModel, ErrorModel> {
    session_request(e.session, method, element_suffix(e.reference, suffix), body)
}

/// The request that runs `script` with this element as its sole argument.
pub open spec fn element_script_request(e: ElementState, script: Seq<char>) -> Result<RequestModel, ErrorModel> {
    session_request(
        e.session,
        Method::Post,
        "/execute/sync"@,
        Some(execute_json(script, seq![element_ref_json(e.reference)])),
    )
}

/// An HTML element within a WebDriver session.
pub struct Element<'a> {
    session: &'a DriverSession,
    reference: String,
}

impl<'a> View for Element<'a> {
    type V = ElementState;

    closed spec fn view(&self) -> ElementState {
        ElementState { session: self.session@, reference: self.reference@ }
    }
}

impl<'a> Element<'a> {
    pub fn new(s: &'a DriverSession, reference: String) -> (r: Self)
        requires
            !s@.closed,
        ensures
            r@ == (ElementState { session: s@, reference: reference@ }),
    {
        Element { session: s, reference: reference }
    }

    fn request(&self, method: Method, suffix: &str, name: &str, body: Option<JsonValue>) -> (r: Result<Request, Error>)
        requires
            !self@.session.closed,
        ensures
            outcome(r) == element_request(self@, method, suffix@ + name@, body.deep_view()),
    {
        let mut p = String::from_str("/element/");
        p.append(self.reference.as_str());
        p.append(suffix);
        p.append(name);
        let r = self.session.request(method, p.as_str(), body);
        proof {
            assert(session_path(self@.session.id, p@) =~= session_path(
                self@.session.id,
                element_suffix(self@.reference, suffix@ + name@),
            ));
        }
        r
    }

    pub fn attribute(&self, name: &str) -> (r: Result<Request, Error>)
        requires
            !self@.session.closed,
        ensures
            outcome(r) == element_request(self@, Method::Get, "/attribute/"@ + name@, None),
    {
        self.request(Method::Get, "/attribute/", name, None)
    }

    /// Returns this element's property value.
    pub fn property(&self, name: &str) -> (r: Result<Request, Error>)
        requires
            !self@.session.closed,
        ensures
            outcome(r) == element_request(self@, Method::Get, "/property/"@ + name@, None),
    {
        self.request(Method::Get, "/property/", name, None)
    }

    /// Clicks this element.
    pub fn click(&self) -> (r: Result<Request, Error>)
        requires
            !self@.session.closed,
        ensures
            outcome(r) == element_request(self@, Method::Post, "/click"@, Some(empty_object())),
    {
        let r = self.request(Method::Post, "/click", "", DriverSession::empty_body());
        proof {
            reveal_strlit("");
            assert("/click"@ + ""@ =~= "/click"@);
        }
        r
    }

    /// Clears the text of this element.
    pub fn clear(&self) -> (r: Result<Request, Error>)
        requires
            !self@.session.closed,
        ensures
            outcome(r) == element_request(self@, Method::Post, "/clear"@, Some(empty_object())),
    {
        let r = self.request(Method::Post, "/clear", "", DriverSession::empty_body());
        proof {
            reveal_strlit("");
            assert("/clear"@ + ""@ =~= "/clear"@);
        }
        r
    }

    /// Sends key presses to this element.
    pub fn send_keys(&self, s: &str) -> (r: Result<Request, Error>)
        requires
            !self@.session.closed,
        ensures
            outcome(r) == element_request(
                self@,
                Method::Post,
                "/value"@,
                Some(Json::Object(seq![("text"@, Json::Str(s@))])),
            ),
    {
        let r = self.request(Method::Post, "/value", "", Some(object1("text", json_str(s))));
        proof {
            reveal_strlit("");
            assert("/value"@ + ""@ =~= "/value"@);
        }
        r
    }

    pub fn css_value(&self, name: &str) -> (r: Result<Request, Error>)
        requires
            !self@.session.closed,
        ensures
            outcome(r) == element_request(self@, Method::Get, "/css/"@ + name@, None),
    {
        self.request(Method::Get, "/css/", name, None)
    }

    pub fn text(&self) -> (r: Result<Request, Error>)
        requires
            !self@.session.closed,
        ensures
            outcome(r) == element_request(self@, Method::Get, "/text"@, None),
    {
        let r = self.request(Method::Get, "/text", "", None);
        proof {
            reveal_strlit("");
            assert("/text"@ + ""@ =~= "/text"@);
        }
        r
    }

    /// The tag name of this element.
    pub fn name(&self) -> (r: Result<Request, Error>)
        requires
            !self@.session.closed,
        ensures
            outcome(r) == element_request(self@, Method::Get, "/name"@, None),
    {
        let r = self.request(Method::Get, "/name", "", None);
        proof {
            reveal_strlit("");
            assert("/name"@ + ""@ =~= "/name"@);
        }
        r
    }

    /// Finds the first descendant that `selector` matches.
    pub fn find_element(&self, selector: &str, strategy: LocationStrategy) -> (r: Result<Request, Error>)
        requires
            !self@.session.closed,
        ensures
            outcome(r) == element_request(
                self@,
                Method::Post,
                "/element"@,
                Some(find_json(strategy, selector@)),
            ),
    {
        let cmd = FindElementCmd { using: strategy, value: selector };
        let r = self.request(Method::Post, "/element", "", Some(cmd.to_json()));
        proof {
            reveal_strlit("");
            assert("/element"@ + ""@ =~= "/element"@);
        }
        r
    }

    /// Finds all descendants that `selector` matches.
    pub fn find_elements(&self, selector: &str, strategy: LocationStrategy) -> (r: Result<Request, Error>)
        requires
            !self@.session.closed,
        ensures
            outcome(r) == element_request(
                self@,
                Method::Post,
                "/elements"@,
                Some(find_json(strategy, selector@)),
            ),
    {
        let cmd = FindElementCmd { using: strategy, value: selector };
        let r = self.request(Method::Post, "/elements", "", Some(cmd.to_json()));
        proof {
            reveal_strlit("");
            assert("/elements"@ + ""@ =~= "/elements"@);
        }
        r
    }

    /// A reference to this element that can be passed on to the API.
    pub fn reference(&self) -> (r: Result<JsonValue, Error>)
        ensures
            r is Ok && r->Ok_0@ == element_ref_json(self@.reference),
    {
        Ok(ElementReference::from_str(self.reference.as_str()).to_json())
    }

    /// The raw reference id of this element, as `Element::new` takes it.
    pub fn raw_reference(&self) -> (r: &str)
        ensures
            r@ == self@.reference,
    {
        self.reference.as_str()
    }

    fn script_request(&self, script: &str) -> (r: Result<Request, Error>)
        requires
            !self@.session.closed,
        ensures
            outcome(r) == element_script_request(self@, script@),
    {
        let mut args: Vec<JsonValue> = Vec::new();
        args.push(ElementReference::from_str(self.reference.as_str()).to_json());
        proof {
            lemma_items_of(args@);
            assert(items_of(args@) =~= seq![element_ref_json(self@.reference)]);
        }
        self.session.execute(ExecuteCmd { script: String::from_str(script), args: args })
    }

    /// The `innerHTML` of this element, read by running a script: not every
    /// driver gives it as an attribute.
    pub fn inner_html(&self) -> (r: Result<Request, Error>)
        requires
            !self@.session.closed,
        ensures
            outcome(r) == element_script_request(self@, "return arguments[0].innerHTML;"@),
    {
        self.script_request("return arguments[0].innerHTML;")
    }

    /// The `outerHTML` of this element, read by running a script.
    pub fn outer_html(&self) -> (r: Result<Request, Error>)
        requires
            !self@.session.closed,
        ensures
            outcome(r) == element_script_request(self@, "return arguments[0].outerHTML;"@),
    {
        self.script_request("return arguments[0].outerHTML;")
    }

    /// Takes a screenshot of this element.
    pub fn screenshot(&self) -> (r: Result<Request, Error>)
        requires
            !self@.session.closed,
        ensures
            outcome(r) == element_request(self@, Method::Get, "/screenshot"@, None),
    {
        let r = self.request(Method::Get, "/screenshot", "", None);
        proof {
            reveal_strlit("");
            assert("/screenshot"@ + ""@ =~= "/screenshot"@);
        }
        r
    }
}

/// A guard over a switch into a frame. Leaving it switches the session back
/// to the top level.
pub struct FrameContext<'a> {
    session: &'a DriverSession,
}

impl<'a> FrameContext<'a> {
    /// The request that enters frame `frameref`.
    pub fn enter(session: &'a DriverSession, frameref: JsonValue) -> (r: Result<Request, Error>)
        requires
            !session@.closed,
        ensures
            outcome(r) == session_request(
                session@,
                Method::Post,
                "/frame"@,
                Some(Json::Object(seq![("id"@, frameref@)])),
            ),
    {
        session.switch_to_frame(frameref)
    }

    /// The guard, once the switch has succeeded; a failed switch gives no
    /// guard and hands its error back.
    pub fn new(session: &'a DriverSession, switched: Result<(), Error>) -> (r: Result<FrameContext<'a>, Error>)
        requires
            !session@.closed,
        ensures
            r is Ok <==> switched is Ok,
            r is Ok ==> r->Ok_0.session()@ == session@,
            r is Err ==> r->Err_0.deep_view() == switched->Err_0.deep_view(),
    {
        match switched {
            Ok(()) => Ok(FrameContext { session: session }),
            Err(e) => Err(e),
        }
    }

    pub closed spec fn session(&self) -> DriverSession {
        *self.session
    }

    /// The request that leaves the frame: a switch to the top level.
    pub fn leave(&self) -> (r: Result<Request, Error>)
        requires
            !self.session()@.closed,
        ensures
            outcome(r) == session_request(
                self.session()@,
                Method::Post,
                "/frame"@,
                Some(Json::Object(seq![("id"@, Json::Null)])),
            ),
    {
        self.session.switch_to_frame(JsonValue::Null)
    }
}

/// What base64 text decodes to, where it is valid.
pub uninterp spec fn base64_decoded(s: Seq<char>) -> Option<Seq<u8>>;

/// Relies on `base64::decode` (standard alphabet, padded): the bytes that
/// `s` encodes, or the text of the decode error where `s` is no valid
/// encoding.
#[verifier::external_body]
fn decode_base64(s: &str) -> (r: Result<Vec<u8>, String>)
    ensures
        r is Ok <==> base64_decoded(s@) is Some,
        r is Ok ==> r->Ok_0@ == base64_decoded(s@)->0,
{
    base64::decode(s).map_err(|e| e.to_string())
}

/// A screenshot as the remote end sends it: base64 text, decoded on demand.
pub struct Screenshot {
    base64: String,
}

impl Screenshot {
    pub fn from_string(s: String) -> (r: Result<Screenshot, Error>)
        ensures
            r is Ok && r->Ok_0.text() == s@,
    {
        Ok(Screenshot { base64: s })
    }

    /// The base64 text of this screenshot.
    pub closed spec fn text(&self) -> Seq<char> {
        self.base64@
    }

    /// The image bytes.
    pub fn bytes(&self) -> (r: Result<Vec<u8>, Error>)
        ensures
            match base64_decoded(self.text()) {
                Some(b) => r is Ok && r->Ok_0@ == b,
                None => r is Err && r->Err_0.deep_view() == ErrorModel::Base64Decode,
            },
    {
        match decode_base64(self.base64.as_str()) {
            Ok(b) => Ok(b),
            Err(detail) => Err(Error::Base64DecodeError(detail)),
        }
    }
}

/// A driver at a WebDriver HTTP URL that already runs.
pub struct HttpDriver {
    url: String,
}

impl HttpDriver {
    /// The URL used to connect to this driver.
    pub fn url(&self) -> (r: &str)
        ensures
            r@ == self.url_view(),
    {
        self.url.as_str()
    }

    pub closed spec fn url_view(&self) -> Seq<char> {
        self.url@
    }
}

/// Builds an `HttpDriver`.
pub struct HttpDriverBuilder {
    url: Option<String>,
}

impl HttpDriverBuilder {
    pub fn default() -> (r: HttpDriverBuilder)
        ensures
            r.url_view() is None,
    {
        HttpDriverBuilder { url: None }
    }

    pub closed spec fn url_view(&self) -> Option<Seq<char>> {
        match self.url {
            Some(u) => Some(u@),
            None => None,
        }
    }

    pub fn url(&mut self, url: &str) -> (r: &mut Self)
        ensures
            (*r).url_view() == Some(url@),
            *final(self) == *final(r),
    {
        self.url = Some(String::from_str(url));
        self
    }

    /// The driver; the URL must have been set.
    pub fn build(&self) -> (r: Result<HttpDriver, String>)
        ensures
            match self.url_view() {
                Some(u) => r is Ok && r->Ok_0.url_view() == u,
                None => r is Err && r->Err_0@ == "`url` must be initialized"@,
            },
    {
        match &self.url {
            Some(u) => Ok(HttpDriver { url: u.clone() }),
            None => Err(String::from_str("`url` must be initialized")),
        }
    }
}

} // verus!
