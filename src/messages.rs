//! Messages sent and received in the WebDriver protocol.
use vstd::prelude::*;

use crate::json::{
    as_bool, as_string, get, get_key, json_array, json_str, merge_json_mut, merged,
    object1, object2, well_formed, Entries, Json, JsonValue,
};

verus! {

/// How an element is located.
#[derive(Clone, Copy, Debug, PartialEq, Eq)]
pub enum LocationStrategy {
    Css,
    LinkText,
    PartialLinkText,
    XPath,
}

/// The name of a strategy on the wire.
pub open spec fn strategy_name(s: LocationStrategy) -> Seq<char> {
    match s {
        LocationStrategy::Css => "css selector"@,
        LocationStrategy::LinkText => "link text"@,
        LocationStrategy::PartialLinkText => "partial link text"@,
        LocationStrategy::XPath => "xpath"@,
    }
}

impl LocationStrategy {
    /// The name of this strategy on the wire.
    pub fn wire_name(&self) -> (r: &'static str)
        ensures
            r@ == strategy_name(*self),
    {
        match self {
            LocationStrategy::Css => "css selector",
            LocationStrategy::LinkText => "link text",
            LocationStrategy::PartialLinkText => "partial link text",
            LocationStrategy::XPath => "xpath",
        }
    }

    /// The strategy as a JSON string.
    pub fn to_json(&self) -> (r: JsonValue)
        ensures
            r@ == Json::Str(strategy_name(*self)),
    {
        json_str(self.wire_name())
    }
}

/// An error reported by the remote end.
#[derive(Debug)]
pub struct WebDriverError {
    pub error: String,
    pub message: String,
    pub stacktrace: Option<String>,
}

impl DeepView for WebDriverError {
    type V = (Seq<char>, Seq<char>, Option<Seq<char>>);

    open spec fn deep_view(&self) -> Self::V {
        (self.error@, self.message@, self.stacktrace.deep_view())
    }
}

/// The string under key `k`, if the value has one there.
pub open spec fn str_at(j: Json, k: Seq<char>) -> Option<Seq<char>> {
    match get(j, k) {
        Some(Json::Str(s)) => Some(s),
        _ => None,
    }
}

/// An optional string under key `k`: missing or null is `Some(None)`, a
/// string is `Some(Some(s))`, and any other value is `None` (malformed).
pub open spec fn optional_str_at(j: Json, k: Seq<char>) -> Option<Option<Seq<char>>> {
    match get(j, k) {
        None => Some(None),
        Some(Json::Null) => Some(None),
        Some(Json::Str(s)) => Some(Some(s)),
        _ => None,
    }
}

/// The fields of an error object `{error: string, message: string,
/// stacktrace?: string}`; a stack trace that is neither missing, null nor a
/// string makes it no error object.
pub open spec fn error_fields(j: Json) -> Option<(Seq<char>, Seq<char>, Option<Seq<char>>)> {
    match (str_at(j, "error"@), str_at(j, "message"@), optional_str_at(j, "stacktrace"@)) {
        (Some(e), Some(m), Some(st)) => Some((e, m, st)),
        _ => None,
    }
}

/// The error that a failure body reports: the error object under `value`,
/// or the body itself as one.
pub open spec fn envelope_of(j: Json) -> Option<(Seq<char>, Seq<char>, Option<Seq<char>>)> {
    match get(j, "value"@) {
        Some(inner) => match error_fields(inner) {
            Some(f) => Some(f),
            None => error_fields(j),
        },
        None => error_fields(j),
    }
}

/// The string under key `k` of an object.
fn string_at(v: &JsonValue, k: &str) -> (r: Option<String>)
    ensures
        match str_at(v@, k@) {
            Some(s) => r is Some && r->0@ == s,
            None => r is None,
        },
{
    match get_key(v, k) {
        Some(x) => as_string(x),
        None => None,
    }
}

/// The optional string under key `k` of an object.
fn optional_string_at(v: &JsonValue, k: &str) -> (r: Option<Option<String>>)
    ensures
        match optional_str_at(v@, k@) {
            Some(Some(s)) => r is Some && r->0 is Some && r->0->0@ == s,
            Some(None) => r == Some(None::<String>),
            None => r is None,
        },
{
    match get_key(v, k) {
        None => Some(None),
        Some(JsonValue::Null) => Some(None),
        Some(JsonValue::String(s)) => Some(Some(s.clone())),
        Some(_) => None,
    }
}

fn error_from_fields(v: &JsonValue) -> (r: Option<WebDriverError>)
    ensures
        match error_fields(v@) {
            Some(f) => r is Some && r->0.deep_view() == f,
            None => r is None,
        },
{
    let error = string_at(v, "error");
    let message = string_at(v, "message");
    let stacktrace = optional_string_at(v, "stacktrace");
    match (error, message, stacktrace) {
        (Some(e), Some(m), Some(st)) => Some(WebDriverError { error: e, message: m, stacktrace: st }),
        _ => None,
    }
}

impl WebDriverError {
    /// Reads the error that a failure body reports.
    pub fn from_json(v: &JsonValue) -> (r: Option<WebDriverError>)
        ensures
            match envelope_of(v@) {
                Some(f) => r is Some && r->0.deep_view() == f,
                None => r is None,
            },
    {
        match get_key(v, "value") {
            Some(inner) => match error_from_fields(inner) {
                Some(e) => Some(e),
                None => error_from_fields(v),
            },
            None => error_from_fields(v),
        }
    }
}

/// The key of an element reference in the W3C protocol.
pub open spec fn w3c_key() -> Seq<char> {
    "element-6066-11e4-a52e-4f735466cecf"@
}

/// The key of an element reference that older drivers read.
pub open spec fn legacy_key() -> Seq<char> {
    "ELEMENT"@
}

/// The encoding of element reference `r`: both keys, each with `r`.
pub open spec fn element_ref_json(r: Seq<char>) -> Json {
    Json::Object(seq![(w3c_key(), Json::Str(r)), (legacy_key(), Json::Str(r))])
}

/// The reference that a JSON value encodes: the W3C key is read first,
/// the legacy key otherwise.
pub open spec fn element_ref_of(j: Json) -> Option<Seq<char>> {
    match str_at(j, w3c_key()) {
        Some(r) => Some(r),
        None => str_at(j, legacy_key()),
    }
}

/// An opaque reference to an element, as the remote end gave it.
#[derive(Debug)]
pub struct ElementReference {
    pub reference: String,
}

impl DeepView for ElementReference {
    type V = Seq<char>;

    open spec fn deep_view(&self) -> Seq<char> {
        self.reference@
    }
}

impl ElementReference {
    pub fn from_str(handle: &str) -> (r: ElementReference)
        ensures
            r.reference@ == handle@,
    {
        ElementReference { reference: String::from_str(handle) }
    }

    /// The wire encoding of this reference.
    pub fn to_json(&self) -> (r: JsonValue)
        ensures
            r@ == element_ref_json(self.reference@),
    {
        object2(
            "element-6066-11e4-a52e-4f735466cecf",
            json_str(self.reference.as_str()),
            "ELEMENT",
            json_str(self.reference.as_str()),
        )
    }

    /// Reads a reference from its wire encoding, under either key.
    pub fn from_json(v: &JsonValue) -> (r: Option<ElementReference>)
        ensures
            match element_ref_of(v@) {
                Some(s) => r is Some && r->0.reference@ == s,
                None => r is None,
            },
    {
        match string_at(v, "element-6066-11e4-a52e-4f735466cecf") {
            Some(s) => Some(ElementReference { reference: s }),
            None => match string_at(v, "ELEMENT") {
                Some(s) => Some(ElementReference { reference: s }),
                None => None,
            },
        }
    }
}

/// Element reference round trip: decoding the encoding of any reference
/// gives that reference back, and so does an object that holds it under the
/// legacy key alone.
pub proof fn lemma_element_reference_round_trip(r: Seq<char>)
    ensures
        element_ref_of(element_ref_json(r)) == Some(r),
        element_ref_of(Json::Object(seq![(legacy_key(), Json::Str(r))])) == Some(r),
{
    reveal_strlit("element-6066-11e4-a52e-4f735466cecf");
    reveal_strlit("ELEMENT");
    let e = seq![(w3c_key(), Json::Str(r)), (legacy_key(), Json::Str(r))];
    assert(w3c_key() != legacy_key()) by {
        assert(w3c_key().len() != legacy_key().len());
    }
    crate::json::lemma_key_index_is(e, w3c_key(), 0);
    let l = seq![(legacy_key(), Json::Str(r))];
    crate::json::lemma_key_index_is(l, w3c_key(), 1);
    crate::json::lemma_key_index_is(l, legacy_key(), 0);
}

/// The arguments to create a new session: the `alwaysMatch` capabilities.
pub struct NewSessionCmd {
    always_match: JsonValue,
}

impl View for NewSessionCmd {
    type V = Json;

    /// The `alwaysMatch` object.
    closed spec fn view(&self) -> Json {
        self.always_match@
    }
}

/// `{"goog:chromeOptions": {"w3c": true}}`: asks chromedriver to speak the
/// W3C protocol.
pub open spec fn default_capabilities() -> Json {
    Json::Object(seq![("goog:chromeOptions"@, Json::Object(seq![("w3c"@, Json::Bool(true))]))])
}

/// The body of a new-session request with `alwaysMatch` capabilities `caps`.
pub open spec fn new_session_json(caps: Json) -> Json {
    Json::Object(seq![("capabilities"@, Json::Object(seq![("alwaysMatch"@, caps)]))])
}

/// The entries of `e` with key `k` set to `v`: an existing first entry for
/// `k` is replaced, otherwise the entry is appended.
pub open spec fn set_entry(e: Entries, k: Seq<char>, v: Json) -> Entries {
    let i = crate::json::key_index(e, k);
    if i < e.len() {
        e.update(i, (k, v))
    } else {
        e.push((k, v))
    }
}

/// The entries of an object; none for another value.
pub open spec fn entries_or_empty(j: Json) -> Entries {
    match j {
        Json::Object(e) => e,
        _ => Seq::empty(),
    }
}

/// The entries of `e` without the first entry for `k`.
pub open spec fn remove_entry(e: Entries, k: Seq<char>) -> Entries {
    let i = crate::json::key_index(e, k);
    if i < e.len() {
        e.remove(i)
    } else {
        e
    }
}

/// Setting an entry of well-formed entries to a well-formed value keeps
/// them well formed.
pub proof fn lemma_set_entry_well_formed(e: Entries, k: Seq<char>, v: Json)
    requires
        crate::json::entries_well_formed(e),
        well_formed(v),
    ensures
        crate::json::entries_well_formed(set_entry(e, k, v)),
{
    crate::json::lemma_key_index(e, k);
    let r = set_entry(e, k, v);
    if crate::json::key_index(e, k) < e.len() {
        assert(forall|j: int| 0 <= j < r.len() ==> (#[trigger] r[j]).0 == e[j].0);
    } else {
        assert(forall|j: int| 0 <= j < e.len() ==> (#[trigger] r[j]) == e[j]);
    }
}

/// Removing an entry from well-formed entries keeps them well formed.
pub proof fn lemma_remove_entry_well_formed(e: Entries, k: Seq<char>)
    requires
        crate::json::entries_well_formed(e),
    ensures
        crate::json::entries_well_formed(remove_entry(e, k)),
{
    let i = crate::json::key_index(e, k);
    crate::json::lemma_key_index(e, k);
    let r = remove_entry(e, k);
    if i < e.len() {
        assert(forall|j: int| 0 <= j < r.len() ==> #[trigger] r[j] == if j < i { e[j] } else { e[j + 1] });
    }
}

impl NewSessionCmd {
    pub fn default() -> (r: NewSessionCmd)
        ensures
            r@ == default_capabilities(),
            well_formed(r@),
    {
        NewSessionCmd {
            always_match: object1("goog:chromeOptions", object1("w3c", JsonValue::Bool(true))),
        }
    }

    /// Sets the `alwaysMatch` capability `key` to `value`, replacing what it
    /// held; `None` removes it.
    pub fn always_match(&mut self, key: &str, value: Option<JsonValue>) -> (r: &mut Self)
        ensures
            (*r)@ == Json::Object(
                match value {
                    Some(v) => set_entry(entries_or_empty(old(self)@), key@, v@),
                    None => remove_entry(entries_or_empty(old(self)@), key@),
                },
            ),
            well_formed(old(self)@) && match value {
                Some(v) => well_formed(v@),
                None => true,
            } ==> well_formed((*r)@),
            *final(self) == *final(r),
    {
        let ghost vm = value.deep_view();
        let ghost old_m = self.always_match@;
        let mut cur = JsonValue::Null;
        std::mem::swap(&mut self.always_match, &mut cur);
        let mut e = match cur {
            JsonValue::Object(e) => e,
            _ => Vec::new(),
        };
        let ghost em = crate::json::entries_of(e@);
        proof {
            crate::json::lemma_entries_of(e@);
            crate::json::lemma_entries_of(Seq::<(String, JsonValue)>::empty());
        }
        let k = String::from_str(key);
        let i = crate::json::find_key(&e, &k);
        match value {
            Some(v) => {
                if i < e.len() {
                    e.remove(i);
                    e.insert(i, (k, v));
                } else {
                    e.push((k, v));
                }
                proof {
                    crate::json::lemma_entries_of(e@);
                    assert(crate::json::entries_of(e@) =~= set_entry(em, key@, vm->0));
                }
            },
            None => {
                if i < e.len() {
                    e.remove(i);
                }
                proof {
                    crate::json::lemma_entries_of(e@);
                    assert(crate::json::entries_of(e@) =~= remove_entry(em, key@));
                }
            },
        }
        self.always_match = JsonValue::Object(e);
        proof {
            if well_formed(old_m) && match vm {
                Some(v) => well_formed(v),
                None => true,
            } {
                let ee = entries_or_empty(old_m);
                crate::json::lemma_values_well_formed(ee);
                match vm {
                    Some(v) => {
                        lemma_set_entry_well_formed(ee, key@, v);
                        crate::json::lemma_values_well_formed(set_entry(ee, key@, v));
                    },
                    None => {
                        lemma_remove_entry_well_formed(ee, key@);
                        crate::json::lemma_values_well_formed(remove_entry(ee, key@));
                    },
                }
            }
        }
        self
    }

    /// Merges `value` into the `alwaysMatch` capability `key`, by the
    /// recursive merge of `merge_json`.
    pub fn extend_always_match(&mut self, key: &str, value: JsonValue) -> (r: &mut Self)
        ensures
            (*r)@ == merged(old(self)@, Json::Object(seq![(key@, value@)])),
            well_formed(old(self)@) && well_formed(value@) ==> well_formed((*r)@),
            *final(self) == *final(r),
    {
        let b = object1(key, value);
        merge_json_mut(&mut self.always_match, &b);
        self
    }

    /// Resets the `alwaysMatch` capabilities to an empty object.
    pub fn reset_always_match(&mut self) -> (r: &mut Self)
        ensures
            (*r)@ == Json::Object(Seq::empty()),
            well_formed((*r)@),
            *final(self) == *final(r),
    {
        self.always_match = JsonValue::Object(Vec::new());
        proof {
            crate::json::lemma_entries_of(Seq::<(String, JsonValue)>::empty());
            crate::json::lemma_values_well_formed(Seq::empty());
        }
        self
    }

    /// The `alwaysMatch` capability `key`.
    pub fn get_always_match(&self, key: &str) -> (r: Option<JsonValue>)
        ensures
            r is Some <==> get(self@, key@) is Some,
            r is Some ==> r->0@ == get(self@, key@)->0,
    {
        match get_key(&self.always_match, key) {
            Some(v) => Some(v.deep_clone()),
            None => None,
        }
    }

    /// The body of the new-session request.
    pub fn to_json(&self) -> (r: JsonValue)
        ensures
            r@ == new_session_json(self@),
    {
        object1("capabilities", object1("alwaysMatch", self.always_match.deep_clone()))
    }
}

/// The reply to a new-session request.
#[allow(non_snake_case)]
pub struct Session {
    pub sessionId: String,
    pub capabilities: Vec<(String, JsonValue)>,
}

/// The session id and the capabilities that a new-session reply holds; the
/// id may not be empty.
pub open spec fn session_of(j: Json) -> Option<(Seq<char>, Entries)> {
    match (str_at(j, "sessionId"@), get(j, "capabilities"@)) {
        (Some(id), Some(Json::Object(caps))) => if id.len() > 0 {
            Some((id, caps))
        } else {
            None
        },
        _ => None,
    }
}

impl DeepView for Session {
    type V = (Seq<char>, Entries);

    open spec fn deep_view(&self) -> Self::V {
        (self.sessionId@, crate::json::entries_of(self.capabilities@))
    }
}

impl Session {
    pub fn from_json(v: &JsonValue) -> (r: Option<Session>)
        ensures
            match session_of(v@) {
                Some((id, caps)) => r is Some && r->0.sessionId@ == id
                    && crate::json::entries_of(r->0.capabilities@) == caps,
                None => r is None,
            },
    {
        let id = string_at(v, "sessionId");
        let caps = get_key(v, "capabilities");
        match (id, caps) {
            (Some(id), Some(c)) => {
                if id.as_str().is_empty() {
                    return None;
                }
                match c.deep_clone() {
                    JsonValue::Object(e) => Some(Session { sessionId: id, capabilities: e }),
                    _ => None,
                }
            },
            _ => None,
        }
    }
}

/// The body of a navigation request.
pub struct GoCmd {
    pub url: String,
}

impl GoCmd {
    pub fn to_json(&self) -> (r: JsonValue)
        ensures
            r@ == Json::Object(seq![("url"@, Json::Str(self.url@))]),
    {
        object1("url", json_str(self.url.as_str()))
    }
}

/// A response that carries its payload under `value`.
pub struct Value<T> {
    pub value: T,
}

pub struct CurrentTitle {
    pub title: String,
}

/// The body of a request to switch frames; a null id is the top level.
pub struct SwitchFrameCmd {
    pub id: JsonValue,
}

impl SwitchFrameCmd {
    pub fn from(id: JsonValue) -> (r: SwitchFrameCmd)
        ensures
            r.id@ == id@,
    {
        SwitchFrameCmd { id: id }
    }

    pub fn to_json(&self) -> (r: JsonValue)
        ensures
            r@ == Json::Object(seq![("id"@, self.id@)]),
    {
        object1("id", self.id.deep_clone())
    }
}

/// The body of a request to switch windows.
pub struct SwitchWindowCmd {
    handle: String,
}

impl SwitchWindowCmd {
    pub fn from(handle: &str) -> (r: SwitchWindowCmd)
        ensures
            r.handle() == handle@,
    {
        SwitchWindowCmd { handle: String::from_str(handle) }
    }

    pub closed spec fn handle(&self) -> Seq<char> {
        self.handle@
    }

    pub fn to_json(&self) -> (r: JsonValue)
        ensures
            r@ == Json::Object(seq![("handle"@, Json::Str(self.handle()))]),
    {
        object1("handle", json_str(self.handle.as_str()))
    }
}

/// An empty object.
pub struct Empty {}

impl Empty {
    pub fn to_json(&self) -> (r: JsonValue)
        ensures
            r@ == Json::Object(Seq::empty()),
    {
        proof {
            crate::json::lemma_entries_of(Seq::<(String, JsonValue)>::empty());
        }
        JsonValue::Object(Vec::new())
    }
}

/// The body of a request to find elements.
pub struct FindElementCmd<'a> {
    pub using: LocationStrategy,
    pub value: &'a str,
}

/// The body of a request to find elements with strategy `s` and selector `v`.
pub open spec fn find_json(s: LocationStrategy, v: Seq<char>) -> Json {
    Json::Object(seq![("using"@, Json::Str(strategy_name(s))), ("value"@, Json::Str(v))])
}

impl<'a> FindElementCmd<'a> {
    pub fn to_json(&self) -> (r: JsonValue)
        ensures
            r@ == find_json(self.using, self.value@),
    {
        object2("using", self.using.to_json(), "value", json_str(self.value))
    }
}

/// The body of a request to run a script.
pub struct ExecuteCmd {
    pub script: String,
    pub args: Vec<JsonValue>,
}

/// The body of a request to run script `s` with arguments `args`.
pub open spec fn execute_json(s: Seq<char>, args: Seq<Json>) -> Json {
    Json::Object(seq![("script"@, Json::Str(s)), ("args"@, Json::Array(args))])
}

impl ExecuteCmd {
    pub fn into_json(self) -> (r: JsonValue)
        ensures
            r@ == execute_json(self.script@, crate::json::items_of(self.args@)),
    {
        object2("script", json_str(self.script.as_str()), "args", json_array(self.args))
    }
}

/// A cookie of the current page.
#[allow(non_snake_case)]
pub struct Cookie {
    pub name: String,
    pub value: String,
    pub path: String,
    pub domain: String,
    pub secure: bool,
    pub httpOnly: bool,
}

impl DeepView for Cookie {
    type V = (Seq<char>, Seq<char>, Seq<char>, Seq<char>, bool, bool);

    open spec fn deep_view(&self) -> Self::V {
        (self.name@, self.value@, self.path@, self.domain@, self.secure, self.httpOnly)
    }
}

/// The boolean under key `k`, if the value has one there.
pub open spec fn bool_at(j: Json, k: Seq<char>) -> Option<bool> {
    match get(j, k) {
        Some(Json::Bool(b)) => Some(b),
        _ => None,
    }
}

/// The cookie that a JSON object describes; every field is required.
pub open spec fn cookie_of(j: Json) -> Option<(Seq<char>, Seq<char>, Seq<char>, Seq<char>, bool, bool)> {
    match (str_at(j, "name"@), str_at(j, "value"@), str_at(j, "path"@), str_at(j, "domain"@)) {
        (Some(n), Some(v), Some(p), Some(d)) => match (bool_at(j, "secure"@), bool_at(j, "httpOnly"@)) {
            (Some(s), Some(h)) => Some((n, v, p, d, s, h)),
            _ => None,
        },
        _ => None,
    }
}

fn bool_at_key(v: &JsonValue, k: &str) -> (r: Option<bool>)
    ensures
        r == bool_at(v@, k@),
{
    match get_key(v, k) {
        Some(x) => as_bool(x),
        None => None,
    }
}

impl Cookie {
    pub fn from_json(v: &JsonValue) -> (r: Option<Cookie>)
        ensures
            match cookie_of(v@) {
                Some(c) => r is Some && r->0.deep_view() == c,
                None => r is None,
            },
    {
        let name = string_at(v, "name");
        let value = string_at(v, "value");
        let path = string_at(v, "path");
        let domain = string_at(v, "domain");
        let secure = bool_at_key(v, "secure");
        let http_only = bool_at_key(v, "httpOnly");
        match (name, value, path, domain) {
            (Some(n), Some(val), Some(p), Some(d)) => match (secure, http_only) {
                (Some(s), Some(h)) => Some(
                    Cookie { name: n, value: val, path: p, domain: d, secure: s, httpOnly: h },
                ),
                _ => None,
            },
            _ => None,
        }
    }
}

} // verus!
