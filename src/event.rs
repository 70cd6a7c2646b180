use vstd::prelude::*;
use crate::error::ConfigError;
use crate::node::{Node, SerdeFromString, find_entry, lookup, text_of};

verus! {

/// The HTTP methods that an HTTP event may name.
#[derive(Clone, Copy, Debug, PartialEq, Eq, Structural)]
pub enum HttpMethod {
    Get,
    Post,
    Put,
    Patch,
    Delete,
}

/// `c` is the upper-case letter `u`, or its lower-case form.
pub open spec fn same_letter(c: char, u: char) -> bool {
    c == u || (65 <= u as u32 <= 90 && c as u32 == u as u32 + 32)
}

/// `s` reads as the upper-case word `t` when ASCII case is ignored.
pub open spec fn equals_ignoring_case(s: Seq<char>, t: Seq<char>) -> bool {
    s.len() == t.len() && forall|i: int| 0 <= i < s.len() ==> same_letter(#[trigger] s[i], t[i])
}

/// The method that a method name stands for, whatever its ASCII case.
pub open spec fn method_of(s: Seq<char>) -> Option<HttpMethod> {
    if equals_ignoring_case(s, "GET"@) {
        Some(HttpMethod::Get)
    } else if equals_ignoring_case(s, "POST"@) {
        Some(HttpMethod::Post)
    } else if equals_ignoring_case(s, "PUT"@) {
        Some(HttpMethod::Put)
    } else if equals_ignoring_case(s, "PATCH"@) {
        Some(HttpMethod::Patch)
    } else if equals_ignoring_case(s, "DELETE"@) {
        Some(HttpMethod::Delete)
    } else {
        None
    }
}

fn eq_ignoring_case(s: &str, t: &str) -> (r: bool)
    ensures
        r == equals_ignoring_case(s@, t@),
{
    let n = s.unicode_len();
    if n != t.unicode_len() {
        return false;
    }
    let mut i: usize = 0;
    while i < n
        invariant
            n == s@.len(),
            n == t@.len(),
            i <= n,
            forall|j: int| 0 <= j < i ==> same_letter(#[trigger] s@[j], t@[j]),
        decreases n - i,
    {
        let c = s.get_char(i);
        let u = t.get_char(i);
        if !(c == u || (65 <= u as u32 && u as u32 <= 90 && c as u32 == u as u32 + 32)) {
            return false;
        }
        i = i + 1;
    }
    true
}

impl HttpMethod {
    /// Reads a method name, ignoring ASCII case.
    pub fn from_str(s: &str) -> (r: Result<HttpMethod, ConfigError>)
        ensures
            match r {
                Ok(m) => method_of(s@) == Some(m),
                Err(e) => method_of(s@) is None && e == ConfigError::UnknownHttpMethod,
            },
    {
        if eq_ignoring_case(s, "GET") {
            Ok(HttpMethod::Get)
        } else if eq_ignoring_case(s, "POST") {
            Ok(HttpMethod::Post)
        } else if eq_ignoring_case(s, "PUT") {
            Ok(HttpMethod::Put)
        } else if eq_ignoring_case(s, "PATCH") {
            Ok(HttpMethod::Patch)
        } else if eq_ignoring_case(s, "DELETE") {
            Ok(HttpMethod::Delete)
        } else {
            Err(ConfigError::UnknownHttpMethod)
        }
    }
}

/// The fields of an HTTP trigger.
#[derive(Clone, Debug, PartialEq, Eq)]
pub struct FunctionHttpEventStruct {
    pub cors: bool,
    pub method: SerdeFromString<HttpMethod>,
    pub path: String,
}

/// The shapes an HTTP trigger can take.
#[derive(Clone, Debug, PartialEq, Eq)]
pub enum FunctionHttpEvent {
    Struct(FunctionHttpEventStruct),
}

/// An event of the form `{ http: {...} }`.
#[derive(Clone, Debug, PartialEq, Eq)]
pub struct FunctionHttpEventWrapper {
    pub http: FunctionHttpEvent,
}

/// An event descriptor: an HTTP trigger, or any other mapping, kept as it is.
#[derive(Debug, PartialEq, Eq)]
pub enum FunctionEvent {
    Http(FunctionHttpEventWrapper),
    Unsupported(Vec<(String, Node)>),
}

/// What an event descriptor holds, as plain values.
pub enum EventView {
    /// cors flag, method and path template.
    Http(bool, HttpMethod, Seq<char>),
    /// The entries of an unrecognised event.
    Unsupported(Seq<(Seq<char>, Node)>),
}

pub open spec fn http_view(h: FunctionHttpEventWrapper) -> (bool, HttpMethod, Seq<char>) {
    match h.http {
        FunctionHttpEvent::Struct(s) => (s.cors, s.method.0, s.path@),
    }
}

pub open spec fn entries_view(es: Seq<(String, Node)>) -> Seq<(Seq<char>, Node)> {
    es.map_values(|p: (String, Node)| (p.0@, p.1))
}

pub open spec fn event_view(e: FunctionEvent) -> EventView {
    match e {
        FunctionEvent::Http(h) => {
            let t = http_view(h);
            EventView::Http(t.0, t.1, t.2)
        },
        FunctionEvent::Unsupported(es) => EventView::Unsupported(entries_view(es@)),
    }
}

/// The fields of an HTTP trigger read from a node: `cors` a boolean, `method` one of
/// the five names, `path` a text.
pub open spec fn http_fields_of(n: Node) -> Result<(bool, HttpMethod, Seq<char>), ConfigError> {
    match n {
        Node::Mapping(es) => match lookup(es@, "cors"@) {
            Some(Node::Bool(cors)) => match text_of(lookup(es@, "method"@)) {
                Some(m) => match method_of(m) {
                    Some(method) => match text_of(lookup(es@, "path"@)) {
                        Some(path) => Ok((cors, method, path)),
                        None => Err(ConfigError::DecodeError),
                    },
                    None => Err(ConfigError::UnknownHttpMethod),
                },
                None => Err(ConfigError::DecodeError),
            },
            _ => Err(ConfigError::DecodeError),
        },
        _ => Err(ConfigError::DecodeError),
    }
}

/// The HTTP trigger that a node of the form `{ http: {...} }` describes.
pub open spec fn http_event_of(n: Node) -> Result<(bool, HttpMethod, Seq<char>), ConfigError> {
    match n {
        Node::Mapping(es) => match lookup(es@, "http"@) {
            Some(h) => http_fields_of(h),
            None => Err(ConfigError::DecodeError),
        },
        _ => Err(ConfigError::DecodeError),
    }
}

/// Every key of the mapping is a text.
pub open spec fn text_keys(es: Seq<(Node, Node)>) -> bool {
    forall|i: int| 0 <= i < es.len() ==> (#[trigger] es[i]).0 is Text
}

/// A mapping with text keys, its keys read as text.
pub open spec fn keyed_entries(es: Seq<(Node, Node)>) -> Seq<(Seq<char>, Node)> {
    es.map_values(|p: (Node, Node)| (p.0->Text_0@, p.1))
}

/// How an event descriptor is classified: an HTTP trigger where it has that shape,
/// else any mapping with text keys as an unsupported event.
pub open spec fn event_of(n: Node) -> Result<EventView, ConfigError> {
    match http_event_of(n) {
        Ok(t) => Ok(EventView::Http(t.0, t.1, t.2)),
        Err(_) => match n {
            Node::Mapping(es) => if text_keys(es@) {
                Ok(EventView::Unsupported(keyed_entries(es@)))
            } else {
                Err(ConfigError::DecodeError)
            },
            _ => Err(ConfigError::DecodeError),
        },
    }
}

/// Reads the fields of an HTTP trigger.
pub fn decode_http_fields(n: &Node) -> (r: Result<FunctionHttpEventStruct, ConfigError>)
    ensures
        match r {
            Ok(e) => http_fields_of(*n) == Ok::<_, ConfigError>((e.cors, e.method.0, e.path@)),
            Err(x) => http_fields_of(*n) == Err::<(bool, HttpMethod, Seq<char>), _>(x),
        },
{
    match n {
        Node::Mapping(es) => {
            let cors = match find_entry(es, "cors") {
                Some(Node::Bool(b)) => *b,
                _ => {
                    return Err(ConfigError::DecodeError);
                },
            };
            let method = match find_entry(es, "method") {
                Some(Node::Text(m)) => HttpMethod::from_str(m.as_str()),
                _ => {
                    return Err(ConfigError::DecodeError);
                },
            };
            let method = match method {
                Ok(m) => m,
                Err(e) => {
                    return Err(e);
                },
            };
            let path = match find_entry(es, "path") {
                Some(Node::Text(p)) => p.clone(),
                _ => {
                    return Err(ConfigError::DecodeError);
                },
            };
            Ok(FunctionHttpEventStruct { cors, method: SerdeFromString(method), path })
        },
        _ => Err(ConfigError::DecodeError),
    }
}

/// Reads an event of the form `{ http: {...} }`.
pub fn decode_http_event(n: &Node) -> (r: Result<FunctionHttpEventWrapper, ConfigError>)
    ensures
        match r {
            Ok(h) => http_event_of(*n) == Ok::<_, ConfigError>(http_view(h)),
            Err(x) => http_event_of(*n) == Err::<(bool, HttpMethod, Seq<char>), _>(x),
        },
{
    match n {
        Node::Mapping(es) => match find_entry(es, "http") {
            Some(h) => match decode_http_fields(h) {
                Ok(s) => Ok(FunctionHttpEventWrapper { http: FunctionHttpEvent::Struct(s) }),
                Err(e) => Err(e),
            },
            None => Err(ConfigError::DecodeError),
        },
        _ => Err(ConfigError::DecodeError),
    }
}

fn all_text_keys(es: &Vec<(Node, Node)>) -> (r: bool)
    ensures
        r == text_keys(es@),
{
    let mut i: usize = 0;
    while i < es.len()
        invariant
            i <= es@.len(),
            forall|j: int| 0 <= j < i ==> (#[trigger] es@[j]).0 is Text,
        decreases es.len() - i,
    {
        match &es[i].0 {
            Node::Text(_) => {},
            _ => {
                return false;
            },
        }
        i = i + 1;
    }
    true
}

/// Classifies one event descriptor. A descriptor that does not have the HTTP shape,
/// for whatever reason, is kept as an unsupported event if it is a mapping with text
/// keys; only other values are an error.
pub fn normalize_event(n: Node) -> (r: Result<FunctionEvent, ConfigError>)
    ensures
        match r {
            Ok(e) => event_of(n) == Ok::<_, ConfigError>(event_view(e)),
            Err(x) => event_of(n) == Err::<EventView, _>(x),
        },
{
    if let Ok(h) = decode_http_event(&n) {
        return Ok(FunctionEvent::Http(h));
    }
    match n {
        Node::Mapping(es) => {
            if !all_text_keys(&es) {
                return Err(ConfigError::DecodeError);
            }
            let ghost orig = es@;
            let mut es = es;
            let mut out: Vec<(String, Node)> = Vec::new();
            let ghost k: int = 0;
            while es.len() > 0
                invariant
                    text_keys(orig),
                    0 <= k <= orig.len(),
                    es@ == orig.subrange(k, orig.len() as int),
                    entries_view(out@) == keyed_entries(orig.subrange(0, k)),
                decreases es.len(),
            {
                let (key, value) = es.remove(0);
                assert(orig[k] == (key, value));
                assert(orig[k].0 is Text);
                match key {
                    Node::Text(s) => {
                        let ghost before = out@;
                        let ghost item = (s@, value);
                        out.push((s, value));
                        proof {
                            assert(entries_view(out@) =~= entries_view(before).push(item));
                            assert(keyed_entries(orig.subrange(0, k + 1)) =~= keyed_entries(
                                orig.subrange(0, k),
                            ).push(item));
                        }
                    },
                    _ => {},
                }
                proof {
                    assert(orig.subrange(k + 1, orig.len() as int) =~= es@);
                    assert(entries_view(out@) =~= keyed_entries(orig.subrange(0, k + 1)));
                    k = k + 1;
                }
            }
            assert(orig.subrange(0, k) =~= orig);
            Ok(FunctionEvent::Unsupported(out))
        },
        _ => Err(ConfigError::DecodeError),
    }
}

} // verus!
