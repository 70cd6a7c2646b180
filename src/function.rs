use vstd::prelude::*;
use crate::error::ConfigError;
use crate::event::{EventView, FunctionEvent, event_of, normalize_event};
use crate::handler::{HandlerLocation, handler_parts};
use crate::node::{
    Node,
    SerdeFromString,
    collect_all,
    find_entry,
    find_index,
    lemma_collect_fails_early,
    lookup,
    text_of,
};
use crate::signature::{
    declaration_block,
    declaration_target,
    declaration_text,
    events_view,
    signature,
    signature_of,
    target_of,
};

verus! {

/// A function definition: where its handler lives and the events that trigger it.
#[derive(Debug, PartialEq, Eq)]
pub struct Function {
    pub handler: SerdeFromString<HandlerLocation>,
    pub events: Vec<FunctionEvent>,
}

/// The function definitions of one document, in document order.
#[derive(Debug, PartialEq, Eq)]
pub struct FunctionTable(pub Vec<Function>);

/// A function definition as plain values: module path, identifier and events.
pub open spec fn function_view(f: Function) -> (Seq<char>, Seq<char>, Seq<EventView>) {
    (f.handler.0.source_file_location@, f.handler.0.identifier@, events_view(f.events@))
}

pub open spec fn functions_view(fs: Seq<Function>) -> Seq<(Seq<char>, Seq<char>, Seq<EventView>)> {
    fs.map_values(|f: Function| function_view(f))
}

/// Reads one event descriptor.
pub open spec fn event_decoder() -> spec_fn(Node) -> Result<EventView, ConfigError> {
    |e: Node| event_of(e)
}

/// Reads one entry of a function table.
pub open spec fn entry_decoder() -> spec_fn((Node, Node)) -> Result<
    (Seq<char>, Seq<char>, Seq<EventView>),
    ConfigError,
> {
    |p: (Node, Node)| table_entry_of(p)
}

/// The events of a definition: absent or empty means none, else a sequence of event
/// descriptors.
pub open spec fn event_list_of(n: Option<Node>) -> Result<Seq<EventView>, ConfigError> {
    match n {
        None => Ok(Seq::empty()),
        Some(Node::Null) => Ok(Seq::empty()),
        Some(Node::Sequence(items)) => collect_all(items@, event_decoder()),
        _ => Err(ConfigError::DecodeError),
    }
}

/// A function definition read from a node: a mapping with a `handler` text and
/// optional `events`.
pub open spec fn function_of(n: Node) -> Result<(Seq<char>, Seq<char>, Seq<EventView>), ConfigError> {
    match n {
        Node::Mapping(es) => match text_of(lookup(es@, "handler"@)) {
            Some(h) => match handler_parts(h) {
                Some(p) => match event_list_of(lookup(es@, "events"@)) {
                    Ok(events) => Ok((p.0, p.1, events)),
                    Err(e) => Err(e),
                },
                None => Err(ConfigError::InvalidHandlerFormat),
            },
            None => Err(ConfigError::DecodeError),
        },
        _ => Err(ConfigError::DecodeError),
    }
}

/// One entry of a function table: a text key, which is dropped, and a definition.
pub open spec fn table_entry_of(p: (Node, Node)) -> Result<
    (Seq<char>, Seq<char>, Seq<EventView>),
    ConfigError,
> {
    if p.0 is Text {
        function_of(p.1)
    } else {
        Err(ConfigError::DecodeError)
    }
}

/// A function table read from a node: a mapping from text keys to definitions.
pub open spec fn table_of(n: Node) -> Result<Seq<(Seq<char>, Seq<char>, Seq<EventView>)>, ConfigError> {
    match n {
        Node::Mapping(es) => collect_all(es@, entry_decoder()),
        _ => Err(ConfigError::DecodeError),
    }
}

/// Reads the events of a definition.
pub fn decode_events(n: Node) -> (r: Result<Vec<FunctionEvent>, ConfigError>)
    ensures
        match r {
            Ok(v) => event_list_of(Some(n)) == Ok::<_, ConfigError>(events_view(v@)),
            Err(e) => event_list_of(Some(n)) == Err::<Seq<EventView>, _>(e),
        },
{
    match n {
        Node::Null => {
            let v: Vec<FunctionEvent> = Vec::new();
            assert(events_view(v@) =~= Seq::<EventView>::empty());
            Ok(v)
        },
        Node::Sequence(items) => {
            let ghost orig = items@;
            let ghost f = event_decoder();
            let mut items = items;
            let mut out: Vec<FunctionEvent> = Vec::new();
            let ghost k: int = 0;
            assert(orig.subrange(0, 0) =~= Seq::<Node>::empty());
            assert(event_list_of(Some(n)) == collect_all(orig, f));
            assert(events_view(out@) =~= Seq::<EventView>::empty());
            while items.len() > 0
                invariant
                    0 <= k <= orig.len(),
                    items@ == orig.subrange(k, orig.len() as int),
                    f == event_decoder(),
                    event_list_of(Some(n)) == collect_all(orig, f),
                    collect_all(orig.subrange(0, k), f) == Ok::<_, ConfigError>(events_view(out@)),
                decreases items.len(),
            {
                let item = items.remove(0);
                let ghost pre = orig.subrange(0, k + 1);
                assert(pre.drop_last() =~= orig.subrange(0, k));
                assert(pre.last() == item);
                match normalize_event(item) {
                    Ok(e) => {
                        let ghost before = out@;
                        out.push(e);
                        proof {
                            assert(events_view(out@) =~= events_view(before).push(crate::event::event_view(e)));
                        }
                    },
                    Err(x) => {
                        proof {
                            lemma_collect_fails_early(orig, f, k + 1);
                        }
                        return Err(x);
                    },
                }
                proof {
                    assert(orig.subrange(k + 1, orig.len() as int) =~= items@);
                    k = k + 1;
                }
            }
            assert(orig.subrange(0, k) =~= orig);
            Ok(out)
        },
        _ => Err(ConfigError::DecodeError),
    }
}

/// Reads one function definition.
pub fn decode_function(n: Node) -> (r: Result<Function, ConfigError>)
    ensures
        match r {
            Ok(f) => function_of(n) == Ok::<_, ConfigError>(function_view(f)),
            Err(e) => function_of(n) == Err::<(Seq<char>, Seq<char>, Seq<EventView>), _>(e),
        },
{
    match n {
        Node::Mapping(es) => {
            let handler = match find_entry(&es, "handler") {
                Some(Node::Text(h)) => match HandlerLocation::from_str(h.as_str()) {
                    Ok(l) => l,
                    Err(e) => {
                        return Err(e);
                    },
                },
                _ => {
                    return Err(ConfigError::DecodeError);
                },
            };
            let ghost entries = es@;
            let mut es = es;
            let events = match find_index(&es, "events") {
                None => {
                    let v: Vec<FunctionEvent> = Vec::new();
                    assert(events_view(v@) =~= Seq::<EventView>::empty());
                    v
                },
                Some(i) => {
                    let (_, v) = es.remove(i);
                    match decode_events(v) {
                        Ok(evs) => evs,
                        Err(e) => {
                            return Err(e);
                        },
                    }
                },
            };
            Ok(Function { handler: SerdeFromString(handler), events })
        },
        _ => Err(ConfigError::DecodeError),
    }
}

/// Reads a function table, keeping the definitions in document order and dropping
/// their keys.
pub fn decode_table(n: Node) -> (r: Result<FunctionTable, ConfigError>)
    ensures
        match r {
            Ok(t) => table_of(n) == Ok::<_, ConfigError>(functions_view(t.0@)),
            Err(e) => table_of(n) == Err::<Seq<(Seq<char>, Seq<char>, Seq<EventView>)>, _>(e),
        },
{
    match n {
        Node::Mapping(es) => {
            let ghost orig = es@;
            let ghost f = entry_decoder();
            let mut es = es;
            let mut out: Vec<Function> = Vec::new();
            let ghost k: int = 0;
            assert(orig.subrange(0, 0) =~= Seq::<(Node, Node)>::empty());
            assert(functions_view(out@) =~= Seq::<(Seq<char>, Seq<char>, Seq<EventView>)>::empty());
            while es.len() > 0
                invariant
                    0 <= k <= orig.len(),
                    es@ == orig.subrange(k, orig.len() as int),
                    f == entry_decoder(),
                    table_of(n) == collect_all(orig, f),
                    collect_all(orig.subrange(0, k), f) == Ok::<_, ConfigError>(functions_view(out@)),
                decreases es.len(),
            {
                let (key, value) = es.remove(0);
                let ghost pre = orig.subrange(0, k + 1);
                assert(pre.drop_last() =~= orig.subrange(0, k));
                assert(pre.last() == (key, value));
                let is_text = match key {
                    Node::Text(_) => true,
                    _ => false,
                };
                if !is_text {
                    proof {
                        lemma_collect_fails_early(orig, f, k + 1);
                    }
                    return Err(ConfigError::DecodeError);
                }
                match decode_function(value) {
                    Ok(func) => {
                        let ghost before = out@;
                        out.push(func);
                        proof {
                            assert(functions_view(out@) =~= functions_view(before).push(
                                function_view(func),
                            ));
                        }
                    },
                    Err(x) => {
                        proof {
                            lemma_collect_fails_early(orig, f, k + 1);
                        }
                        return Err(x);
                    },
                }
                proof {
                    assert(orig.subrange(k + 1, orig.len() as int) =~= es@);
                    k = k + 1;
                }
            }
            assert(orig.subrange(0, k) =~= orig);
            Ok(FunctionTable(out))
        },
        _ => Err(ConfigError::DecodeError),
    }
}

/// What is appended for one function, and where.
pub struct Emission {
    /// The declaration file, relative to the root document's directory.
    pub target: String,
    /// The comment and declaration appended to it.
    pub text: String,
}

/// The declaration of one function: its module's `.d.ts` file and the block that
/// binds its identifier to the type its first event gives.
pub fn emission(f: &Function) -> (r: Emission)
    ensures
        r.target@ == target_of(f.handler.0.source_file_location@),
        r.text@ == declaration_text(f.handler.0.identifier@, signature_of(events_view(f.events@))),
{
    let sig = signature(&f.events);
    let text = declaration_block(f.handler.0.identifier.as_str(), sig.as_str());
    let target = declaration_target(f.handler.0.source_file_location.as_str());
    Emission { target, text }
}

} // verus!
