use dts_synth::error::ConfigError;
use dts_synth::event::{FunctionEvent, FunctionHttpEvent, HttpMethod, normalize_event};
use dts_synth::function::{decode_function, decode_table, emission};
use dts_synth::handler::HandlerLocation;
use dts_synth::loader::{Probe, load_target, read_root};
use dts_synth::node::Node;
use dts_synth::reference::{FunctionCollection, decode_root, parse_file_reference};
use dts_synth::signature::{
    BASE_ARGUMENT_TYPE, BASE_RETURN_TYPE, HTTP_RETURN_TYPE, append_block, argument_type,
    declaration_block, path_variables, return_type, signature,
};

fn text(s: &str) -> Node {
    Node::Text(s.to_string())
}

fn mapping(entries: Vec<(&str, Node)>) -> Node {
    Node::Mapping(entries.into_iter().map(|(k, v)| (text(k), v)).collect())
}

fn http_event(method: &str, path: &str, cors: bool) -> Node {
    mapping(vec![(
        "http",
        mapping(vec![
            ("cors", Node::Bool(cors)),
            ("method", text(method)),
            ("path", text(path)),
        ]),
    )])
}

#[test]
fn can_deserialize() {
    parse_file_reference("${file(./resources/functions-auth.yml)}").expect("fail");
}

#[test]
fn reference_recovers_path() {
    let r = parse_file_reference("${file(./resources/functions-auth.yml)}").unwrap();
    assert_eq!(r.path, "./resources/functions-auth.yml");
    let r = parse_file_reference("${file()}").unwrap();
    assert_eq!(r.path, "");
    let r = parse_file_reference("${file(a)b)}").unwrap();
    assert_eq!(r.path, "a)b");
}

#[test]
fn reference_without_prefix_is_not_a_reference() {
    assert_eq!(parse_file_reference("functions.yml"), Err(ConfigError::NotAReference));
    assert_eq!(parse_file_reference(""), Err(ConfigError::NotAReference));
    assert_eq!(parse_file_reference("${self:custom}"), Err(ConfigError::NotAReference));
}

#[test]
fn reference_without_closing_is_malformed() {
    assert_eq!(parse_file_reference("${file(a.yml"), Err(ConfigError::MalformedReference));
    assert_eq!(parse_file_reference("${file(a.yml)"), Err(ConfigError::MalformedReference));
    assert_eq!(parse_file_reference("${file("), Err(ConfigError::MalformedReference));
}

#[test]
fn handler_splits_at_last_dot() {
    let h = HandlerLocation::from_str("src/index.handler").unwrap();
    assert_eq!(h.source_file_location, "src/index");
    assert_eq!(h.identifier, "handler");
    let h = HandlerLocation::from_str("./a.b/c.main").unwrap();
    assert_eq!(h.source_file_location, "./a.b/c");
    assert_eq!(h.identifier, "main");
    assert_eq!(format!("{}.{}", h.source_file_location, h.identifier), "./a.b/c.main");
    let h = HandlerLocation::from_str(".").unwrap();
    assert_eq!(h.source_file_location, "");
    assert_eq!(h.identifier, "");
}

#[test]
fn handler_without_dot_fails() {
    assert_eq!(HandlerLocation::from_str("src/index"), Err(ConfigError::InvalidHandlerFormat));
    assert_eq!(HandlerLocation::from_str(""), Err(ConfigError::InvalidHandlerFormat));
}

#[test]
fn method_ignores_case() {
    assert_eq!(HttpMethod::from_str("get"), Ok(HttpMethod::Get));
    assert_eq!(HttpMethod::from_str("POST"), Ok(HttpMethod::Post));
    assert_eq!(HttpMethod::from_str("Put"), Ok(HttpMethod::Put));
    assert_eq!(HttpMethod::from_str("pAtCh"), Ok(HttpMethod::Patch));
    assert_eq!(HttpMethod::from_str("delete"), Ok(HttpMethod::Delete));
    assert_eq!(HttpMethod::from_str("HEAD"), Err(ConfigError::UnknownHttpMethod));
    assert_eq!(HttpMethod::from_str("gett"), Err(ConfigError::UnknownHttpMethod));
}

#[test]
fn path_variables_in_order() {
    assert_eq!(path_variables("/users/{id}/posts/{postId}"), vec!["id", "postId"]);
    assert_eq!(path_variables("/items/{itemId}"), vec!["itemId"]);
    assert_eq!(path_variables("/{}/{/x}/}{"), vec![""]);
    assert!(path_variables("").is_empty());
    assert!(path_variables("/plain/path").is_empty());
}

#[test]
fn no_events_gives_base_signature() {
    let events: Vec<FunctionEvent> = Vec::new();
    assert_eq!(argument_type(&events), BASE_ARGUMENT_TYPE);
    assert_eq!(return_type(&events), BASE_RETURN_TYPE);
    assert_eq!(
        signature(&events),
        "(event: {[key: string]: string | number | {} | undefined}) => unknown"
    );
}

#[test]
fn two_path_variables_give_two_constraints() {
    let e = normalize_event(http_event("GET", "/users/{id}/posts/{postId}", true)).unwrap();
    let arg = argument_type(&vec![e]);
    assert_eq!(
        arg,
        "{[key: string]: string | number | {} | undefined} & \
         { queryParameters: {[query: string]: string | undefined} } & \
         { pathParameters: {[pathParameterName: string]: string | undefined} } & \
         { queryParameters: {id: string} } & { queryParameters: {postId: string} }"
    );
    assert_eq!(arg.matches(": string} }").count(), 2);
}

#[test]
fn http_event_with_item_id() {
    let e = normalize_event(http_event("get", "/items/{itemId}", false)).unwrap();
    match &e {
        FunctionEvent::Http(w) => match &w.http {
            FunctionHttpEvent::Struct(s) => {
                assert!(!s.cors);
                assert_eq!(s.method.0, HttpMethod::Get);
                assert_eq!(s.path, "/items/{itemId}");
            }
        },
        FunctionEvent::Unsupported(_) => panic!("expected an HTTP event"),
    }
    let events = vec![e];
    let arg = argument_type(&events);
    assert!(arg.contains("{ queryParameters: {[query: string]: string | undefined} }"));
    assert!(arg.contains("{ pathParameters: {[pathParameterName: string]: string | undefined} }"));
    assert!(arg.ends_with(" & { queryParameters: {itemId: string} }"));
    assert_eq!(return_type(&events), HTTP_RETURN_TYPE);
}

#[test]
fn only_first_event_counts() {
    let first = normalize_event(mapping(vec![("schedule", text("rate(1 minute)"))])).unwrap();
    let second = normalize_event(http_event("POST", "/a/{b}", true)).unwrap();
    let events = vec![first, second];
    assert_eq!(argument_type(&events), BASE_ARGUMENT_TYPE);
    assert_eq!(return_type(&events), BASE_RETURN_TYPE);
}

#[test]
fn non_http_mapping_is_unsupported() {
    let e = normalize_event(mapping(vec![("sqs", text("arn"))])).unwrap();
    match e {
        FunctionEvent::Unsupported(entries) => {
            assert_eq!(entries.len(), 1);
            assert_eq!(entries[0].0, "sqs");
            assert_eq!(entries[0].1, text("arn"));
        }
        FunctionEvent::Http(_) => panic!("expected an unsupported event"),
    }
    let bad_method = normalize_event(http_event("TRACE", "/x", false)).unwrap();
    assert!(matches!(bad_method, FunctionEvent::Unsupported(_)));
    assert_eq!(normalize_event(text("http")), Err(ConfigError::DecodeError));
}

#[test]
fn function_without_handler_is_a_decode_error() {
    let f = decode_function(mapping(vec![("events", Node::Sequence(vec![]))]));
    assert_eq!(f, Err(ConfigError::DecodeError));
    let f = decode_function(mapping(vec![("handler", text("nodot"))]));
    assert_eq!(f, Err(ConfigError::InvalidHandlerFormat));
    let f = decode_function(mapping(vec![("handler", text("a.b")), ("events", text("x"))]));
    assert_eq!(f, Err(ConfigError::DecodeError));
}

#[test]
fn table_keeps_document_order() {
    let t = decode_table(mapping(vec![
        ("first", mapping(vec![("handler", text("a.one"))])),
        ("second", mapping(vec![("handler", text("b.two")), ("events", Node::Null)])),
    ]))
    .unwrap();
    assert_eq!(t.0.len(), 2);
    assert_eq!(t.0[0].handler.0.identifier, "one");
    assert_eq!(t.0[1].handler.0.identifier, "two");
    assert!(t.0[1].events.is_empty());
}

#[test]
fn root_lists_references() {
    let root = mapping(vec![(
        "functions",
        Node::Sequence(vec![text("${file(a.yml)}"), text("${file(b/c.yml)}")]),
    )]);
    let c = decode_root(&root).unwrap();
    match c.functions {
        FunctionCollection::Paths(ps) => {
            let paths: Vec<&str> = ps.iter().map(|p| p.path.as_str()).collect();
            assert_eq!(paths, vec!["a.yml", "b/c.yml"]);
        }
    }
    let broken = mapping(vec![(
        "functions",
        Node::Sequence(vec![text("${file(a.yml)}"), text("${file(b.yml"), text("c.yml")]),
    )]);
    assert_eq!(decode_root(&broken), Err(ConfigError::MalformedReference));
    let not_ref = mapping(vec![("functions", Node::Sequence(vec![text("c.yml")]))]);
    assert_eq!(decode_root(&not_ref), Err(ConfigError::NotAReference));
    assert_eq!(decode_root(&mapping(vec![])), Err(ConfigError::DecodeError));
}

#[test]
fn missing_and_directory_targets_fail() {
    assert_eq!(load_target(Probe::Missing), Err(ConfigError::PathNotFound));
    assert_eq!(load_target(Probe::Directory), Err(ConfigError::PathIsDirectory));
    assert_eq!(load_target(Probe::Document(String::new())), Err(ConfigError::DecodeError));
    assert_eq!(
        load_target(Probe::Document("hello: [unclosed".to_string())),
        Err(ConfigError::DecodeError)
    );
}

#[test]
fn satellite_function_without_events() {
    let root = read_root("functions:\n  - ${file(./functions.yml)}\n").unwrap();
    match root.functions {
        FunctionCollection::Paths(ps) => {
            assert_eq!(ps.len(), 1);
            assert_eq!(ps[0].path, "./functions.yml");
        }
    }
    let table = load_target(Probe::Document("hello:\n  handler: src/index.handler\n".to_string()))
        .unwrap();
    assert_eq!(table.0.len(), 1);
    let e = emission(&table.0[0]);
    assert_eq!(e.target, "src/index.d.ts");
    let ty = "(event: {[key: string]: string | number | {} | undefined}) => unknown";
    assert_eq!(
        e.text,
        format!("/** auto generated.\n@type {{ {ty} }}\n*/\ndeclare const handler: {ty};\n")
    );
}

#[test]
fn http_function_emission() {
    let f = decode_function(mapping(vec![
        ("handler", text("src/index.handler")),
        ("events", Node::Sequence(vec![http_event("get", "/items/{itemId}", false)])),
    ]))
    .unwrap();
    let e = emission(&f);
    assert_eq!(e.target, "src/index.d.ts");
    let ty = "(event: {[key: string]: string | number | {} | undefined} & \
              { queryParameters: {[query: string]: string | undefined} } & \
              { pathParameters: {[pathParameterName: string]: string | undefined} } & \
              { queryParameters: {itemId: string} }) => \
              Promise<{ statusCode: number, headers: {[key: string]: unknown}, body: string}>";
    assert!(e.text.contains(&format!("declare const handler: {ty};\n")));
}

#[test]
fn satellite_document_with_http_event() {
    let doc = "create:\n  handler: src/items.create\n  events:\n    - http:\n        method: post\n        path: /items/{itemId}\n        cors: true\n    - schedule: rate(1 minute)\nlist:\n  handler: src/items.list\n";
    let table = load_target(Probe::Document(doc.to_string())).unwrap();
    assert_eq!(table.0.len(), 2);
    let create = &table.0[0];
    assert_eq!(create.handler.0.identifier, "create");
    assert_eq!(create.events.len(), 2);
    assert!(matches!(create.events[1], FunctionEvent::Unsupported(_)));
    assert_eq!(return_type(&create.events), HTTP_RETURN_TYPE);
    assert!(argument_type(&create.events).ends_with("{ queryParameters: {itemId: string} }"));
    assert_eq!(table.0[1].handler.0.source_file_location, "src/items");
    assert!(table.0[1].events.is_empty());
}

#[test]
fn root_text_errors() {
    assert_eq!(read_root("functions:\n  - other.yml\n"), Err(ConfigError::NotAReference));
    assert_eq!(read_root("functions:\n  - ${file(x.yml\n"), Err(ConfigError::MalformedReference));
    assert_eq!(read_root("functions: [\n"), Err(ConfigError::DecodeError));
}

#[test]
fn rerun_appends_duplicate_blocks() {
    let block = declaration_block("handler", "(event: {}) => unknown");
    let mut artifact = String::new();
    append_block(&mut artifact, &block);
    append_block(&mut artifact, &block);
    assert_eq!(artifact, format!("{block}{block}"));
    assert_eq!(artifact.matches("declare const handler").count(), 2);
}
