use vstd::prelude::*;
use crate::event::{EventView, FunctionEvent, FunctionHttpEvent, event_view};

verus! {

/// Argument type of every handler: a loosely typed key-value mapping.
pub const BASE_ARGUMENT_TYPE: &'static str = "{[key: string]: string | number | {} | undefined}";

/// Return type of a handler with no recognised trigger.
pub const BASE_RETURN_TYPE: &'static str = "unknown";

/// Return type of an HTTP handler: an eventual HTTP response.
pub const HTTP_RETURN_TYPE: &'static str = "Promise<{ statusCode: number, headers: {[key: string]: unknown}, body: string}>";

/// The query parameters that an HTTP handler receives.
pub const QUERY_PARAMETERS_CONSTRAINT: &'static str = "{ queryParameters: {[query: string]: string | undefined} }";

/// The path parameters that an HTTP handler receives.
pub const PATH_PARAMETERS_CONSTRAINT: &'static str = "{ pathParameters: {[pathParameterName: string]: string | undefined} }";

/// The `/`-separated segments of a path template, empty ones included.
pub open spec fn segments(p: Seq<char>) -> Seq<Seq<char>>
    decreases p.len(),
{
    if p.len() == 0 {
        seq![Seq::<char>::empty()]
    } else {
        let s = segments(p.drop_last());
        if p.last() == '/' {
            s.push(Seq::<char>::empty())
        } else {
            s.update(s.len() - 1, s.last().push(p.last()))
        }
    }
}

/// A segment of the form `{name}`.
pub open spec fn is_variable(seg: Seq<char>) -> bool {
    seg.len() >= 2 && seg[0] == '{' && seg.last() == '}'
}

/// The name between the braces of a `{name}` segment.
pub open spec fn variable_name(seg: Seq<char>) -> Seq<char> {
    seg.subrange(1, seg.len() - 1)
}

/// The names of the `{name}` segments, in order.
pub open spec fn variables(segs: Seq<Seq<char>>) -> Seq<Seq<char>>
    decreases segs.len(),
{
    if segs.len() == 0 {
        Seq::empty()
    } else {
        let v = variables(segs.drop_last());
        if is_variable(segs.last()) {
            v.push(variable_name(segs.last()))
        } else {
            v
        }
    }
}

/// The placeholders of a path template, in order.
pub open spec fn path_variables_of(p: Seq<char>) -> Seq<Seq<char>> {
    variables(segments(p))
}

pub open spec fn strings_view(v: Seq<String>) -> Seq<Seq<char>> {
    v.map_values(|s: String| s@)
}

/// The constraint that a path placeholder adds to an HTTP handler's argument type.
pub open spec fn variable_constraints(vs: Seq<Seq<char>>) -> Seq<char>
    decreases vs.len(),
{
    if vs.len() == 0 {
        Seq::empty()
    } else {
        variable_constraints(vs.drop_last()) + " & "@ + "{ queryParameters: {"@ + vs.last()
            + ": string} }"@
    }
}

/// Argument type of a handler triggered over HTTP with path template `p`.
pub open spec fn http_argument_type_of(p: Seq<char>) -> Seq<char> {
    BASE_ARGUMENT_TYPE@ + " & "@ + QUERY_PARAMETERS_CONSTRAINT@ + " & "@
        + PATH_PARAMETERS_CONSTRAINT@ + variable_constraints(path_variables_of(p))
}

/// The path template of the first event, where that event is an HTTP trigger.
pub open spec fn first_http_path_of(events: Seq<EventView>) -> Option<Seq<char>> {
    if events.len() > 0 && events[0] is Http {
        Some(events[0]->Http_2)
    } else {
        None
    }
}

pub open spec fn argument_type_of(events: Seq<EventView>) -> Seq<char> {
    match first_http_path_of(events) {
        Some(p) => http_argument_type_of(p),
        None => BASE_ARGUMENT_TYPE@,
    }
}

pub open spec fn return_type_of(events: Seq<EventView>) -> Seq<char> {
    match first_http_path_of(events) {
        Some(_) => HTTP_RETURN_TYPE@,
        None => BASE_RETURN_TYPE@,
    }
}

/// The handler's type: a function from the argument type to the return type.
pub open spec fn signature_of(events: Seq<EventView>) -> Seq<char> {
    "(event: "@ + argument_type_of(events) + ") => "@ + return_type_of(events)
}

pub open spec fn events_view(es: Seq<FunctionEvent>) -> Seq<EventView> {
    es.map_values(|e: FunctionEvent| event_view(e))
}

/// The names of the `{name}` placeholders of a path template, in order.
pub fn path_variables(path: &str) -> (r: Vec<String>)
    ensures
        strings_view(r@) == path_variables_of(path@),
{
    let n = path.unicode_len();
    let mut out: Vec<String> = Vec::new();
    let mut start: usize = 0;
    let mut i: usize = 0;
    let ghost done: Seq<Seq<char>> = Seq::empty();
    assert(path@.subrange(0, 0) =~= Seq::<char>::empty());
    assert(path@.subrange(0, 0) =~= path@.subrange(0, 0));
    while i < n
        invariant
            n == path@.len(),
            start <= i <= n,
            segments(path@.subrange(0, i as int)) == done.push(path@.subrange(start as int, i as int)),
            strings_view(out@) == variables(done),
        decreases n - i,
    {
        let ghost pre = path@.subrange(0, i as int + 1);
        assert(pre.drop_last() =~= path@.subrange(0, i as int));
        let c = path.get_char(i);
        if c == '/' {
            let ghost seg = path@.subrange(start as int, i as int);
            if i - start >= 2 && path.get_char(start) == '{' && path.get_char(i - 1) == '}' {
                let name = path.substring_char(start + 1, i - 1);
                let ghost before = out@;
                out.push(String::from_str(name));
                proof {
                    assert(variable_name(seg) =~= name@);
                    assert(strings_view(out@) =~= strings_view(before).push(name@));
                }
            }
            proof {
                assert(done.push(seg).drop_last() =~= done);
                done = done.push(seg);
                assert(path@.subrange(i as int + 1, i as int + 1) =~= Seq::<char>::empty());
            }
            start = i + 1;
        } else {
            proof {
                assert(path@.subrange(start as int, i as int).push(c) =~= path@.subrange(
                    start as int,
                    i as int + 1,
                ));
                assert(done.push(path@.subrange(start as int, i as int)).update(
                    done.len() as int,
                    path@.subrange(start as int, i as int + 1),
                ) =~= done.push(path@.subrange(start as int, i as int + 1)));
            }
        }
        i = i + 1;
    }
    let ghost seg = path@.subrange(start as int, n as int);
    assert(path@.subrange(0, n as int) =~= path@);
    assert(done.push(seg).drop_last() =~= done);
    if n - start >= 2 && path.get_char(start) == '{' && path.get_char(n - 1) == '}' {
        let name = path.substring_char(start + 1, n - 1);
        let ghost before = out@;
        out.push(String::from_str(name));
        proof {
            assert(variable_name(seg) =~= name@);
            assert(strings_view(out@) =~= strings_view(before).push(name@));
        }
    }
    out
}

/// The argument type of an HTTP handler whose path template is `path`.
pub fn http_argument_type(path: &str) -> (r: String)
    ensures
        r@ == http_argument_type_of(path@),
{
    let vars = path_variables(path);
    let ghost vs = strings_view(vars@);
    let mut s = String::from_str(BASE_ARGUMENT_TYPE);
    s.append(" & ");
    s.append(QUERY_PARAMETERS_CONSTRAINT);
    s.append(" & ");
    s.append(PATH_PARAMETERS_CONSTRAINT);
    let ghost head = s@;
    let mut k: usize = 0;
    assert(vs.subrange(0, 0) =~= Seq::<Seq<char>>::empty());
    assert(head =~= head + variable_constraints(vs.subrange(0, 0)));
    while k < vars.len()
        invariant
            k <= vars@.len(),
            vs == strings_view(vars@),
            s@ == head + variable_constraints(vs.subrange(0, k as int)),
        decreases vars.len() - k,
    {
        let ghost prev = s@;
        s.append(" & ");
        s.append("{ queryParameters: {");
        s.append(vars[k].as_str());
        s.append(": string} }");
        proof {
            let t = vs.subrange(0, k as int + 1);
            assert(t.drop_last() =~= vs.subrange(0, k as int));
            assert(t.last() == vars@[k as int]@);
            assert(s@ =~= head + variable_constraints(t));
        }
        k = k + 1;
    }
    assert(vs.subrange(0, vars@.len() as int) =~= vs);
    s
}

fn first_http_path(events: &Vec<FunctionEvent>) -> (r: Option<&str>)
    ensures
        match r {
            Some(p) => first_http_path_of(events_view(events@)) == Some(p@),
            None => first_http_path_of(events_view(events@)) is None,
        },
{
    if events.len() == 0 {
        return None;
    }
    match &events[0] {
        FunctionEvent::Http(w) => match &w.http {
            FunctionHttpEvent::Struct(y) => Some(y.path.as_str()),
        },
        FunctionEvent::Unsupported(_) => None,
    }
}

/// The argument type of a handler: decided by its first event alone.
pub fn argument_type(events: &Vec<FunctionEvent>) -> (r: String)
    ensures
        r@ == argument_type_of(events_view(events@)),
{
    match first_http_path(events) {
        Some(p) => http_argument_type(p),
        None => String::from_str(BASE_ARGUMENT_TYPE),
    }
}

/// The return type of a handler: decided by its first event alone.
pub fn return_type(events: &Vec<FunctionEvent>) -> (r: String)
    ensures
        r@ == return_type_of(events_view(events@)),
{
    match first_http_path(events) {
        Some(_) => String::from_str(HTTP_RETURN_TYPE),
        None => String::from_str(BASE_RETURN_TYPE),
    }
}

/// The type of a handler with these events, `(event: <argument>) => <return>`.
pub fn signature(events: &Vec<FunctionEvent>) -> (r: String)
    ensures
        r@ == signature_of(events_view(events@)),
{
    let mut s = String::from_str("(event: ");
    let a = argument_type(events);
    s.append(a.as_str());
    s.append(") => ");
    let t = return_type(events);
    s.append(t.as_str());
    s
}

/// A function without events, or whose first event is no HTTP trigger, gets the base
/// argument type and the unconstrained return type; later events never matter.
pub proof fn lemma_first_event_decides(events: Seq<EventView>, more: Seq<EventView>)
    requires
        events.len() == 0 || events[0] is Unsupported,
    ensures
        argument_type_of(events) == BASE_ARGUMENT_TYPE@,
        return_type_of(events) == BASE_RETURN_TYPE@,
        events.len() > 0 ==> signature_of(events + more) == signature_of(events),
{
    if events.len() > 0 {
        assert((events + more)[0] == events[0]);
    }
}

/// The text written for one handler: a comment that carries its type, then a
/// declaration that binds its identifier to that type.
pub open spec fn declaration_text(identifier: Seq<char>, signature: Seq<char>) -> Seq<char> {
    "/** auto generated.\n@type { "@ + signature + " }\n*/\n"@ + "declare const "@ + identifier
        + ": "@ + signature + ";\n"@
}

/// Writes the comment and the declaration of one handler.
pub fn declaration_block(identifier: &str, signature: &str) -> (r: String)
    ensures
        r@ == declaration_text(identifier@, signature@),
{
    let mut s = String::from_str("/** auto generated.\n@type { ");
    s.append(signature);
    s.append(" }\n*/\n");
    s.append("declare const ");
    s.append(identifier);
    s.append(": ");
    s.append(signature);
    s.append(";\n");
    s
}

/// The declaration file beside a module: its path with `.d.ts` appended.
pub open spec fn target_of(module: Seq<char>) -> Seq<char> {
    module + ".d.ts"@
}

/// Where the declarations of a module go.
pub fn declaration_target(module: &str) -> (r: String)
    ensures
        r@ == target_of(module@),
{
    let mut s = String::from_str(module);
    s.append(".d.ts");
    s
}

/// Appends a block to the current text of an artifact; nothing is replaced.
pub fn append_block(artifact: &mut String, block: &str)
    ensures
        final(artifact)@ == old(artifact)@ + block@,
{
    artifact.append(block);
}

/// Emitting the same block twice into one artifact leaves two copies of it: a second
/// run adds to what the first wrote and does not replace it.
pub proof fn lemma_rerun_appends(prior: Seq<char>, block: Seq<char>)
    requires
        block.len() > 0,
    ensures
        prior + block + block == prior + (block + block),
        (prior + block + block).len() == prior.len() + 2 * block.len(),
        prior + block + block != prior + block,
        (prior + block + block).subrange(prior.len() as int, prior.len() + block.len() as int) == block,
        (prior + block + block).subrange(
            prior.len() + block.len() as int,
            prior.len() + 2 * block.len() as int,
        ) == block,
{
    assert(prior + block + block =~= prior + (block + block));
    assert((prior + block + block).subrange(prior.len() as int, prior.len() + block.len() as int) =~= block);
    assert((prior + block + block).subrange(prior.len() + block.len() as int, prior.len() + 2 * block.len() as int)
        =~= block);
    assert((prior + block + block).len() != (prior + block).len());
}

} // verus!
