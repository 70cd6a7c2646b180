use vstd::prelude::*;
use crate::error::ConfigError;
use crate::node::{Node, collect_all, find_entry, lemma_collect_fails_early, lookup};
use crate::text::{ends_with, is_prefix, is_suffix, starts_with};

verus! {

/// Opening of a file reference scalar.
pub const REFERENCE_PREFIX: &'static str = "${file(";

/// Closing of a file reference scalar.
pub const REFERENCE_SUFFIX: &'static str = ")}";

/// A file reference: a path relative to the directory of the root document.
#[derive(Clone, Debug, PartialEq, Eq)]
pub struct SimpleFunctionPath {
    pub path: String,
}

/// What a scalar resolves to: the text between `${file(` and `)}`, or the reason it is
/// no file reference.
pub open spec fn reference_of(s: Seq<char>) -> Result<Seq<char>, ConfigError> {
    let pre = REFERENCE_PREFIX@;
    let suf = REFERENCE_SUFFIX@;
    if !is_prefix(pre, s) {
        Err(ConfigError::NotAReference)
    } else {
        let rest = s.subrange(pre.len() as int, s.len() as int);
        if is_suffix(suf, rest) {
            Ok(rest.subrange(0, rest.len() - suf.len()))
        } else {
            Err(ConfigError::MalformedReference)
        }
    }
}

/// Wrapping any path `x` as `${file(x)}` and resolving it gives `x` back; a scalar
/// without the `${file(` prefix is no reference; one with the prefix but without the
/// closing `)}` is a malformed reference.
pub proof fn lemma_reference_round_trip(x: Seq<char>, s: Seq<char>)
    ensures
        reference_of(REFERENCE_PREFIX@ + x + REFERENCE_SUFFIX@) == Ok::<_, ConfigError>(x),
        !is_prefix(REFERENCE_PREFIX@, s) ==> reference_of(s) == Err::<Seq<char>, _>(
            ConfigError::NotAReference,
        ),
        is_prefix(REFERENCE_PREFIX@, s) && !is_suffix(
            REFERENCE_SUFFIX@,
            s.subrange(REFERENCE_PREFIX@.len() as int, s.len() as int),
        ) ==> reference_of(s) == Err::<Seq<char>, _>(ConfigError::MalformedReference),
{
    let pre = REFERENCE_PREFIX@;
    let suf = REFERENCE_SUFFIX@;
    let w = pre + x + suf;
    assert(w.subrange(0, pre.len() as int) =~= pre);
    let rest = w.subrange(pre.len() as int, w.len() as int);
    assert(rest =~= x + suf);
    assert(rest.subrange(rest.len() - suf.len(), rest.len() as int) =~= suf);
    assert(rest.subrange(0, rest.len() - suf.len()) =~= x);
}

/// Resolves the scalar grammar `${file(<path>)}` to `<path>`, taken verbatim.
pub fn parse_file_reference(s: &str) -> (r: Result<SimpleFunctionPath, ConfigError>)
    ensures
        match r {
            Ok(p) => reference_of(s@) == Ok::<Seq<char>, ConfigError>(p.path@),
            Err(e) => reference_of(s@) == Err::<Seq<char>, ConfigError>(e),
        },
{
    if !starts_with(s, REFERENCE_PREFIX) {
        return Err(ConfigError::NotAReference);
    }
    let n = s.unicode_len();
    let k = REFERENCE_PREFIX.unicode_len();
    let rest = s.substring_char(k, n);
    if !ends_with(rest, REFERENCE_SUFFIX) {
        return Err(ConfigError::MalformedReference);
    }
    let m = rest.unicode_len();
    let j = REFERENCE_SUFFIX.unicode_len();
    let path = rest.substring_char(0, m - j);
    Ok(SimpleFunctionPath { path: String::from_str(path) })
}

/// The functions of a root document: the documents that define them.
#[derive(Clone, Debug, PartialEq, Eq)]
pub enum FunctionCollection {
    Paths(Vec<SimpleFunctionPath>),
}

/// A root document.
#[derive(Clone, Debug, PartialEq, Eq)]
pub struct RootServerlessConfig {
    pub functions: FunctionCollection,
}

pub open spec fn paths_view(ps: Seq<SimpleFunctionPath>) -> Seq<Seq<char>> {
    ps.map_values(|p: SimpleFunctionPath| p.path@)
}

/// Resolves one item of the `functions` list, which must be a text.
pub open spec fn reference_decoder() -> spec_fn(Node) -> Result<Seq<char>, ConfigError> {
    |n: Node|
        match n {
            Node::Text(s) => reference_of(s@),
            _ => Err(ConfigError::DecodeError),
        }
}

/// The file references of a root document: its `functions` key holds a sequence of
/// `${file(...)}` scalars, resolved in order.
pub open spec fn root_of(n: Node) -> Result<Seq<Seq<char>>, ConfigError> {
    match n {
        Node::Mapping(es) => match lookup(es@, "functions"@) {
            Some(Node::Sequence(items)) => collect_all(items@, reference_decoder()),
            _ => Err(ConfigError::DecodeError),
        },
        _ => Err(ConfigError::DecodeError),
    }
}

/// Reads a root document, resolving its file references in order and stopping at the
/// first that fails.
pub fn decode_root(n: &Node) -> (r: Result<RootServerlessConfig, ConfigError>)
    ensures
        match r {
            Ok(c) => match c.functions {
                FunctionCollection::Paths(ps) => root_of(*n) == Ok::<_, ConfigError>(
                    paths_view(ps@),
                ),
            },
            Err(e) => root_of(*n) == Err::<Seq<Seq<char>>, _>(e),
        },
{
    let es = match n {
        Node::Mapping(es) => es,
        _ => {
            return Err(ConfigError::DecodeError);
        },
    };
    let items = match find_entry(es, "functions") {
        Some(Node::Sequence(items)) => items,
        _ => {
            return Err(ConfigError::DecodeError);
        },
    };
    let ghost f = reference_decoder();
    let mut out: Vec<SimpleFunctionPath> = Vec::new();
    let mut i: usize = 0;
    assert(items@.subrange(0, 0) =~= Seq::<Node>::empty());
    assert(paths_view(out@) =~= Seq::<Seq<char>>::empty());
    while i < items.len()
        invariant
            i <= items@.len(),
            f == reference_decoder(),
            root_of(*n) == collect_all(items@, f),
            collect_all(items@.subrange(0, i as int), f) == Ok::<_, ConfigError>(paths_view(out@)),
        decreases items.len() - i,
    {
        let ghost pre = items@.subrange(0, i + 1);
        assert(pre.drop_last() =~= items@.subrange(0, i as int));
        assert(pre.last() == items@[i as int]);
        let item = match &items[i] {
            Node::Text(s) => parse_file_reference(s.as_str()),
            _ => Err(ConfigError::DecodeError),
        };
        match item {
            Ok(p) => {
                let ghost before = out@;
                let ghost pv = p.path@;
                out.push(p);
                proof {
                    assert(paths_view(out@) =~= paths_view(before).push(pv));
                }
            },
            Err(e) => {
                proof {
                    lemma_collect_fails_early(items@, f, i + 1);
                }
                return Err(e);
            },
        }
        i = i + 1;
    }
    assert(items@.subrange(0, items@.len() as int) =~= items@);
    Ok(RootServerlessConfig { functions: FunctionCollection::Paths(out) })
}

} // verus!
