use vstd::prelude::*;
use crate::error::ConfigError;
use crate::text::same_text;

verus! {

/// A decoded YAML document: the tree that the configuration decoders read.
#[derive(Debug, PartialEq, Eq)]
pub enum Node {
    Null,
    Bool(bool),
    /// A number, kept as the text that it reads as.
    Number(String),
    Text(String),
    Sequence(Vec<Node>),
    /// A mapping, its entries in document order.
    Mapping(Vec<(Node, Node)>),
    /// A value under a `!tag`.
    Tagged(String, Box<Node>),
}

/// A value decoded from a string scalar.
#[derive(Copy, Clone, Debug, PartialEq, Eq)]
pub struct SerdeFromString<T>(pub T);

/// The characters of a text node.
pub open spec fn text_of(n: Option<Node>) -> Option<Seq<char>> {
    match n {
        Some(Node::Text(s)) => Some(s@),
        _ => None,
    }
}

/// The value of the first entry whose key is the text `key`.
pub open spec fn lookup(entries: Seq<(Node, Node)>, key: Seq<char>) -> Option<Node>
    decreases entries.len(),
{
    if entries.len() == 0 {
        None
    } else if entries[0].0 is Text && entries[0].0->Text_0@ == key {
        Some(entries[0].1)
    } else {
        lookup(entries.subrange(1, entries.len() as int), key)
    }
}

/// Finds the value of the first entry of a mapping whose key is the text `key`.
pub fn find_entry<'a>(entries: &'a Vec<(Node, Node)>, key: &str) -> (r: Option<&'a Node>)
    ensures
        match r {
            Some(v) => lookup(entries@, key@) == Some(*v),
            None => lookup(entries@, key@) is None,
        },
{
    let mut i: usize = 0;
    assert(entries@.subrange(0, entries@.len() as int) =~= entries@);
    while i < entries.len()
        invariant
            i <= entries@.len(),
            lookup(entries@, key@) == lookup(entries@.subrange(i as int, entries@.len() as int), key@),
        decreases entries.len() - i,
    {
        let ghost rest = entries@.subrange(i as int, entries@.len() as int);
        assert(rest.subrange(1, rest.len() as int) =~= entries@.subrange(i + 1, entries@.len() as int));
        assert(rest[0] == entries@[i as int]);
        match &entries[i].0 {
            Node::Text(k) => {
                if same_text(k.as_str(), key) {
                    return Some(&entries[i].1);
                }
            },
            _ => {},
        }
        i = i + 1;
    }
    None
}

/// Decodes each item with `f`, in order; the first failure is the result.
pub open spec fn collect_all<T, A>(
    items: Seq<T>,
    f: spec_fn(T) -> Result<A, ConfigError>,
) -> Result<Seq<A>, ConfigError>
    decreases items.len(),
{
    if items.len() == 0 {
        Ok(Seq::empty())
    } else {
        match collect_all(items.drop_last(), f) {
            Ok(done) => match f(items.last()) {
                Ok(a) => Ok(done.push(a)),
                Err(e) => Err(e),
            },
            Err(e) => Err(e),
        }
    }
}

/// A failure among the first items is the failure of the whole sequence.
pub proof fn lemma_collect_fails_early<T, A>(
    items: Seq<T>,
    f: spec_fn(T) -> Result<A, ConfigError>,
    j: int,
)
    requires
        0 <= j <= items.len(),
        collect_all(items.subrange(0, j), f) is Err,
    ensures
        collect_all(items, f) == collect_all(items.subrange(0, j), f),
    decreases items.len() - j,
{
    if j == items.len() {
        assert(items.subrange(0, j) =~= items);
    } else {
        assert(items.subrange(0, j + 1).drop_last() =~= items.subrange(0, j));
        lemma_collect_fails_early(items, f, j + 1);
    }
}

/// Finds the position of the first entry of a mapping whose key is the text `key`.
pub fn find_index(entries: &Vec<(Node, Node)>, key: &str) -> (r: Option<usize>)
    ensures
        match r {
            Some(i) => i < entries@.len() && lookup(entries@, key@) == Some(entries@[i as int].1),
            None => lookup(entries@, key@) is None,
        },
{
    let mut i: usize = 0;
    assert(entries@.subrange(0, entries@.len() as int) =~= entries@);
    while i < entries.len()
        invariant
            i <= entries@.len(),
            lookup(entries@, key@) == lookup(entries@.subrange(i as int, entries@.len() as int), key@),
        decreases entries.len() - i,
    {
        let ghost rest = entries@.subrange(i as int, entries@.len() as int);
        assert(rest.subrange(1, rest.len() as int) =~= entries@.subrange(i + 1, entries@.len() as int));
        assert(rest[0] == entries@[i as int]);
        match &entries[i].0 {
            Node::Text(k) => {
                if same_text(k.as_str(), key) {
                    return Some(i);
                }
            },
            _ => {},
        }
        i = i + 1;
    }
    None
}

} // verus!
