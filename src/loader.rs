use vstd::prelude::*;
use crate::error::ConfigError;
use crate::event::EventView;
use crate::function::{FunctionTable, decode_table, functions_view, table_of};
use crate::reference::{FunctionCollection, RootServerlessConfig, decode_root, paths_view, root_of};
use crate::yaml::{read_document, yaml_document};

verus! {

/// What was found at the path that a file reference resolves to.
#[derive(Debug, PartialEq, Eq)]
pub enum Probe {
    /// Nothing exists there.
    Missing,
    /// A directory.
    Directory,
    /// A regular file, with the text it holds.
    Document(String),
}

/// The function table of one referenced path: only a regular file is read.
pub open spec fn target_table_of(p: Probe) -> Result<
    Seq<(Seq<char>, Seq<char>, Seq<EventView>)>,
    ConfigError,
> {
    match p {
        Probe::Missing => Err(ConfigError::PathNotFound),
        Probe::Directory => Err(ConfigError::PathIsDirectory),
        Probe::Document(text) => match yaml_document(text@) {
            Some(n) => table_of(n),
            None => Err(ConfigError::DecodeError),
        },
    }
}

/// The file references of a root document given as text.
pub open spec fn root_text_of(text: Seq<char>) -> Result<Seq<Seq<char>>, ConfigError> {
    match yaml_document(text) {
        Some(n) => root_of(n),
        None => Err(ConfigError::DecodeError),
    }
}

/// Reads a root document from its text.
pub fn read_root(text: &str) -> (r: Result<RootServerlessConfig, ConfigError>)
    ensures
        match r {
            Ok(c) => match c.functions {
                FunctionCollection::Paths(ps) => root_text_of(text@) == Ok::<_, ConfigError>(
                    paths_view(ps@),
                ),
            },
            Err(e) => root_text_of(text@) == Err::<Seq<Seq<char>>, _>(e),
        },
{
    match read_document(text) {
        Ok(n) => decode_root(&n),
        Err(e) => Err(e),
    }
}

/// Loads the function table at one referenced path.
pub fn load_target(p: Probe) -> (r: Result<FunctionTable, ConfigError>)
    ensures
        match r {
            Ok(t) => target_table_of(p) == Ok::<_, ConfigError>(functions_view(t.0@)),
            Err(e) => target_table_of(p) == Err::<Seq<(Seq<char>, Seq<char>, Seq<EventView>)>, _>(e),
        },
{
    match p {
        Probe::Missing => Err(ConfigError::PathNotFound),
        Probe::Directory => Err(ConfigError::PathIsDirectory),
        Probe::Document(text) => match read_document(text.as_str()) {
            Ok(n) => decode_table(n),
            Err(e) => Err(e),
        },
    }
}

} // verus!
