use vstd::prelude::*;
use crate::error::ConfigError;

verus! {

/// Where a handler lives: a module path (no extension) and the identifier it exports.
#[derive(Clone, Debug, PartialEq, Eq)]
pub struct HandlerLocation {
    pub source_file_location: String,
    pub identifier: String,
}

/// The index of the last `.` of `s`, if it has one.
pub open spec fn last_dot(s: Seq<char>) -> Option<int>
    decreases s.len(),
{
    if s.len() == 0 {
        None
    } else if s.last() == '.' {
        Some(s.len() - 1)
    } else {
        last_dot(s.drop_last())
    }
}

/// A handler locator split at its last `.`: module path and identifier.
pub open spec fn handler_parts(s: Seq<char>) -> Option<(Seq<char>, Seq<char>)> {
    match last_dot(s) {
        Some(i) => Some((s.subrange(0, i), s.subrange(i + 1, s.len() as int))),
        None => None,
    }
}

proof fn lemma_last_dot(s: Seq<char>)
    ensures
        match last_dot(s) {
            Some(i) => 0 <= i < s.len() && s[i] == '.' && forall|j: int| i < j < s.len() ==> s[j]
                != '.',
            None => forall|j: int| 0 <= j < s.len() ==> s[j] != '.',
        },
    decreases s.len(),
{
    if s.len() > 0 && s.last() != '.' {
        lemma_last_dot(s.drop_last());
        assert forall|j: int| 0 <= j < s.len() - 1 implies s[j] == s.drop_last()[j] by {}
    }
}

/// Splitting a handler locator at its last `.` and joining the two parts with a `.`
/// gives the locator back, and the identifier holds no `.`; a locator without any `.`
/// has no split.
pub proof fn lemma_handler_rejoins(s: Seq<char>)
    ensures
        (exists|j: int| 0 <= j < s.len() && s[j] == '.') <==> handler_parts(s) is Some,
        handler_parts(s) matches Some(p) ==> p.0 + seq!['.'] + p.1 == s && !p.1.contains('.'),
{
    lemma_last_dot(s);
    if let Some(i) = last_dot(s) {
        assert(s.subrange(0, i) + seq!['.'] + s.subrange(i + 1, s.len() as int) =~= s);
        let id = s.subrange(i + 1, s.len() as int);
        assert forall|k: int| 0 <= k < id.len() implies id[k] != '.' by {
            assert(id[k] == s[i + 1 + k]);
        }
    }
}

impl HandlerLocation {
    /// Parses `<module-path>.<identifier>`, splitting at the last `.`.
    pub fn from_str(s: &str) -> (r: Result<HandlerLocation, ConfigError>)
        ensures
            match r {
                Ok(h) => handler_parts(s@) == Some((h.source_file_location@, h.identifier@)),
                Err(e) => handler_parts(s@) is None && e == ConfigError::InvalidHandlerFormat,
            },
    {
        let n = s.unicode_len();
        let mut i: usize = n;
        assert(s@.subrange(0, n as int) =~= s@);
        while i > 0
            invariant
                i <= n,
                n == s@.len(),
                last_dot(s@) == last_dot(s@.subrange(0, i as int)),
            decreases i,
        {
            let ghost pre = s@.subrange(0, i as int);
            assert(pre.drop_last() =~= s@.subrange(0, i - 1));
            if s.get_char(i - 1) == '.' {
                let src = s.substring_char(0, i - 1);
                let ident = s.substring_char(i, n);
                return Ok(
                    HandlerLocation {
                        source_file_location: String::from_str(src),
                        identifier: String::from_str(ident),
                    },
                );
            }
            i = i - 1;
        }
        Err(ConfigError::InvalidHandlerFormat)
    }
}

} // verus!
