//! The shader sources that have been read so far, keyed by resolved path.

use vstd::prelude::*;
use crate::names::NameMap;

verus! {

/// The outcome of reading one source file: its text, or why it could not be read.
pub open spec fn content_view(c: Result<String, String>) -> Result<Seq<char>, Seq<char>> {
    match c {
        Ok(text) => Ok(text@),
        Err(reason) => Err(reason@),
    }
}

/// The sources read so far: for each resolved path, its text or why it could
/// not be read.
pub struct SourceTable {
    entries: NameMap<Result<String, String>>,
}

impl SourceTable {
    /// An empty table.
    pub fn new() -> (r: SourceTable)
        ensures
            r@ == Map::<Seq<char>, Result<Seq<char>, Seq<char>>>::empty(),
    {
        let r = SourceTable { entries: NameMap::new() };
        assert(r@ =~= Map::<Seq<char>, Result<Seq<char>, Seq<char>>>::empty());
        r
    }

    /// What reading `path` gave, if the table holds it.
    pub fn lookup(&self, path: &str) -> (r: Option<Result<String, String>>)
        ensures
            match r {
                None => !self@.contains_key(path@),
                Some(c) => self@.contains_key(path@) && self@[path@] == content_view(c),
            },
    {
        match self.entries.get(path) {
            None => None,
            Some(Ok(text)) => Some(Ok(text.clone())),
            Some(Err(reason)) => Some(Err(reason.clone())),
        }
    }

    /// Records what reading `path` gave, replacing an earlier record of that path.
    pub fn insert(&mut self, path: String, content: Result<String, String>)
        ensures
            final(self)@ == old(self)@.insert(path@, content_view(content)),
    {
        let ghost key = path@;
        let ghost value = content_view(content);
        self.entries.insert(path, content);
        assert(self@ =~= old(self)@.insert(key, value));
    }
}

impl View for SourceTable {
    type V = Map<Seq<char>, Result<Seq<char>, Seq<char>>>;

    closed spec fn view(&self) -> Self::V {
        self.entries.map().map_values(|c: Result<String, String>| content_view(c))
    }
}

} // verus!
