//! The search query: what to look for and where, built from three lines of
//! input and validated.

use crate::text::{lowercase, split_whitespace, texts, to_lowercase, trim, trimmed, words};
use vstd::prelude::*;

verus! {

/// Why three lines of input make no query.
#[derive(Clone, Copy, Debug, PartialEq, Eq, Structural)]
pub enum QueryError {
    /// The line that names the directory to search is blank.
    EmptyRoot,
    /// Neither a name fragment nor an extension was given.
    NothingToSearchFor,
}

/// A validated query. The root, the name fragment and the extensions are in
/// lowercase; the extensions keep the order in which they were typed.
pub struct SearchQuery {
    root: String,
    name_fragment: String,
    extensions: Vec<String>,
}

/// What a query holds.
pub struct QueryView {
    pub root: Seq<char>,
    pub name_fragment: Seq<char>,
    pub extensions: Seq<Seq<char>>,
}

impl QueryView {
    /// A query names a root, and a name fragment or at least one extension.
    pub open spec fn well_formed(self) -> bool {
        &&& self.root.len() > 0
        &&& (self.name_fragment.len() > 0 || self.extensions.len() > 0)
    }
}

impl View for SearchQuery {
    type V = QueryView;

    closed spec fn view(&self) -> QueryView {
        QueryView {
            root: self.root@,
            name_fragment: self.name_fragment@,
            extensions: texts(self.extensions@),
        }
    }
}

/// Each text of a sequence in lowercase.
pub open spec fn lowercase_each(items: Seq<Seq<char>>) -> Seq<Seq<char>> {
    Seq::new(items.len(), |i: int| lowercase(items[i]))
}

/// The fault that validation finds in three lines of input, if any: a blank
/// root first, then the lack of both a name fragment and extensions.
pub open spec fn rejection(
    path_line: Seq<char>,
    name_line: Seq<char>,
    extensions_line: Seq<char>,
) -> Option<QueryError> {
    if trim(path_line).len() == 0 {
        Some(QueryError::EmptyRoot)
    } else if trim(name_line).len() == 0 && words(extensions_line).len() == 0 {
        Some(QueryError::NothingToSearchFor)
    } else {
        None
    }
}

/// The query that three lines of input stand for: root and name fragment
/// trimmed and in lowercase, the extensions split on whitespace and in
/// lowercase.
pub open spec fn parsed(
    path_line: Seq<char>,
    name_line: Seq<char>,
    extensions_line: Seq<char>,
) -> QueryView {
    QueryView {
        root: lowercase(trim(path_line)),
        name_fragment: lowercase(trim(name_line)),
        extensions: lowercase_each(words(extensions_line)),
    }
}

/// The extensions that a line of input lists: its words, each in lowercase,
/// in the order typed. A leading dot is kept as typed.
pub fn get_extensions(extensions_string: String) -> (extensions: Vec<String>)
    ensures
        texts(extensions@) == lowercase_each(words(extensions_string@)),
{
    let typed = split_whitespace(extensions_string.as_str());
    let mut extensions: Vec<String> = Vec::new();
    let mut at: usize = 0;
    while at < typed.len()
        invariant
            at <= typed.len(),
            extensions.len() == at,
            forall|i: int| 0 <= i < at ==> extensions@[i]@ == lowercase(#[trigger] typed@[i]@),
        decreases typed.len() - at,
    {
        extensions.push(to_lowercase(typed[at].as_str()));
        at += 1;
    }
    extensions
}

impl SearchQuery {
    #[verifier::type_invariant]
    spec fn valid(self) -> bool {
        self@.well_formed()
    }

    /// The directory at which the search starts.
    pub fn root(&self) -> (root: &String)
        ensures
            root@ == self@.root,
            self@.well_formed(),
    {
        proof {
            use_type_invariant(self);
        }
        &self.root
    }

    /// The fragment that a matching name contains; empty when the query goes
    /// by extension alone.
    pub fn name_fragment(&self) -> (fragment: &String)
        ensures
            fragment@ == self@.name_fragment,
            self@.well_formed(),
    {
        proof {
            use_type_invariant(self);
        }
        &self.name_fragment
    }

    /// The extensions that a matching file may have; empty when the query
    /// goes by name alone.
    pub fn extensions(&self) -> (extensions: &Vec<String>)
        ensures
            texts(extensions@) == self@.extensions,
            self@.well_formed(),
    {
        proof {
            use_type_invariant(self);
        }
        &self.extensions
    }
}

/// Builds the query from the three lines as they were typed. The root and the
/// name fragment are trimmed, and the lines are validated before anything is
/// put in lowercase.
pub fn get_search_data(path_line: &str, name_line: &str, extensions_line: &str) -> (outcome: Result<
    SearchQuery,
    QueryError,
>)
    ensures
        match outcome {
            Ok(query) => {
                &&& rejection(path_line@, name_line@, extensions_line@) is None
                &&& query@ == parsed(path_line@, name_line@, extensions_line@)
                &&& query@.well_formed()
            },
            Err(fault) => rejection(path_line@, name_line@, extensions_line@) == Some(fault),
        },
{
    let search_path = trimmed(path_line);
    let search_name = trimmed(name_line);
    let extensions = get_extensions(extensions_line.to_owned());
    assert(texts(extensions@).len() == words(extensions_line@).len());
    if search_path.as_str().is_empty() {
        return Err(QueryError::EmptyRoot);
    }
    if search_name.as_str().is_empty() && extensions.len() == 0 {
        return Err(QueryError::NothingToSearchFor);
    }
    let root = to_lowercase(search_path.as_str());
    let name_fragment = to_lowercase(search_name.as_str());
    Ok(SearchQuery { root, name_fragment, extensions })
}

} // verus!
