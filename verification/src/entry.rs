//! Directory entries as the walk sees them, and the rule that decides which
//! of them a query matches.

use crate::query::{QueryView, SearchQuery};
use crate::text::{contains, is_substring, lowercase, texts, to_lowercase};
use vstd::prelude::*;

verus! {

/// What kind of thing an entry is. A link counts as what it leads to.
#[derive(Clone, Copy, Debug, PartialEq, Eq, Structural)]
pub enum EntryKind {
    Directory,
    File,
    /// Neither a directory nor a regular file: a socket, a device, a link
    /// that leads nowhere.
    Other,
}

/// One entry of a directory listing, with what the file system reports of it.
#[derive(Debug)]
pub struct DirEntry {
    /// The path of the entry, as it is shown and as it is listed.
    pub path: String,
    /// The name without its extension, as reported; `None` where the entry
    /// has no name or the name is not text.
    pub stem: Option<String>,
    /// The part of the name after its last dot, as reported; `None` where
    /// the name has none.
    pub extension: Option<String>,
    pub kind: EntryKind,
    /// The size in bytes, where it could be read.
    pub size_bytes: Option<u64>,
}

/// What an entry holds.
pub struct EntryView {
    pub path: Seq<char>,
    pub stem: Option<Seq<char>>,
    pub extension: Option<Seq<char>>,
    pub kind: EntryKind,
    pub size_bytes: Option<u64>,
}

/// The text of an optional string.
pub open spec fn part_view(part: Option<String>) -> Option<Seq<char>> {
    match part {
        Some(text) => Some(text@),
        None => None,
    }
}

impl View for DirEntry {
    type V = EntryView;

    open spec fn view(&self) -> EntryView {
        EntryView {
            path: self.path@,
            stem: part_view(self.stem),
            extension: part_view(self.extension),
            kind: self.kind,
            size_bytes: self.size_bytes,
        }
    }
}

/// The form in which a part of a name is compared: in lowercase, and empty
/// where the part is missing.
pub open spec fn normal_form(part: Option<Seq<char>>) -> Seq<char> {
    lowercase(
        match part {
            Some(text) => text,
            None => Seq::empty(),
        },
    )
}

/// The rule of the search. A directory matches by name, and only where the
/// query names no extension. A regular file matches by extension where the
/// query has no name fragment, else by name and, where extensions are given,
/// by extension too. Anything else matches by extension alone, and only where
/// the query has no name fragment.
pub open spec fn entry_matches(query: QueryView, entry: EntryView) -> bool {
    let stem = normal_form(entry.stem);
    let extension = normal_form(entry.extension);
    let no_extensions = query.extensions.len() == 0;
    let no_name = query.name_fragment.len() == 0;
    match entry.kind {
        EntryKind::Directory => no_extensions && is_substring(query.name_fragment, stem),
        EntryKind::File => if no_name {
            query.extensions.contains(extension)
        } else {
            is_substring(query.name_fragment, stem) && (no_extensions || query.extensions.contains(
                extension,
            ))
        },
        EntryKind::Other => no_name && query.extensions.contains(extension),
    }
}

/// A part of a name in the form in which it is compared.
pub fn normalized(part: &Option<String>) -> (text: String)
    ensures
        text@ == normal_form(part_view(*part)),
{
    match part {
        Some(reported) => to_lowercase(reported.as_str()),
        None => {
            let nothing = String::new();
            to_lowercase(nothing.as_str())
        },
    }
}

/// Whether `wanted` is one of `extensions`.
pub fn has_extension(extensions: &Vec<String>, wanted: &String) -> (found: bool)
    ensures
        found == texts(extensions@).contains(wanted@),
{
    let mut at: usize = 0;
    while at < extensions.len()
        invariant
            at <= extensions.len(),
            forall|i: int| 0 <= i < at ==> texts(extensions@)[i] != wanted@,
        decreases extensions.len() - at,
    {
        if extensions[at] == *wanted {
            assert(texts(extensions@)[at as int] == wanted@);
            return true;
        }
        at += 1;
    }
    false
}

/// Decides whether the query matches the entry.
pub fn is_match(query: &SearchQuery, entry: &DirEntry) -> (matched: bool)
    ensures
        matched == entry_matches(query@, entry@),
{
    let extensions = query.extensions();
    let no_extensions = extensions.len() == 0;
    let no_name = query.name_fragment().as_str().is_empty();
    match entry.kind {
        EntryKind::Directory => {
            no_extensions && contains(
                normalized(&entry.stem).as_str(),
                query.name_fragment().as_str(),
            )
        },
        EntryKind::File => {
            if no_name {
                has_extension(extensions, &normalized(&entry.extension))
            } else {
                contains(normalized(&entry.stem).as_str(), query.name_fragment().as_str()) && (
                no_extensions || has_extension(extensions, &normalized(&entry.extension)))
            }
        },
        EntryKind::Other => {
            no_name && has_extension(extensions, &normalized(&entry.extension))
        },
    }
}

} // verus!
