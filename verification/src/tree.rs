//! A directory tree held in memory, what a walk over it visits, and the walk
//! itself, made by the walker.

use crate::entry::{entry_matches, DirEntry, EntryKind, EntryView};
use crate::query::{QueryView, SearchQuery};
use crate::report::{report_of, Elapsed, MatchResult, MatchView, SearchStats};
use crate::walker::{entry_views, Request, Walker};
use vstd::prelude::*;

verus! {

/// An entry together with what is below it.
#[derive(Debug)]
pub struct Tree {
    pub entry: DirEntry,
    /// The listing of the directory; `None` where it cannot be listed. A walk
    /// never looks below an entry that is no directory.
    pub children: Option<Vec<Tree>>,
}

/// The entries that a walk over the trees of a listing visits, in the order
/// in which it visits them: each entry, then what is below it where it is a
/// directory that can be listed, then the entries after it.
pub open spec fn visited(forest: Seq<Tree>) -> Seq<EntryView>
    decreases forest,
{
    if forest.len() == 0 {
        Seq::empty()
    } else {
        let first = forest[0];
        let below = if first.entry.kind == EntryKind::Directory && first.children is Some {
            visited(first.children->0@)
        } else {
            Seq::empty()
        };
        seq![first.entry@] + below + visited(forest.skip(1))
    }
}

/// The trees of a listing; none where the directory cannot be listed.
pub open spec fn forest_of(listing: Option<Vec<Tree>>) -> Seq<Tree> {
    match listing {
        Some(trees) => trees@,
        None => Seq::empty(),
    }
}

/// The trees into which a walk descends from a tree.
pub open spec fn descent(tree: Tree) -> Seq<Tree> {
    if tree.entry.kind == EntryKind::Directory {
        forest_of(tree.children)
    } else {
        Seq::empty()
    }
}

/// The entries at the top of a forest.
pub open spec fn roots(forest: Seq<Tree>) -> Seq<EntryView> {
    Seq::new(forest.len(), |i: int| forest[i].entry@)
}

/// The rule of a query as a predicate on entries.
pub open spec fn matching(query: QueryView) -> spec_fn(EntryView) -> bool {
    |entry: EntryView| entry_matches(query, entry)
}

/// The entries among `entries` that the query matches, in their order.
pub open spec fn found_among(query: QueryView, entries: Seq<EntryView>) -> Seq<EntryView> {
    entries.filter(matching(query))
}

/// The entries that a walk over a forest reports: those that it visits and
/// that the query matches, in the order of the walk.
pub open spec fn found_in(query: QueryView, forest: Seq<Tree>) -> Seq<EntryView> {
    found_among(query, visited(forest))
}

/// The results that report a sequence of entries, all found at one time.
pub open spec fn reports_of(entries: Seq<EntryView>, elapsed: Elapsed) -> Seq<MatchView> {
    Seq::new(entries.len(), |i: int| report_of(entries[i], elapsed))
}

/// What a sequence of results holds.
pub open spec fn match_views(results: Seq<MatchResult>) -> Seq<MatchView> {
    Seq::new(results.len(), |i: int| results[i]@)
}

/// A walk over two listings in a row visits what a walk over the first
/// visits, then what a walk over the second visits.
pub proof fn lemma_visited_concat(first: Seq<Tree>, second: Seq<Tree>)
    ensures
        visited(first + second) == visited(first) + visited(second),
    decreases first.len(),
{
    if first.len() > 0 {
        assert((first + second).skip(1) =~= first.skip(1) + second);
        lemma_visited_concat(first.skip(1), second);
    }
}

/// A walk visits the first entry of a forest, and then what a walk visits
/// that starts below that entry and goes on with the entries after it.
pub proof fn lemma_visited_first(forest: Seq<Tree>)
    requires
        forest.len() > 0,
    ensures
        visited(forest) == seq![forest[0].entry@] + visited(descent(forest[0]) + forest.skip(1)),
{
    lemma_visited_concat(descent(forest[0]), forest.skip(1));
}

/// The matches of a sequence of entries that begins with `entry`.
pub proof fn lemma_found_first(query: QueryView, entry: EntryView, rest: Seq<EntryView>)
    ensures
        found_among(query, seq![entry] + rest) == (if entry_matches(query, entry) {
            seq![entry]
        } else {
            Seq::empty()
        }) + found_among(query, rest),
{
    rest.lemma_filter_prepend(entry, matching(query));
}

/// Takes a listing apart: returns its entries in their order, and puts what
/// is below each of them on the stack, what is below the first one on top.
fn unload(trees: Vec<Tree>, below: &mut Vec<Option<Vec<Tree>>>) -> (entries: Vec<DirEntry>)
    ensures
        entry_views(entries@) == roots(trees@),
        final(below)@.len() == old(below)@.len() + trees@.len(),
        forall|i: int| 0 <= i < old(below)@.len() ==> final(below)@[i] == old(below)@[i],
        forall|i: int|
            0 <= i < trees@.len() ==> final(below)@[final(below)@.len() - 1 - i]
                == #[trigger] trees@[i].children,
{
    let mut trees = trees;
    let ghost whole = trees@;
    let mut reversed: Vec<DirEntry> = Vec::new();
    while trees.len() > 0
        invariant
            trees@ == whole.take(trees@.len() as int),
            trees@.len() <= whole.len(),
            reversed@.len() == whole.len() - trees@.len(),
            below@.len() == old(below)@.len() + reversed@.len(),
            forall|i: int| 0 <= i < old(below)@.len() ==> below@[i] == old(below)@[i],
            forall|i: int|
                0 <= i < reversed@.len() ==> reversed@[i]@ == (#[trigger] whole[whole.len() - 1
                    - i]).entry@,
            forall|i: int|
                0 <= i < reversed@.len() ==> below@[old(below)@.len() + i] == (
                #[trigger] whole[whole.len() - 1 - i]).children,
        decreases trees.len(),
    {
        let Tree { entry, children } = trees.pop().unwrap();
        reversed.push(entry);
        below.push(children);
    }
    let mut entries: Vec<DirEntry> = Vec::new();
    while reversed.len() > 0
        invariant
            entries@.len() + reversed@.len() == whole.len(),
            forall|i: int| 0 <= i < entries@.len() ==> entries@[i]@ == (#[trigger] whole[i]).entry@,
            forall|i: int|
                0 <= i < reversed@.len() ==> reversed@[i]@ == (#[trigger] whole[whole.len() - 1
                    - i]).entry@,
        decreases reversed.len(),
    {
        let ghost at = entries@.len() as int;
        let entry = reversed.pop().unwrap();
        assert(entry@ == whole[whole.len() - 1 - (whole.len() - 1 - at)].entry@);
        entries.push(entry);
    }
    assert forall|i: int| 0 <= i < whole.len() implies below@[below@.len() - 1 - i]
        == #[trigger] whole[i].children by {
        assert(below@[old(below)@.len() + (whole.len() - 1 - i)] == whole[whole.len() - 1 - (
        whole.len() - 1 - i)].children);
    }
    entries
}

/// Walks a tree held in memory: runs the walker from its first step to its
/// last, answering each request for a listing from the tree. Returns the
/// matches in the order in which they were found, and the totals; `None`
/// where the matches are too many to count.
pub fn search_files(query: SearchQuery, listing: Option<Vec<Tree>>, elapsed: Elapsed) -> (outcome:
    Option<(Vec<MatchResult>, SearchStats)>)
    ensures
        match outcome {
            Some((found, stats)) => {
                &&& found_in(query@, forest_of(listing)).len() < u64::MAX
                &&& match_views(found@) == reports_of(
                    found_in(query@, forest_of(listing)),
                    elapsed,
                )
                &&& stats.count == found@.len()
                &&& stats.elapsed == elapsed
            },
            None => found_in(query@, forest_of(listing)).len() >= u64::MAX,
        },
{
    let ghost q = query@;
    let ghost whole = forest_of(listing);
    let mut walker = Walker::new(query);
    let mut below: Vec<Option<Vec<Tree>>> = Vec::new();
    let mut found: Vec<MatchResult> = Vec::new();
    let mut answer = listing;
    let ghost mut ahead: Seq<Tree> = Seq::empty();
    let ghost mut seen: Seq<EntryView> = Seq::empty();
    proof {
        assert(match_views(found@) =~= reports_of(found_among(q, seen), elapsed)) by {
            assert(found_among(q, seen) =~= Seq::empty()) by {
                seen.lemma_filter_len(matching(q));
            }
        }
    }
    loop
        invariant
            q == query@,
            whole == forest_of(listing),
            walker@.query == q,
            walker@.agenda == roots(ahead),
            walker@.awaiting || answer is None,
            walker@.count == found@.len(),
            below@.len() == ahead.len(),
            forall|i: int|
                0 <= i < ahead.len() ==> below@[below@.len() - 1 - i] == (#[trigger] ahead[i]).children,
            seen + visited(forest_of(answer) + ahead) == visited(whole),
            match_views(found@) == reports_of(found_among(q, seen), elapsed),
        decreases visited(forest_of(answer) + ahead).len(),
    {
        let ghost work = forest_of(answer) + ahead;
        proof {
            assert(found@.len() == found_among(q, seen).len()) by {
                assert(match_views(found@).len() == found@.len());
            }
            Seq::filter_distributes_over_add(seen, visited(work), matching(q));
        }
        if walker.count() == u64::MAX {
            return None;
        }
        let entries = match answer {
            Some(trees) => Some(unload(trees, &mut below)),
            None => None,
        };
        proof {
            assert forall|i: int| 0 <= i < work.len() implies below@[below@.len() - 1 - i]
                == #[trigger] work[i].children by {}
            ahead = work;
        }
        let request = walker.step(entries, elapsed);
        match request {
            Request::Done => {
                return Some((found, walker.stats(elapsed)));
            },
            Request::Visit { found: hit, list } => {
                let kids = below.pop().unwrap();
                let ghost first = ahead[0];
                proof {
                    lemma_visited_first(ahead);
                }
                let ghost before = found@;
                match hit {
                    Some(result) => {
                        found.push(result);
                    },
                    None => {},
                }
                answer = match list {
                    Some(_) => kids,
                    None => None,
                };
                proof {
                    let grown = seen.push(first.entry@);
                    seen.lemma_filter_push(first.entry@, matching(q));
                    let old_hits = found_among(q, seen);
                    let new_hits = found_among(q, grown);
                    assert forall|i: int| 0 <= i < found@.len() implies #[trigger] match_views(
                        found@,
                    )[i] == reports_of(new_hits, elapsed)[i] by {
                        if i < before.len() {
                            assert(match_views(before)[i] == reports_of(old_hits, elapsed)[i]);
                        }
                    }
                    seen = grown;
                    ahead = ahead.skip(1);
                }
            },
        }
    }
}

} // verus!
