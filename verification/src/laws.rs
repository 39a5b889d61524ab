//! What holds of every search: which entries are reported and how often,
//! that the count follows the reports, that a search can be repeated, and
//! that neither a match nor a failure stops the walk.

use crate::entry::{entry_matches, normal_form, EntryKind, EntryView};
use crate::query::QueryView;
use crate::report::{report_of, Elapsed};
use crate::text::{is_substring, is_whitespace, lemma_word_len_bound, word_len, words};
use crate::tree::{
    descent, forest_of, found_among, found_in, lemma_found_first, lemma_visited_concat,
    lemma_visited_first, matching, reports_of, roots, visited, Tree,
};
use crate::walker::{agenda_with, request_of, state_after, RequestView, WalkerView};
use vstd::prelude::*;

verus! {

/// How often an item stands in a sequence.
pub open spec fn occurrences<A>(items: Seq<A>, item: A) -> nat
    decreases items.len(),
{
    if items.len() == 0 {
        0
    } else {
        occurrences(items.drop_last(), item) + if items.last() == item {
            1nat
        } else {
            0nat
        }
    }
}

/// Filtering keeps every occurrence of an item that passes, and none of one
/// that does not.
pub proof fn lemma_occurrences_filter<A>(items: Seq<A>, keep: spec_fn(A) -> bool, item: A)
    ensures
        occurrences(items.filter(keep), item) == if keep(item) {
            occurrences(items, item)
        } else {
            0
        },
    decreases items.len(),
{
    if items.len() == 0 {
        items.lemma_filter_len(keep);
    } else {
        let front = items.drop_last();
        assert(items =~= front.push(items.last()));
        front.lemma_filter_push(items.last(), keep);
        lemma_occurrences_filter(front, keep, item);
        if keep(items.last()) {
            assert(front.filter(keep).push(items.last()).drop_last() =~= front.filter(keep));
        }
    }
}

/// An entry is reported as often as the walk visits it where the query
/// matches it, and never where it does not: nothing is reported twice, and
/// nothing that matches is passed over.
pub proof fn law_reported_as_often_as_visited(
    query: QueryView,
    forest: Seq<Tree>,
    entry: EntryView,
)
    ensures
        occurrences(found_in(query, forest), entry) == if entry_matches(query, entry) {
            occurrences(visited(forest), entry)
        } else {
            0
        },
{
    lemma_occurrences_filter(visited(forest), matching(query), entry);
}

/// Where the query gives a name fragment and no extension, every file and
/// every directory whose stem, in lowercase, contains the fragment is
/// reported once for each time the walk visits it.
pub proof fn law_search_by_name(query: QueryView, forest: Seq<Tree>, entry: EntryView)
    requires
        query.name_fragment.len() > 0,
        query.extensions.len() == 0,
        entry.kind == EntryKind::File || entry.kind == EntryKind::Directory,
        is_substring(query.name_fragment, normal_form(entry.stem)),
    ensures
        occurrences(found_in(query, forest), entry) == occurrences(visited(forest), entry),
{
    law_reported_as_often_as_visited(query, forest, entry);
}

/// Where the query gives extensions and no name fragment, every entry but a
/// directory whose extension, in lowercase, is one of them is reported once
/// for each time the walk visits it, and no directory is reported.
pub proof fn law_search_by_extension(query: QueryView, forest: Seq<Tree>, entry: EntryView)
    requires
        query.well_formed(),
        query.name_fragment.len() == 0,
    ensures
        entry.kind != EntryKind::Directory && query.extensions.contains(
            normal_form(entry.extension),
        )
            ==> occurrences(found_in(query, forest), entry) == occurrences(
            visited(forest),
            entry,
        ),
        entry.kind == EntryKind::Directory ==> occurrences(found_in(query, forest), entry) == 0,
{
    law_reported_as_often_as_visited(query, forest, entry);
}

/// A step counts one match exactly when it hands out one result.
pub proof fn law_count_follows_reports(
    state: WalkerView,
    listing: Option<Seq<EntryView>>,
    elapsed: Elapsed,
)
    ensures
        state_after(state, listing).count == state.count + (match request_of(
            state,
            listing,
            elapsed,
        ) {
            RequestView::Visit { found: Some(_), list: _ } => 1nat,
            _ => 0nat,
        }),
{
}

/// What a tree answers when its listing is asked for.
pub open spec fn listing_of(answer: Option<Vec<Tree>>) -> Option<Seq<EntryView>> {
    match answer {
        Some(trees) => Some(roots(trees@)),
        None => None,
    }
}

/// A step follows the tree. Let the agenda hold the entries at the top of
/// the forest `ahead`, and let `answer` be the listing that is due, if one
/// is. Then the step is done exactly when nothing is left to walk. Else it
/// visits the first entry of what is left, reports it exactly where the
/// query matches it, asks for its listing exactly where it is a directory,
/// and leaves on the agenda the top of what follows, so that the next step
/// can be answered from the tree in the same way.
pub proof fn law_step_follows_the_tree(
    state: WalkerView,
    ahead: Seq<Tree>,
    answer: Option<Vec<Tree>>,
    elapsed: Elapsed,
)
    requires
        state.agenda == roots(ahead),
        state.awaiting || answer is None,
    ensures
        ({
            let work = forest_of(answer) + ahead;
            let next = state_after(state, listing_of(answer));
            let request = request_of(state, listing_of(answer), elapsed);
            if work.len() == 0 {
                request is Done && next.agenda.len() == 0 && !next.awaiting
            } else {
                &&& request == (RequestView::Visit {
                    found: if entry_matches(state.query, work[0].entry@) {
                        Some(report_of(work[0].entry@, elapsed))
                    } else {
                        None
                    },
                    list: if work[0].entry.kind == EntryKind::Directory {
                        Some(work[0].entry.path@)
                    } else {
                        None
                    },
                })
                &&& next.agenda == roots(work.skip(1))
                &&& next.awaiting == (work[0].entry.kind == EntryKind::Directory)
                &&& visited(work) == seq![work[0].entry@] + visited(
                    descent(work[0]) + work.skip(1),
                )
            }
        }),
{
    let work = forest_of(answer) + ahead;
    assert(agenda_with(state, listing_of(answer)) =~= roots(work));
    if work.len() > 0 {
        lemma_visited_first(work);
        assert(roots(work).skip(1) =~= roots(work.skip(1)));
    }
}

/// Two searches with one query over one tree report the same entries in the
/// same order, whatever the times at which they ran.
pub proof fn law_search_is_repeatable(
    query: QueryView,
    forest: Seq<Tree>,
    first_time: Elapsed,
    second_time: Elapsed,
)
    ensures
        reports_of(found_in(query, forest), first_time).len() == reports_of(
            found_in(query, forest),
            second_time,
        ).len(),
        forall|i: int|
            0 <= i < found_in(query, forest).len() ==> {
                let first = #[trigger] reports_of(found_in(query, forest), first_time)[i];
                let second = reports_of(found_in(query, forest), second_time)[i];
                first.path == second.path && first.size_bytes == second.size_bytes
            },
{
}

/// A directory that matches is reported, and the walk still goes through
/// what is below it before it goes on.
pub proof fn law_matching_directory_is_searched(query: QueryView, tree: Tree, after: Seq<Tree>)
    requires
        tree.entry.kind == EntryKind::Directory,
        entry_matches(query, tree.entry@),
    ensures
        found_in(query, seq![tree] + after) == seq![tree.entry@] + found_in(
            query,
            forest_of(tree.children),
        ) + found_in(query, after),
{
    lemma_walk_of_one(tree);
    lemma_visited_concat(seq![tree], after);
    let below = visited(forest_of(tree.children));
    assert(visited(seq![tree] + after) =~= seq![tree.entry@] + (below + visited(after)));
    lemma_found_first(query, tree.entry@, below + visited(after));
    Seq::filter_distributes_over_add(below, visited(after), matching(query));
}

/// A directory that cannot be listed adds nothing but itself to the walk:
/// what stands before it and after it is searched as if it were empty.
pub proof fn law_unreadable_directory_is_skipped(
    query: QueryView,
    before: Seq<Tree>,
    tree: Tree,
    after: Seq<Tree>,
)
    requires
        tree.entry.kind == EntryKind::Directory,
        tree.children is None,
    ensures
        visited(before + seq![tree] + after) == visited(before).push(tree.entry@) + visited(after),
        found_in(query, before + seq![tree] + after) == found_in(query, before) + found_among(
            query,
            seq![tree.entry@],
        ) + found_in(query, after),
{
    lemma_walk_of_one(tree);
    lemma_visited_concat(before, seq![tree]);
    lemma_visited_concat(before + seq![tree], after);
    Seq::filter_distributes_over_add(visited(before), seq![tree.entry@], matching(query));
    Seq::filter_distributes_over_add(
        visited(before) + seq![tree.entry@],
        visited(after),
        matching(query),
    );
}

/// No word is empty, and no word holds whitespace.
pub proof fn law_words_are_solid(text: Seq<char>, at: int)
    requires
        0 <= at < words(text).len(),
    ensures
        words(text)[at].len() > 0,
        forall|i: int| 0 <= i < words(text)[at].len() ==> !is_whitespace(#[trigger] words(text)[at][i]),
    decreases text.len(),
{
    if text.len() > 0 {
        if is_whitespace(text[0]) {
            law_words_are_solid(text.skip(1), at);
        } else {
            lemma_word_len_bound(text);
            if at == 0 {
                lemma_word_is_solid(text);
            } else {
                law_words_are_solid(text.skip(word_len(text) as int), at - 1);
            }
        }
    }
}

/// The characters that `word_len` counts are not whitespace.
proof fn lemma_word_is_solid(text: Seq<char>)
    ensures
        forall|i: int| 0 <= i < word_len(text) ==> !is_whitespace(#[trigger] text[i]),
    decreases text.len(),
{
    if text.len() > 0 && !is_whitespace(text[0]) {
        lemma_word_is_solid(text.skip(1));
        lemma_word_len_bound(text);
        assert forall|i: int| 0 <= i < word_len(text) implies !is_whitespace(
            #[trigger] text[i],
        ) by {
            if i > 0 {
                assert(text[i] == text.skip(1)[i - 1]);
            }
        }
    }
}

/// A walk over a single tree visits its entry, and then, where the entry is
/// a directory, what is below it.
pub proof fn lemma_walk_of_one(tree: Tree)
    ensures
        visited(seq![tree]) == seq![tree.entry@] + if tree.entry.kind == EntryKind::Directory {
            visited(forest_of(tree.children))
        } else {
            Seq::empty()
        },
{
    assert(visited(seq![tree].skip(1)) =~= Seq::empty());
}

} // verus!
