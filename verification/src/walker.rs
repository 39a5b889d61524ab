//! The walk, one entry at a time. The walker keeps what is still to be
//! visited and decides what is reported and what is listed next; its caller
//! lists the directories and hands the listings back.

use crate::entry::{entry_matches, is_match, DirEntry, EntryKind, EntryView};
use crate::query::{QueryView, SearchQuery};
use crate::report::{object_was_found, report_of, Elapsed, MatchResult, MatchView, SearchStats};
use vstd::prelude::*;

verus! {

/// What the walker asks of its caller.
#[derive(Debug)]
pub enum Request {
    /// An entry was visited. `found` is the match to report, if the entry
    /// matches; `list` is the directory to list and hand to the next step,
    /// if the entry is one.
    Visit { found: Option<MatchResult>, list: Option<String> },
    /// Nothing is left to visit.
    Done,
}

/// What a request holds.
pub enum RequestView {
    Visit { found: Option<MatchView>, list: Option<Seq<char>> },
    Done,
}

impl View for Request {
    type V = RequestView;

    open spec fn view(&self) -> RequestView {
        match *self {
            Request::Visit { found, list } => RequestView::Visit {
                found: match found {
                    Some(result) => Some(result@),
                    None => None,
                },
                list: match list {
                    Some(path) => Some(path@),
                    None => None,
                },
            },
            Request::Done => RequestView::Done,
        }
    }
}

/// The state of a walk.
pub struct Walker {
    query: SearchQuery,
    /// The entries still to visit, the next one last.
    pending: Vec<DirEntry>,
    /// Whether the entry visited last is a directory whose listing is due.
    awaiting: bool,
    count: u64,
}

/// The state of a walk, as the contracts see it.
pub struct WalkerView {
    pub query: QueryView,
    /// The entries still to visit, the next one first.
    pub agenda: Seq<EntryView>,
    /// Whether the next step takes a listing.
    pub awaiting: bool,
    /// The number of matches so far.
    pub count: nat,
}

/// What a sequence of entries holds.
pub open spec fn entry_views(entries: Seq<DirEntry>) -> Seq<EntryView> {
    Seq::new(entries.len(), |i: int| entries[i]@)
}

/// What a listing holds; `None` stands for a directory that could not be
/// listed.
pub open spec fn listing_view(listing: Option<Vec<DirEntry>>) -> Option<Seq<EntryView>> {
    match listing {
        Some(entries) => Some(entry_views(entries@)),
        None => None,
    }
}

/// The agenda once a listing has been handed in: the listed entries come
/// before everything that was pending. A listing that was not asked for is
/// dropped, and a listing that is due but missing adds nothing.
pub open spec fn agenda_with(state: WalkerView, listing: Option<Seq<EntryView>>) -> Seq<EntryView> {
    if state.awaiting && listing is Some {
        listing->0 + state.agenda
    } else {
        state.agenda
    }
}

/// The state after a step.
pub open spec fn state_after(state: WalkerView, listing: Option<Seq<EntryView>>) -> WalkerView {
    let agenda = agenda_with(state, listing);
    if agenda.len() == 0 {
        WalkerView { query: state.query, agenda, awaiting: false, count: state.count }
    } else {
        WalkerView {
            query: state.query,
            agenda: agenda.skip(1),
            awaiting: agenda[0].kind == EntryKind::Directory,
            count: if entry_matches(state.query, agenda[0]) {
                state.count + 1
            } else {
                state.count
            },
        }
    }
}

/// The request that a step returns.
pub open spec fn request_of(
    state: WalkerView,
    listing: Option<Seq<EntryView>>,
    elapsed: Elapsed,
) -> RequestView {
    let agenda = agenda_with(state, listing);
    if agenda.len() == 0 {
        RequestView::Done
    } else {
        RequestView::Visit {
            found: if entry_matches(state.query, agenda[0]) {
                Some(report_of(agenda[0], elapsed))
            } else {
                None
            },
            list: if agenda[0].kind == EntryKind::Directory {
                Some(agenda[0].path)
            } else {
                None
            },
        }
    }
}

/// The entries of a stack, the top first.
pub open spec fn top_first(pending: Seq<DirEntry>) -> Seq<EntryView> {
    Seq::new(pending.len(), |i: int| pending[pending.len() - 1 - i]@)
}

impl View for Walker {
    type V = WalkerView;

    closed spec fn view(&self) -> WalkerView {
        WalkerView {
            query: self.query@,
            agenda: top_first(self.pending@),
            awaiting: self.awaiting,
            count: self.count as nat,
        }
    }
}

impl Walker {
    /// A walk that has not begun: nothing is pending, and the first step
    /// takes the listing of the query's root.
    pub fn new(query: SearchQuery) -> (walker: Walker)
        ensures
            walker@ == (WalkerView {
                query: query@,
                agenda: Seq::empty(),
                awaiting: true,
                count: 0,
            }),
    {
        let walker = Walker { query, pending: Vec::new(), awaiting: true, count: 0 };
        assert(top_first(walker.pending@) =~= Seq::empty());
        walker
    }

    /// The query of this walk.
    pub fn query(&self) -> (query: &SearchQuery)
        ensures
            query@ == self@.query,
    {
        &self.query
    }

    /// The number of matches so far.
    pub fn count(&self) -> (count: u64)
        ensures
            count == self@.count,
    {
        self.count
    }

    /// The totals of the walk at a given time.
    pub fn stats(&self, elapsed: Elapsed) -> (stats: SearchStats)
        ensures
            stats.count == self@.count,
            stats.elapsed == elapsed,
    {
        SearchStats { count: self.count, elapsed }
    }

    /// Puts the entries of a listing on the stack, the first one on top.
    fn push_listing(&mut self, listing: Vec<DirEntry>)
        ensures
            final(self).query == old(self).query,
            final(self).awaiting == old(self).awaiting,
            final(self).count == old(self).count,
            top_first(final(self).pending@) == entry_views(listing@) + top_first(old(self).pending@),
    {
        let mut listing = listing;
        let ghost listed = entry_views(listing@);
        let ghost before = top_first(self.pending@);
        while listing.len() > 0
            invariant
                self.query == old(self).query,
                self.awaiting == old(self).awaiting,
                self.count == old(self).count,
                entry_views(listing@) + top_first(self.pending@) == listed + before,
            decreases listing.len(),
        {
            let entry = listing.pop().unwrap();
            self.pending.push(entry);
        }
    }

    /// One step of the walk. Takes the listing that the last request asked
    /// for, if it asked for one, and the time since the search began; visits
    /// the next entry, and says what is to be reported and what is to be
    /// listed. A directory is listed whether it matched or not, and a
    /// directory that could not be listed is passed over. The count must
    /// have room for one more match.
    pub fn step(&mut self, listing: Option<Vec<DirEntry>>, elapsed: Elapsed) -> (request: Request)
        requires
            old(self)@.count < u64::MAX,
        ensures
            final(self)@ == state_after(old(self)@, listing_view(listing)),
            request@ == request_of(old(self)@, listing_view(listing), elapsed),
    {
        if self.awaiting {
            match listing {
                Some(entries) => self.push_listing(entries),
                None => {},
            }
        }
        let ghost agenda = top_first(self.pending@);
        match self.pending.pop() {
            None => {
                self.awaiting = false;
                Request::Done
            },
            Some(entry) => {
                assert(top_first(self.pending@) =~= agenda.skip(1));
                let found = if is_match(&self.query, &entry) {
                    Some(object_was_found(&entry.path, entry.size_bytes, elapsed, &mut self.count))
                } else {
                    None
                };
                let list = match entry.kind {
                    EntryKind::Directory => Some(entry.path),
                    _ => None,
                };
                self.awaiting = list.is_some();
                Request::Visit { found, list }
            },
        }
    }
}

} // verus!
