//! The state of the history popup: the search text, the entries shown and the
//! selected one.
use vstd::prelude::*;
use vstd::string::StringExecFns;
use crate::config::{lower_of, lowercase};
use crate::entry::{Entry, EntryView};
use crate::storage::views;
use crate::text::{contains_text, occurs_in};

verus! {

/// The name under which the popup's surface is registered.
pub fn namespace() -> (r: String)
    ensures
        r@ == "syo-popup"@,
{
    String::from_str("syo-popup")
}

/// An entry that the popup shows for search text `q`: its text contains `q`,
/// case ignored.
pub open spec fn popup_hit(e: EntryView, q: Seq<char>) -> bool {
    e.content is Some && occurs_in(lower_of(q), lower_of(e.content->0))
}

/// The positions among the first `n` entries that the popup shows for search
/// text `q`: all of them when `q` is empty.
pub open spec fn shown(entries: Seq<EntryView>, q: Seq<char>, n: nat) -> Seq<usize>
    decreases n,
{
    if n == 0 {
        seq![]
    } else {
        let prev = shown(entries, q, (n - 1) as nat);
        if q.len() == 0 || popup_hit(entries[n - 1], q) {
            prev.push((n - 1) as usize)
        } else {
            prev
        }
    }
}

proof fn lemma_shown_in_range(entries: Seq<EntryView>, q: Seq<char>, n: nat)
    ensures
        forall|t: int| 0 <= t < shown(entries, q, n).len() ==> #[trigger] shown(entries, q, n)[t] < n,
        shown(entries, q, n).len() <= n,
    decreases n,
{
    if n > 0 {
        lemma_shown_in_range(entries, q, (n - 1) as nat);
    }
}

/// The popup: its search text, the entries it was opened with, the positions
/// of those shown, and the selected line among them.
pub struct PopupState {
    search: String,
    entries: Vec<Entry>,
    filtered: Vec<usize>,
    selected: usize,
}

impl PopupState {
    pub closed spec fn search_text(&self) -> Seq<char> {
        self.search@
    }

    pub closed spec fn entry_views(&self) -> Seq<EntryView> {
        views(self.entries@)
    }

    pub closed spec fn shown_positions(&self) -> Seq<usize> {
        self.filtered@
    }

    pub closed spec fn selected_line(&self) -> int {
        self.selected as int
    }

    pub closed spec fn wf(&self) -> bool {
        forall|t: int| 0 <= t < self.filtered@.len() ==> #[trigger] self.filtered@[t] < self.entries@.len()
    }

    /// The popup over `entries`, with no search text, every entry shown and
    /// the first selected.
    pub fn new(entries: Vec<Entry>) -> (r: PopupState)
        ensures
            r.wf(),
            r.search_text() == Seq::<char>::empty(),
            r.entry_views() == views(entries@),
            r.shown_positions() == shown(views(entries@), Seq::<char>::empty(), entries@.len()),
            r.selected_line() == 0,
    {
        let search = String::new();
        let mut p = PopupState { search, entries, filtered: Vec::new(), selected: 0 };
        p.filter_entries();
        p
    }

    /// Recomputes which entries are shown for the current search text and
    /// selects the first line.
    pub fn filter_entries(&mut self)
        ensures
            final(self).wf(),
            final(self).search_text() == old(self).search_text(),
            final(self).entry_views() == old(self).entry_views(),
            final(self).shown_positions() == shown(
                old(self).entry_views(),
                old(self).search_text(),
                old(self).entry_views().len(),
            ),
            final(self).selected_line() == 0,
    {
        let ghost q = self.search@;
        let ghost es = views(self.entries@);
        let empty = self.search.as_str().is_empty();
        let query = lowercase(self.search.as_str());
        let mut out: Vec<usize> = Vec::new();
        let mut i: usize = 0;
        while i < self.entries.len()
            invariant
                q == self.search@,
                es == views(self.entries@),
                empty == (q.len() == 0),
                query@ == lower_of(q),
                0 <= i <= self.entries@.len(),
                out@ == shown(es, q, i as nat),
            decreases self.entries.len() - i,
        {
            let hit = if empty {
                true
            } else {
                match &self.entries[i].content {
                    Some(c) => {
                        let lc = lowercase(c.as_str());
                        contains_text(lc.as_str(), query.as_str())
                    },
                    None => false,
                }
            };
            assert(es[i as int] == self.entries@[i as int]@);
            if hit {
                out.push(i);
            }
            i = i + 1;
        }
        self.filtered = out;
        self.selected = 0;
        proof {
            lemma_shown_in_range(es, q, es.len());
        }
    }

    /// Sets the search text and recomputes which entries are shown.
    pub fn set_search(&mut self, query: String)
        ensures
            final(self).wf(),
            final(self).search_text() == query@,
            final(self).entry_views() == old(self).entry_views(),
            final(self).shown_positions() == shown(
                old(self).entry_views(),
                query@,
                old(self).entry_views().len(),
            ),
            final(self).selected_line() == 0,
    {
        self.search = query;
        self.filter_entries();
    }

    /// Moves the selection one line down, unless it is on the last line.
    pub fn select_next(&mut self)
        requires
            old(self).wf(),
        ensures
            final(self).wf(),
            final(self).search_text() == old(self).search_text(),
            final(self).entry_views() == old(self).entry_views(),
            final(self).shown_positions() == old(self).shown_positions(),
            final(self).selected_line() == if old(self).selected_line() + 1 < old(
                self,
            ).shown_positions().len() {
                old(self).selected_line() + 1
            } else {
                old(self).selected_line()
            },
    {
        if self.filtered.len() > 0 && self.selected < self.filtered.len() - 1 {
            self.selected = self.selected + 1;
        }
    }

    /// Moves the selection one line up, unless it is on the first line.
    pub fn select_prev(&mut self)
        requires
            old(self).wf(),
        ensures
            final(self).wf(),
            final(self).search_text() == old(self).search_text(),
            final(self).entry_views() == old(self).entry_views(),
            final(self).shown_positions() == old(self).shown_positions(),
            final(self).selected_line() == if old(self).selected_line() > 0 {
                old(self).selected_line() - 1
            } else {
                0
            },
    {
        if self.selected > 0 {
            self.selected = self.selected - 1;
        }
    }

    /// The entry on the selected line, if the line shows one.
    pub fn selected_entry(&self) -> (r: Option<&Entry>)
        requires
            self.wf(),
        ensures
            match r {
                Some(e) => self.selected_line() < self.shown_positions().len() && e@
                    == self.entry_views()[self.shown_positions()[self.selected_line()] as int],
                None => self.selected_line() >= self.shown_positions().len(),
            },
    {
        if self.selected < self.filtered.len() {
            let i = self.filtered[self.selected];
            Some(&self.entries[i])
        } else {
            None
        }
    }

    /// The search text.
    pub fn search(&self) -> (r: &str)
        ensures
            r@ == self.search_text(),
    {
        self.search.as_str()
    }

    /// The entries the popup was opened with.
    pub fn entries(&self) -> (r: &Vec<Entry>)
        ensures
            views(r@) == self.entry_views(),
    {
        &self.entries
    }

    /// The positions of the entries shown, in order.
    pub fn filtered(&self) -> (r: &Vec<usize>)
        ensures
            r@ == self.shown_positions(),
    {
        &self.filtered
    }

    /// The selected line.
    pub fn selected(&self) -> (r: usize)
        ensures
            r == self.selected_line(),
    {
        self.selected
    }
}

} // verus!
