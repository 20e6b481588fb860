//! The row of category tabs and the index of the tab that is shown.

use vstd::prelude::*;
use crate::text::texts;

verus! {

/// Titles of the category tabs, in display order, and the selected one.
#[derive(Debug, PartialEq, Eq)]
pub struct TabsState {
    pub titles: Vec<String>,
    pub index: usize,
}

/// The tab titles a fresh `TabsState` carries, in display order.
pub open spec fn default_titles() -> Seq<Seq<char>> {
    seq![
        "Top Stories"@,
        "New Stories"@,
        "Best Stories"@,
        "Ask Stories"@,
        "Show Stories"@,
        "Job Stories"@,
    ]
}

impl TabsState {
    /// Six category tabs with the first one selected.
    pub fn new() -> (tabs: TabsState)
        ensures
            tabs.index == 0,
            tabs.titles@.len() == 6,
            texts(tabs.titles@) == default_titles(),
    {
        let mut titles: Vec<String> = Vec::new();
        titles.push(String::from_str("Top Stories"));
        titles.push(String::from_str("New Stories"));
        titles.push(String::from_str("Best Stories"));
        titles.push(String::from_str("Ask Stories"));
        titles.push(String::from_str("Show Stories"));
        titles.push(String::from_str("Job Stories"));
        let tabs = TabsState { titles, index: 0 };
        tabs
    }

    /// Selects the tab to the right, wrapping from the last to the first.
    pub fn next(&mut self)
        requires
            old(self).titles@.len() > 0,
        ensures
            final(self).titles == old(self).titles,
            final(self).index == (old(self).index + 1) % (old(self).titles@.len() as int),
    {
        let n: usize = self.titles.len();
        let wrapped: usize = self.index % n;
        assert((wrapped + 1) % (n as int) == (self.index + 1) % (n as int)) by {
            vstd::arithmetic::div_mod::lemma_add_mod_noop(self.index as int, 1, n as int);
            vstd::arithmetic::div_mod::lemma_add_mod_noop(wrapped as int, 1, n as int);
            vstd::arithmetic::div_mod::lemma_mod_twice(self.index as int, n as int);
        }
        self.index = (wrapped + 1) % n;
    }

    /// Selects the tab to the left, wrapping from the first to the last.
    pub fn previous(&mut self)
        requires
            old(self).index > 0 || old(self).titles@.len() > 0,
        ensures
            final(self).titles == old(self).titles,
            final(self).index == if old(self).index > 0 {
                old(self).index - 1
            } else {
                old(self).titles@.len() - 1
            },
    {
        if self.index > 0 {
            self.index -= 1;
        } else {
            self.index = self.titles.len() - 1;
        }
    }
}

} // verus!
