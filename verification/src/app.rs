//! The application shell: the two tabs, the quit flag, and the top-level
//! key dispatch that hands input to whichever component owns it. The
//! render loop around it only draws the current state and feeds keys in.

use vstd::prelude::*;

use crate::chart::amounts_bounded;
use crate::chart::chart_steps;
use crate::chart::ChartComponent;
use crate::input::Key;
use crate::models::Transaction;
use crate::table::table_steps;
use crate::table::TableComponent;
use crate::table::TableMode;

verus! {

/// Which view fills the screen.
#[derive(Clone, Copy, PartialEq, Eq, Structural, Debug)]
pub enum CurrentTab {
    Table,
    Chart,
}

/// The tab to the right; the last tab is its own successor.
pub open spec fn tab_next(t: CurrentTab) -> CurrentTab {
    match t {
        CurrentTab::Table => CurrentTab::Chart,
        CurrentTab::Chart => CurrentTab::Chart,
    }
}

/// The tab to the left; the first tab is its own predecessor.
pub open spec fn tab_previous(t: CurrentTab) -> CurrentTab {
    match t {
        CurrentTab::Table => CurrentTab::Table,
        CurrentTab::Chart => CurrentTab::Table,
    }
}

impl CurrentTab {
    /// Step one tab to the right, stopping at the last.
    pub fn next(self) -> (r: Self)
        ensures
            r == tab_next(self),
    {
        match self {
            Self::Table => Self::Chart,
            Self::Chart => Self::Chart,
        }
    }

    /// Step one tab to the left, stopping at the first.
    pub fn previous(self) -> (r: Self)
        ensures
            r == tab_previous(self),
    {
        match self {
            Self::Table => Self::Table,
            Self::Chart => Self::Table,
        }
    }
}

impl Default for CurrentTab {
    /// The dashboard opens on the transaction table.
    fn default() -> (r: Self)
        ensures
            r == CurrentTab::Table,
    {
        CurrentTab::Table
    }
}

/// The dashboard: the table, the chart, the active tab and the quit
/// flag.
pub struct App {
    /// False once the user asked to quit.
    pub running: bool,
    /// Which view fills the screen.
    pub current_tab: CurrentTab,
    /// The interactive transaction table.
    pub table: TableComponent,
    /// The monthly chart.
    pub chart: ChartComponent,
}

impl App {
    /// The shell's internal invariant: both components keep theirs.
    pub open spec fn wf(&self) -> bool {
        self.table.wf() && self.chart.wf()
    }

    /// A dashboard over `transactions`, open on the table tab.
    pub fn new(transactions: &Vec<Transaction>) -> (r: Self)
        requires
            amounts_bounded(transactions.deep_view()),
        ensures
            r.wf(),
            r.running,
            r.current_tab == CurrentTab::Table,
            r.table.items.deep_view() == transactions.deep_view(),
            r.table.mode == TableMode::Normal,
            forall|k: int|
                0 <= k < r.chart.items@.len() ==> (#[trigger] r.chart.items@[k]).summarizes(
                    transactions.deep_view(),
                ),
    {
        App {
            running: true,
            current_tab: CurrentTab::Table,
            table: TableComponent::new(transactions),
            chart: ChartComponent::new(transactions),
        }
    }

    /// Ask the loop to stop.
    pub fn quit(&mut self)
        ensures
            !final(self).running,
            final(self).current_tab == old(self).current_tab,
            final(self).table == old(self).table,
            final(self).chart == old(self).chart,
    {
        self.running = false;
    }

    /// Show the tab to the right.
    pub fn next_tab(&mut self)
        ensures
            final(self).current_tab == tab_next(old(self).current_tab),
            final(self).running == old(self).running,
            final(self).table == old(self).table,
            final(self).chart == old(self).chart,
    {
        self.current_tab = self.current_tab.next();
    }

    /// Show the tab to the left.
    pub fn previous_tab(&mut self)
        ensures
            final(self).current_tab == tab_previous(old(self).current_tab),
            final(self).running == old(self).running,
            final(self).table == old(self).table,
            final(self).chart == old(self).chart,
    {
        self.current_tab = self.current_tab.previous();
    }

    /// Dispatch one key press. While the table is in a modal mode it
    /// claims every key; otherwise `q` quits, right and `;` or left and
    /// `j` switch tabs, and anything else goes to the visible component,
    /// each stepping by its own contract.
    pub fn handle_key_events(&mut self, key: Key)
        requires
            old(self).wf(),
        ensures
            final(self).wf(),
            old(self).table.mode != TableMode::Normal ==> {
                &&& final(self).running == old(self).running
                &&& final(self).current_tab == old(self).current_tab
                &&& final(self).chart == old(self).chart
                &&& table_steps(old(self).table, final(self).table, key)
            },
            old(self).table.mode == TableMode::Normal ==> match key {
                Key::Char(c) => if c == 'q' {
                    &&& !final(self).running
                    &&& final(self).current_tab == old(self).current_tab
                    &&& final(self).table == old(self).table
                    &&& final(self).chart == old(self).chart
                } else if c == ';' {
                    final(self).tab_switched(old(self), tab_next(old(self).current_tab))
                } else if c == 'j' {
                    final(self).tab_switched(old(self), tab_previous(old(self).current_tab))
                } else {
                    final(self).dispatched(old(self), key)
                },
                Key::Right => final(self).tab_switched(old(self), tab_next(old(self).current_tab)),
                Key::Left => final(self).tab_switched(old(self), tab_previous(old(self).current_tab)),
                _ => final(self).dispatched(old(self), key),
            },
    {
        if self.table.is_blocking() {
            self.table.handle_key_events(key);
            return ;
        }
        match key {
            Key::Char(c) => {
                if c == 'q' {
                    self.quit();
                } else if c == ';' {
                    self.next_tab();
                } else if c == 'j' {
                    self.previous_tab();
                } else {
                    match self.current_tab {
                        CurrentTab::Chart => self.chart.handle_key_events(key),
                        CurrentTab::Table => self.table.handle_key_events(key),
                    }
                }
            },
            Key::Right => self.next_tab(),
            Key::Left => self.previous_tab(),
            _ => {
                match self.current_tab {
                    CurrentTab::Chart => self.chart.handle_key_events(key),
                    CurrentTab::Table => self.table.handle_key_events(key),
                }
            },
        }
    }

    /// Only the tab changed.
    pub open spec fn tab_switched(&self, pre: &Self, t: CurrentTab) -> bool {
        &&& self.current_tab == t
        &&& self.running == pre.running
        &&& self.table == pre.table
        &&& self.chart == pre.chart
    }

    /// The key went to the visible component, which stepped by its own
    /// transition relation; the other one, the tab and the quit flag are
    /// untouched.
    pub open spec fn dispatched(&self, pre: &Self, key: Key) -> bool {
        &&& self.running == pre.running
        &&& self.current_tab == pre.current_tab
        &&& (pre.current_tab is Chart ==> self.table == pre.table && chart_steps(
            pre.chart,
            self.chart,
            key,
        ))
        &&& (pre.current_tab is Table ==> self.chart == pre.chart && table_steps(
            pre.table,
            self.table,
            key,
        ))
    }
}

} // verus!
