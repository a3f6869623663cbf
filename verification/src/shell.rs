//! What the shell around the store remembers between frames: the selected
//! day, how far the three-day window is scrolled, and the active tab. None
//! of it is part of the store, and none of it is persisted.

use crate::date::{days_later, Date, Ymd};
use vstd::prelude::*;

verus! {

/// The furthest the window can be scrolled, in days from today.
pub const MAX_SCROLL_OFFSET: i32 = 27;

/// The number of days that the window shows.
pub const WINDOW_DAYS: usize = 3;

/// The views of the shell.
#[derive(Clone, Copy, Debug, PartialEq, Eq, Structural)]
pub enum Tab {
    /// The window of days and the tasks of the selected day.
    Calendar,
    /// All tasks that are not done.
    Unfinished,
}

/// What a [`ShellState`] stands for.
pub struct ShellView {
    pub selected_date: Ymd,
    pub scroll_offset: int,
    pub tab: Tab,
}

/// The state of the shell. The scroll offset always lies between 0 and
/// `MAX_SCROLL_OFFSET`.
#[derive(Clone, Copy, Debug)]
pub struct ShellState {
    selected_date: Date,
    scroll_offset: i32,
    tab: Tab,
}

impl View for ShellState {
    type V = ShellView;

    closed spec fn view(&self) -> ShellView {
        ShellView {
            selected_date: self.selected_date@,
            scroll_offset: self.scroll_offset as int,
            tab: self.tab,
        }
    }
}

impl ShellState {
    #[verifier::type_invariant]
    spec fn offset_in_range(self) -> bool {
        0 <= self.scroll_offset <= MAX_SCROLL_OFFSET
    }

    /// The state at the start of a session: today selected, the window not
    /// scrolled, the calendar shown.
    pub fn new(today: Date) -> (shell: ShellState)
        ensures
            shell@ == (ShellView { selected_date: today@, scroll_offset: 0, tab: Tab::Calendar }),
    {
        ShellState { selected_date: today, scroll_offset: 0, tab: Tab::Calendar }
    }

    pub fn selected_date(&self) -> (date: Date)
        ensures
            date@ == self@.selected_date,
    {
        self.selected_date
    }

    pub fn scroll_offset(&self) -> (offset: i32)
        ensures
            offset == self@.scroll_offset,
            0 <= offset <= MAX_SCROLL_OFFSET,
    {
        proof {
            use_type_invariant(self);
        }
        self.scroll_offset
    }

    pub fn tab(&self) -> (tab: Tab)
        ensures
            tab == self@.tab,
    {
        self.tab
    }

    /// Whether `date` is the selected day.
    pub fn is_selected(&self, date: Date) -> (selected: bool)
        ensures
            selected == (date@ == self@.selected_date),
    {
        date.same_day(&self.selected_date)
    }

    /// Selects `date`.
    pub fn select_date(&mut self, date: Date)
        ensures
            final(self)@ == (ShellView { selected_date: date@, ..old(self)@ }),
    {
        proof {
            use_type_invariant(&*self);
        }
        self.selected_date = date;
    }

    /// Shows `tab`.
    pub fn select_tab(&mut self, tab: Tab)
        ensures
            final(self)@ == (ShellView { tab, ..old(self)@ }),
    {
        proof {
            use_type_invariant(&*self);
        }
        self.tab = tab;
    }

    /// Moves the window one day towards today; at today it stays.
    pub fn scroll_back(&mut self)
        ensures
            final(self)@ == (ShellView {
                scroll_offset: if old(self)@.scroll_offset > 0 {
                    old(self)@.scroll_offset - 1
                } else {
                    0
                },
                ..old(self)@
            }),
    {
        proof {
            use_type_invariant(&*self);
        }
        if self.scroll_offset > 0 {
            self.scroll_offset -= 1;
        }
    }

    /// Moves the window one day away from today; at `MAX_SCROLL_OFFSET` it
    /// stays.
    pub fn scroll_forward(&mut self)
        ensures
            final(self)@ == (ShellView {
                scroll_offset: if old(self)@.scroll_offset < MAX_SCROLL_OFFSET {
                    old(self)@.scroll_offset + 1
                } else {
                    MAX_SCROLL_OFFSET as int
                },
                ..old(self)@
            }),
    {
        proof {
            use_type_invariant(&*self);
        }
        if self.scroll_offset < MAX_SCROLL_OFFSET {
            self.scroll_offset += 1;
        }
    }

    /// The days that the window shows: `WINDOW_DAYS` days in a row, the
    /// first one `scroll_offset` days after `today`. `None` where one of
    /// them lies outside the years a date can hold.
    pub fn window(&self, today: Date) -> (days: Option<Vec<Date>>)
        ensures
            match days {
                Some(shown) => shown@.len() == WINDOW_DAYS && forall|k: int|
                    0 <= k < WINDOW_DAYS ==> days_later(today@, self@.scroll_offset + k) == Some(
                        #[trigger] shown@[k]@,
                    ),
                None => exists|k: int|
                    0 <= k < WINDOW_DAYS && #[trigger] days_later(today@, self@.scroll_offset + k)
                        is None,
            },
    {
        proof {
            use_type_invariant(self);
        }
        let mut shown: Vec<Date> = Vec::new();
        let mut k: usize = 0;
        while k < WINDOW_DAYS
            invariant
                k <= WINDOW_DAYS,
                0 <= self.scroll_offset <= MAX_SCROLL_OFFSET,
                shown@.len() == k,
                forall|j: int|
                    0 <= j < k ==> days_later(today@, self@.scroll_offset + j) == Some(
                        #[trigger] shown@[j]@,
                    ),
            decreases WINDOW_DAYS - k,
        {
            let ahead: i32 = self.scroll_offset + k as i32;
            match today.plus_days(ahead) {
                Some(day) => {
                    shown.push(day);
                },
                None => {
                    assert(days_later(today@, self@.scroll_offset + k as int) is None);
                    return None;
                },
            }
            k += 1;
        }
        Some(shown)
    }
}

} // verus!
