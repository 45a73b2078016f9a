use vstd::prelude::*;
use crate::history::{keep_last, sample_of, TrendHistory, TrendSample};
use crate::model::Snapshot;

verus! {

/// A key as the dashboard sees it.
#[derive(Debug, Clone, Copy, PartialEq, Eq)]
pub enum Key {
    Char(char),
    Esc,
    Other,
}

/// A key press, with whether Control was held.
#[derive(Debug, Clone, Copy, PartialEq, Eq)]
pub struct KeyPress {
    pub key: Key,
    pub control: bool,
}

/// What the dashboard does after a key press.
#[derive(Debug, Clone, Copy, PartialEq, Eq)]
pub enum Action {
    Quit,
    Refresh,
    Continue,
}

/// Which model tables the dashboard shows in detail.
#[derive(Debug, Clone, Copy, PartialEq, Eq)]
pub struct ViewToggles {
    pub detailed_daily: bool,
    pub detailed_monthly: bool,
}

/// The action a key press asks for: `q`, `Esc` and `Ctrl-C` quit, `r` refreshes.
pub open spec fn action_spec(press: KeyPress) -> Action {
    match press.key {
        Key::Char(c) => if c == 'q' || (c == 'c' && press.control) {
            Action::Quit
        } else if c == 'r' {
            Action::Refresh
        } else {
            Action::Continue
        },
        Key::Esc => Action::Quit,
        Key::Other => Action::Continue,
    }
}

/// The toggles after a key press: `d` flips the day's table, `m` the month's.
pub open spec fn toggled(t: ViewToggles, press: KeyPress) -> ViewToggles {
    let flips = action_spec(press) == Action::Continue;
    ViewToggles {
        detailed_daily: t.detailed_daily != (flips && press.key == Key::Char('d')),
        detailed_monthly: t.detailed_monthly != (flips && press.key == Key::Char('m')),
    }
}

/// A key pressed twice leaves the tables as they were: `d` and `m` toggle, and no
/// other key changes them.
pub proof fn law_key_twice_restores_view(t: ViewToggles, press: KeyPress)
    ensures
        toggled(toggled(t, press), press) == t,
        press.key != Key::Char('d') && press.key != Key::Char('m') ==> toggled(t, press) == t,
{
}

impl ViewToggles {
    /// The start: today's table in detail, the month's in brief.
    pub fn new() -> (t: Self)
        ensures
            t.detailed_daily,
            !t.detailed_monthly,
    {
        ViewToggles { detailed_daily: true, detailed_monthly: false }
    }

    /// Handles a key press: `d` and `m` flip the detail of the day's and the
    /// month's table; the returned action says whether to quit or refresh.
    pub fn handle_key(&mut self, press: KeyPress) -> (a: Action)
        ensures
            a == action_spec(press),
            *final(self) == toggled(*old(self), press),
    {
        match press.key {
            Key::Char(c) => {
                if c == 'q' || (c == 'c' && press.control) {
                    Action::Quit
                } else if c == 'r' {
                    Action::Refresh
                } else {
                    if c == 'd' {
                        self.detailed_daily = !self.detailed_daily;
                    } else if c == 'm' {
                        self.detailed_monthly = !self.detailed_monthly;
                    }
                    Action::Continue
                }
            },
            Key::Esc => Action::Quit,
            Key::Other => Action::Continue,
        }
    }
}

/// The snapshot to show after a refresh, and whether it is fresh: the new one
/// where the fetch worked; else the previous one carrying the error, not fresh.
pub fn merge_refresh(previous: Option<Snapshot>, fetched: Result<Snapshot, String>) -> (r: (
    Option<Snapshot>,
    bool,
))
    ensures
        match fetched {
            Ok(s) => r == (Some(s), true),
            Err(e) => r.1 == false && match previous {
                Some(p) => r.0 == Some(Snapshot { last_error: Some(e), ..p }),
                None => r.0 is None,
            },
        },
{
    match fetched {
        Ok(s) => (Some(s), true),
        Err(e) => {
            match previous {
                Some(mut p) => {
                    p.last_error = Some(e);
                    (Some(p), false)
                },
                None => (None, false),
            }
        },
    }
}

/// Whether a refresh is due: `r` was pressed, or at least `interval` nanoseconds
/// have passed since the last one.
pub fn refresh_due(refresh_pressed: bool, elapsed: u64, interval: u64) -> (due: bool)
    ensures
        due == (refresh_pressed || elapsed >= interval),
{
    refresh_pressed || elapsed >= interval
}

/// The trend after the first fetch: its snapshot as the one sample, if it worked.
pub open spec fn first_samples(first: Option<Snapshot>, at: u64) -> Seq<TrendSample> {
    match first {
        Some(s) => seq![sample_of(s, at)],
        None => Seq::empty(),
    }
}

/// How many refreshes the live trend keeps.
pub const TREND_SAMPLES: usize = 1800;

/// A running dashboard: which tables are detailed, the snapshot shown (if any),
/// and the live trend.
pub struct Dashboard {
    pub view: ViewToggles,
    pub snapshot: Option<Snapshot>,
    pub trend: TrendHistory,
}

impl Dashboard {
    /// The dashboard after its first fetch at `at` nanoseconds: that snapshot, if
    /// the fetch worked, as the only trend sample.
    pub fn start(first: Option<Snapshot>, at: u64) -> (d: Self)
        ensures
            d.view.detailed_daily,
            !d.view.detailed_monthly,
            d.snapshot == first,
            d.trend.capacity() == TREND_SAMPLES,
            d.trend@ == first_samples(first, at),
    {
        let mut trend = TrendHistory::new(TREND_SAMPLES);
        match &first {
            Some(s) => trend.push_snapshot(s, at),
            None => {},
        }
        assert(keep_last(Seq::<TrendSample>::empty().push(sample_of(first->0, at)), TREND_SAMPLES as nat)
            =~= seq![sample_of(first->0, at)] || first is None);
        Dashboard { view: ViewToggles::new(), snapshot: first, trend }
    }

    /// Handles a key press; `Quit` ends the dashboard, `Refresh` asks for a refresh.
    pub fn on_key(&mut self, press: KeyPress) -> (a: Action)
        ensures
            a == action_spec(press),
            final(self).view == toggled(old(self).view, press),
            final(self).snapshot == old(self).snapshot,
            final(self).trend@ == old(self).trend@,
            final(self).trend.capacity() == old(self).trend.capacity(),
    {
        self.view.handle_key(press)
    }

    /// Takes in a refresh made at `at` nanoseconds: a fetched snapshot is shown and
    /// becomes exactly one new trend sample; a failure keeps the snapshot shown,
    /// now carrying the error, and adds no sample.
    pub fn on_refresh(&mut self, fetched: Result<Snapshot, String>, at: u64)
        ensures
            final(self).view == old(self).view,
            final(self).trend.capacity() == old(self).trend.capacity(),
            match fetched {
                Ok(s) => final(self).snapshot == Some(s) && final(self).trend@ == keep_last(
                    old(self).trend@.push(sample_of(s, at)),
                    old(self).trend.capacity(),
                ),
                Err(e) => final(self).trend@ == old(self).trend@ && match old(self).snapshot {
                    Some(p) => final(self).snapshot == Some(Snapshot { last_error: Some(e), ..p }),
                    None => final(self).snapshot is None,
                },
            },
    {
        let previous = self.snapshot.take();
        let (next, fresh) = merge_refresh(previous, fetched);
        if fresh {
            match &next {
                Some(s) => self.trend.push_snapshot(s, at),
                None => {},
            }
        }
        self.snapshot = next;
    }
}

} // verus!
