//! The monitor's state and its per-event transitions: one tick loop
//! iteration samples, appends to the history, derives the view, then
//! consumes at most one key event. Everything here is single-threaded;
//! the surrounding loop owns the terminal and the metric source and
//! hands plain values in and out.
use vstd::prelude::*;

use crate::filter::{filter_records, filtered};
use crate::history::{History, Sample, CPU_SCALE};
use crate::input::{
    cursor_after, is_quit, is_toggle, text_after, Key, KeyPress, QueryBuffer, ViewMode,
};
use crate::rank::{rank, ranked};
use crate::record::{dup_records, views, ProcessRecord};

verus! {

/// Full process enumeration is expensive, so it runs only on every
/// `REFRESH_INTERVAL`-th tick; the cheap global CPU reading runs on all.
pub const REFRESH_INTERVAL: u64 = 60;

/// True when tick `tick` performs the full process refresh.
pub open spec fn spec_needs_refresh(tick: u64) -> bool {
    tick % REFRESH_INTERVAL == 0
}

/// The view mode after a toggle key.
pub open spec fn toggled(m: ViewMode) -> ViewMode {
    if m == ViewMode::Normal {
        ViewMode::SearchEntry
    } else {
        ViewMode::Normal
    }
}

/// The selection after one key: `j`/`k` move it by one within the
/// currently displayed list, clamped at both ends, and only while
/// navigation (not search entry) owns the keyboard.
pub open spec fn sel_after(sel: int, rows: int, mode: ViewMode, k: KeyPress) -> int {
    if mode == ViewMode::Normal && !k.ctrl && k.code == Key::Char(106) {
        if sel + 1 < rows {
            sel + 1
        } else {
            sel
        }
    } else if mode == ViewMode::Normal && !k.ctrl && k.code == Key::Char(107) {
        if sel > 0 {
            sel - 1
        } else {
            0
        }
    } else {
        sel
    }
}

/// The selection re-clamped after the displayed list changed length.
pub open spec fn clamp_sel(sel: int, rows: int) -> int {
    if rows == 0 {
        0
    } else if sel >= rows {
        rows - 1
    } else {
        sel
    }
}

/// Decides whether `k` is the terminal quit transition.
fn key_quits(k: KeyPress) -> (r: bool)
    ensures
        r == is_quit(k),
{
    (!k.ctrl && (k.code == Key::Esc || k.code == Key::Char(113))) || (k.ctrl && (k.code
        == Key::Char(99) || k.code == Key::Char(67)))
}

/// Decides whether `k` toggles search entry.
fn key_toggles(k: KeyPress) -> (r: bool)
    ensures
        r == is_toggle(k),
{
    !k.ctrl && k.code == Key::Char(115)
}

/// The whole interactive state of the monitor.
pub struct App {
    /// Is the application running? The tick loop stops when this falls.
    pub running: bool,
    /// Whether key input edits the query or navigates the table.
    pub mode: ViewMode,
    /// The live filter query.
    pub query: QueryBuffer,
    /// The highlighted row of the displayed (ranked, filtered) list.
    pub selection: usize,
    /// Length of the most recently displayed list; the selection bound.
    pub rows: usize,
    /// The retained CPU samples.
    pub history: History,
    /// The most recent process snapshot, raw (unranked, unfiltered).
    pub procs: Vec<ProcessRecord>,
    /// Ticks completed so far; the next sample's tick value.
    pub ticks: u64,
}

impl App {
    /// The state invariant: the query buffer and history are well
    /// formed, every retained sample is from a completed tick, and the
    /// selection sits inside the displayed list (or at zero when the
    /// list is empty).
    pub open spec fn wf(self) -> bool {
        &&& self.query.wf()
        &&& self.history.wf()
        &&& forall|i: int|
            0 <= i < self.history.samples@.len() ==> self.history.samples@[i].tick < self.ticks
        &&& (self.rows == 0 ==> self.selection == 0)
        &&& (self.rows > 0 ==> self.selection < self.rows)
    }

    /// A fresh monitor: running, navigating, empty query and history.
    pub fn new() -> (a: App)
        ensures
            a.wf(),
            a.running,
            a.mode == ViewMode::Normal,
            a.query.text@.len() == 0,
            a.selection == 0,
            a.rows == 0,
            a.history.samples@.len() == 0,
            a.procs@.len() == 0,
            a.ticks == 0,
    {
        App {
            running: true,
            mode: ViewMode::Normal,
            query: QueryBuffer::new(),
            selection: 0,
            rows: 0,
            history: History::new(),
            procs: Vec::new(),
            ticks: 0,
        }
    }

    /// True when this tick must refresh the process snapshot.
    pub fn needs_process_refresh(&self) -> (r: bool)
        ensures
            r == spec_needs_refresh(self.ticks),
    {
        self.ticks % REFRESH_INTERVAL == 0
    }

    /// Stops the tick loop; nothing else changes.
    pub fn quit(&mut self)
        ensures
            *final(self) == (App { running: false, ..*old(self) }),
    {
        self.running = false;
    }

    /// One completed tick: adopt a fresh process snapshot when one was
    /// taken, then append this tick's global CPU sample — the history
    /// grows by exactly one — and advance the tick counter.
    pub fn on_tick(&mut self, cpu: u32, procs: Option<Vec<ProcessRecord>>)
        requires
            old(self).wf(),
            cpu <= CPU_SCALE,
            old(self).ticks < u64::MAX,
        ensures
            final(self).wf(),
            final(self).ticks == old(self).ticks + 1,
            final(self).history.samples@ == old(self).history.samples@.push(
                (Sample { tick: old(self).ticks, cpu }),
            ),
            final(self).procs == (match procs {
                Some(p) => p,
                None => old(self).procs,
            }),
            final(self).running == old(self).running,
            final(self).mode == old(self).mode,
            final(self).query == old(self).query,
            final(self).selection == old(self).selection,
            final(self).rows == old(self).rows,
    {
        match procs {
            Some(p) => {
                self.procs = p;
            },
            None => {},
        }
        self.history.append(self.ticks, cpu);
        self.ticks = self.ticks + 1;
    }

    /// The render-ready process list: the snapshot ranked (stable,
    /// descending by CPU), then narrowed by the live query; the
    /// selection is re-clamped to the new list's bounds.
    pub fn display_rows(&mut self) -> (out: Vec<ProcessRecord>)
        requires
            old(self).wf(),
        ensures
            final(self).wf(),
            views(out@) == filtered(ranked(views(old(self).procs@)), old(self).query.text@),
            final(self).rows == out@.len(),
            final(self).selection == clamp_sel(old(self).selection as int, out@.len() as int),
            final(self).running == old(self).running,
            final(self).mode == old(self).mode,
            final(self).query == old(self).query,
            final(self).history == old(self).history,
            final(self).procs == old(self).procs,
            final(self).ticks == old(self).ticks,
    {
        let sorted = rank(dup_records(&self.procs));
        let out = filter_records(sorted, &self.query.text);
        self.rows = out.len();
        if self.rows == 0 {
            self.selection = 0;
        } else if self.selection >= self.rows {
            self.selection = self.rows - 1;
        }
        out
    }

    /// Selection clamp law: well-formedness — which `new` establishes
    /// and every transition preserves — keeps the selection inside
    /// `[0, rows - 1]` whenever the displayed list is non-empty, and at
    /// zero when it is empty; so it holds after any sequence of
    /// `j`/`k` transitions.
    pub proof fn lemma_selection_clamped(self)
        requires
            self.wf(),
        ensures
            self.rows > 0 ==> self.selection < self.rows,
            self.rows == 0 ==> self.selection == 0,
    {
    }

    /// One key event. While search entry is active the key is first
    /// forwarded verbatim to the query buffer; the quit and toggle
    /// transitions are then still honored — never swallowed by text
    /// entry — so plain `Esc`/`q` and Control+`c`/`C` always stop the
    /// loop, whatever the mode and whatever text is buffered.
    pub fn on_key(&mut self, k: KeyPress)
        requires
            old(self).wf(),
        ensures
            final(self).wf(),
            final(self).running == (old(self).running && !is_quit(k)),
            final(self).mode == (if is_toggle(k) {
                toggled(old(self).mode)
            } else {
                old(self).mode
            }),
            old(self).mode == ViewMode::SearchEntry ==> final(self).query.text@ == text_after(
                old(self).query.text@,
                old(self).query.cursor as int,
                k,
            ) && final(self).query.cursor == cursor_after(
                old(self).query.text@,
                old(self).query.cursor as int,
                k,
            ),
            old(self).mode == ViewMode::Normal ==> final(self).query == old(self).query,
            final(self).selection == sel_after(
                old(self).selection as int,
                old(self).rows as int,
                old(self).mode,
                k,
            ),
            final(self).rows == old(self).rows,
            final(self).history == old(self).history,
            final(self).procs == old(self).procs,
            final(self).ticks == old(self).ticks,
    {
        let in_search = matches!(self.mode, ViewMode::SearchEntry);
        if in_search {
            self.query.apply(k);
        }
        if key_quits(k) {
            self.quit();
        }
        if key_toggles(k) {
            self.mode = if in_search {
                ViewMode::Normal
            } else {
                ViewMode::SearchEntry
            };
        }
        if !in_search && !k.ctrl {
            match k.code {
                Key::Char(106) => {
                    if self.selection + 1 < self.rows {
                        self.selection = self.selection + 1;
                    }
                },
                Key::Char(107) => {
                    if self.selection > 0 {
                        self.selection = self.selection - 1;
                    }
                },
                _ => {},
            }
        }
    }
}

} // verus!
