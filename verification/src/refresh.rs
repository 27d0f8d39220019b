//! The worker that fills in the library's cards after a refresh. Each
//! refresh has a generation number; the worker stops as soon as it sees a
//! newer one, so an old refresh never writes over a newer one's cards. The
//! caller performs each requested action and answers with the shared
//! generation counter as it reads it at that moment.
use vstd::prelude::*;

verus! {

#[derive(Debug, Clone, Copy, PartialEq, Eq, Structural)]
pub enum RefreshPhase {
    /// The stale previews are being removed before the cards load.
    CleaningBefore,
    /// Card `next` is being resolved.
    Resolving,
    /// Card `next` is being handed to the window.
    Showing,
    /// The window is setting row `next` to card `next`.
    Setting,
    /// The stale previews are being removed after the cards loaded.
    CleaningAfter,
    /// The worker has ended.
    Done,
}

/// The state of one refresh's worker over `count` saved wallpapers.
#[derive(Debug, Clone, Copy, PartialEq, Eq, Structural)]
pub struct RefreshWorker {
    pub generation: u64,
    pub count: usize,
    pub next: usize,
    pub phase: RefreshPhase,
}

/// The answer to the worker's last request.
#[derive(Debug, Clone, Copy, PartialEq, Eq, Structural)]
pub enum RefreshEvent {
    /// The stale previews were removed (or the failure was logged).
    Cleaned { current: u64 },
    /// The card was resolved.
    Resolved { current: u64 },
    /// The window took the card (`window_open` is false when the window is
    /// gone); `current` is the counter as the window reads it right before
    /// it would set the row.
    Shown { window_open: bool, current: u64 },
    /// The window set the row.
    RowSet { current: u64 },
}

/// What the worker asks for.
#[derive(Debug, Clone, Copy, PartialEq, Eq, Structural)]
pub enum RefreshAction {
    CleanupStale,
    ResolveCard(usize),
    /// Hand card `i` to the window.
    ShowCard(usize),
    /// Set row `i` of the window's list to card `i`, at once, on the
    /// window's side.
    SetRow(usize),
    /// Stop: a newer refresh started, the window is gone, an answer did not
    /// fit, or the work is done.
    Stop,
}

/// The request after card `i` (or, for `i == count`, after the last card):
/// the next card, or the final cleanup, unless the refresh was replaced.
pub open spec fn continue_at(w: RefreshWorker, i: int, current: u64) -> (RefreshWorker, RefreshAction) {
    if current != w.generation {
        (RefreshWorker { phase: RefreshPhase::Done, ..w }, RefreshAction::Stop)
    } else if i < w.count {
        (
            RefreshWorker { next: i as usize, phase: RefreshPhase::Resolving, ..w },
            RefreshAction::ResolveCard(i as usize),
        )
    } else {
        (RefreshWorker { next: w.count, phase: RefreshPhase::CleaningAfter, ..w }, RefreshAction::CleanupStale)
    }
}

/// One step of the worker. An answer that does not fit the pending request
/// stops the worker.
pub open spec fn refresh_step(w: RefreshWorker, e: RefreshEvent) -> (RefreshWorker, RefreshAction) {
    match (w.phase, e) {
        (RefreshPhase::CleaningBefore, RefreshEvent::Cleaned { current }) => continue_at(w, 0, current),
        (RefreshPhase::Resolving, RefreshEvent::Resolved { current }) => {
            if current != w.generation {
                stop(w)
            } else {
                (RefreshWorker { phase: RefreshPhase::Showing, ..w }, RefreshAction::ShowCard(w.next))
            }
        },
        (RefreshPhase::Showing, RefreshEvent::Shown { window_open, current }) => {
            if !window_open || current != w.generation {
                stop(w)
            } else {
                (RefreshWorker { phase: RefreshPhase::Setting, ..w }, RefreshAction::SetRow(w.next))
            }
        },
        (RefreshPhase::Setting, RefreshEvent::RowSet { current }) => continue_at(w, w.next + 1, current),
        (RefreshPhase::CleaningAfter, RefreshEvent::Cleaned { .. }) => stop(w),
        _ => stop(w),
    }
}

pub open spec fn stop(w: RefreshWorker) -> (RefreshWorker, RefreshAction) {
    (RefreshWorker { phase: RefreshPhase::Done, ..w }, RefreshAction::Stop)
}

/// The worker only ever names cards that exist.
pub open spec fn refresh_wf(w: RefreshWorker) -> bool {
    &&& w.next <= w.count
    &&& (w.phase == RefreshPhase::Resolving || w.phase == RefreshPhase::Showing || w.phase
        == RefreshPhase::Setting) ==> w.next < w.count
}

impl RefreshWorker {
    /// The worker of refresh `generation` over `count` saved wallpapers; its
    /// first request is the cleanup of stale previews.
    pub fn new(generation: u64, count: usize) -> (r: (RefreshWorker, RefreshAction))
        ensures
            r.0 == (RefreshWorker { generation, count, next: 0, phase: RefreshPhase::CleaningBefore }),
            r.1 == RefreshAction::CleanupStale,
            refresh_wf(r.0),
    {
        (RefreshWorker { generation, count, next: 0, phase: RefreshPhase::CleaningBefore }, RefreshAction::CleanupStale)
    }

    fn continue_at(&mut self, i: usize, current: u64) -> (a: RefreshAction)
        requires
            i <= old(self).count,
        ensures
            (*final(self), a) == continue_at(*old(self), i as int, current),
    {
        if current != self.generation {
            self.phase = RefreshPhase::Done;
            RefreshAction::Stop
        } else if i < self.count {
            self.next = i;
            self.phase = RefreshPhase::Resolving;
            RefreshAction::ResolveCard(i)
        } else {
            self.next = self.count;
            self.phase = RefreshPhase::CleaningAfter;
            RefreshAction::CleanupStale
        }
    }

    /// Takes the answer to the pending request and gives the next request.
    pub fn step(&mut self, event: RefreshEvent) -> (a: RefreshAction)
        requires
            refresh_wf(*old(self)),
        ensures
            (*final(self), a) == refresh_step(*old(self), event),
            refresh_wf(*final(self)),
    {
        match (self.phase, event) {
            (RefreshPhase::CleaningBefore, RefreshEvent::Cleaned { current }) => self.continue_at(0, current),
            (RefreshPhase::Resolving, RefreshEvent::Resolved { current }) => {
                if current != self.generation {
                    self.phase = RefreshPhase::Done;
                    RefreshAction::Stop
                } else {
                    self.phase = RefreshPhase::Showing;
                    RefreshAction::ShowCard(self.next)
                }
            },
            (RefreshPhase::Showing, RefreshEvent::Shown { window_open, current }) => {
                if !window_open || current != self.generation {
                    self.phase = RefreshPhase::Done;
                    RefreshAction::Stop
                } else {
                    self.phase = RefreshPhase::Setting;
                    RefreshAction::SetRow(self.next)
                }
            },
            (RefreshPhase::Setting, RefreshEvent::RowSet { current }) => {
                let i = self.next + 1;
                self.continue_at(i, current)
            },
            _ => {
                self.phase = RefreshPhase::Done;
                RefreshAction::Stop
            },
        }
    }
}

/// The event that answers the worker's pending request.
pub open spec fn answers(w: RefreshWorker, e: RefreshEvent) -> bool {
    match (w.phase, e) {
        (RefreshPhase::CleaningBefore, RefreshEvent::Cleaned { .. }) => true,
        (RefreshPhase::Resolving, RefreshEvent::Resolved { .. }) => true,
        (RefreshPhase::Showing, RefreshEvent::Shown { .. }) => true,
        (RefreshPhase::Setting, RefreshEvent::RowSet { .. }) => true,
        (RefreshPhase::CleaningAfter, RefreshEvent::Cleaned { .. }) => true,
        _ => false,
    }
}

/// The generation counter's value an event reports.
pub open spec fn reported(e: RefreshEvent) -> u64 {
    match e {
        RefreshEvent::Cleaned { current } => current,
        RefreshEvent::Resolved { current } => current,
        RefreshEvent::Shown { current, .. } => current,
        RefreshEvent::RowSet { current } => current,
    }
}

/// A replaced refresh writes nothing more: once the worker learns of a
/// generation other than its own, it stops without resolving or handing
/// over another card or cleaning the cache again.
pub proof fn lemma_replaced_refresh_stops(w: RefreshWorker, e: RefreshEvent)
    requires
        answers(w, e),
        reported(e) != w.generation,
    ensures
        refresh_step(w, e) == (RefreshWorker { phase: RefreshPhase::Done, ..w }, RefreshAction::Stop),
{
}

/// Once stopped, the worker asks for nothing but to stop, whatever happens.
pub proof fn lemma_stopped_worker_stays_stopped(w: RefreshWorker, e: RefreshEvent)
    requires
        w.phase == RefreshPhase::Done,
    ensures
        refresh_step(w, e) == (w, RefreshAction::Stop),
{
}

/// A row is only ever set for the worker's own generation: the request to
/// set row `k` comes only as the answer to handing card `k` over, when the
/// window reports the worker's generation as still current right before
/// setting it. With the two laws above, a refresh that has been replaced
/// never sets a row again.
pub proof fn lemma_rows_only_for_current_generation(w: RefreshWorker, e: RefreshEvent, k: usize)
    requires
        refresh_wf(w),
        refresh_step(w, e).1 == RefreshAction::SetRow(k),
    ensures
        w.phase == RefreshPhase::Showing,
        e matches RefreshEvent::Shown { window_open, current } && window_open && current
            == w.generation,
        k == w.next,
        k < w.count,
{
}

/// While its generation stays current and the window stays open, the worker
/// resolves, hands over and sets the cards in order, each once, then cleans
/// the cache once more.
pub proof fn lemma_current_refresh_shows_every_card(w: RefreshWorker)
    requires
        refresh_wf(w),
        w.phase == RefreshPhase::Resolving,
    ensures
        ({
            let g = w.generation;
            let (w1, a1) = refresh_step(w, RefreshEvent::Resolved { current: g });
            let (w2, a2) = refresh_step(w1, RefreshEvent::Shown { window_open: true, current: g });
            let (w3, a3) = refresh_step(w2, RefreshEvent::RowSet { current: g });
            &&& a1 == RefreshAction::ShowCard(w.next)
            &&& a2 == RefreshAction::SetRow(w.next)
            &&& w.next + 1 < w.count ==> a3 == RefreshAction::ResolveCard((w.next + 1) as usize)
                && w3.next == w.next + 1
            &&& w.next + 1 == w.count ==> a3 == RefreshAction::CleanupStale
        }),
{
}

} // verus!
