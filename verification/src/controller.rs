//! The controller: one owned object that the caller steps once per tick.
//!
//! A tick has two halves. [`Controller::cycle`] runs the timer and, when it
//! fires, scans the table; it answers with the position to load next, if
//! the scan found a new one. Loading is the caller's business: it asks the
//! asset subsystem for that candidate and reports the handle it got with
//! [`Controller::begin_load`], which is the only place where position and
//! handle change, and they change together. [`Controller::finish`] takes
//! the status that the asset subsystem reports for the current handle; on
//! the tick that completes the load it reinterprets the image and binds the
//! handle to the consumer slots, in that order, and on every other tick it
//! touches nothing.

use crate::binder::{all_bound, bind};
use crate::formats::{Compression, FormatSet};
use crate::select::{
    eligible,
    positions,
    select,
    selected,
    skipped_positions,
};
use crate::table::{Candidate, CandidateTable, CandidateView};
use crate::texture::{reinterpreted, TextureMetadata};
use crate::timer::{fires, next_state, Phase, Rearm, SwapTimer, TimerState, TimerView};
use crate::tracker::{completes, LoadStatus, LoadTracker};
use vstd::prelude::*;

verus! {

/// A controller in specifications.
pub struct ControllerView<H> {
    pub table: Seq<CandidateView>,
    pub timer: TimerView,
    /// The position of the candidate last asked for.
    pub index: int,
    /// The handle that the request for `index` gave.
    pub handle: H,
    /// Whether that request has been seen complete.
    pub is_loaded: bool,
}

/// What one call of [`Controller::cycle`] decided.
pub struct CycleReport {
    /// Whether the timer fired, so that the table was scanned.
    pub attempted: bool,
    /// The positions that the scan passed over as unsupported, in scan
    /// order; empty where there was no scan.
    pub skipped: Vec<usize>,
    /// The position to load next, where the scan ended on another one than
    /// the current.
    pub request: Option<usize>,
}

/// The position that an attempt asks to load: the selected one, unless it is
/// the current one.
pub open spec fn request_of(
    table: Seq<CandidateView>,
    index: int,
    supported: Set<Compression>,
) -> Option<usize> {
    if selected(table, index, supported) != index {
        Some(selected(table, index, supported) as usize)
    } else {
        None
    }
}

/// The swap controller for one cycling texture, whose handles are of type
/// `H`.
pub struct Controller<H> {
    table: CandidateTable,
    timer: SwapTimer,
    index: usize,
    tracker: LoadTracker<H>,
}

impl<H> View for Controller<H> {
    type V = ControllerView<H>;

    closed spec fn view(&self) -> ControllerView<H> {
        ControllerView {
            table: self.table@,
            timer: self.timer@,
            index: self.index as int,
            handle: self.tracker@.handle,
            is_loaded: self.tracker@.is_loaded,
        }
    }
}

impl<H> Controller<H> {
    #[verifier::type_invariant]
    spec fn index_in_table(self) -> bool {
        self.index < self.table@.len()
    }
}

impl<H: Copy> Controller<H> {
    /// A controller for `table` whose first candidate has just been asked
    /// for, which gave `handle`. The timer is idle.
    pub fn new(table: CandidateTable, delay: u64, rearm: Rearm, handle: H) -> (r: Controller<H>)
        ensures
            r@ == (ControllerView {
                table: table@,
                timer: TimerView { delay: delay as int, rearm, state: TimerState::Idle },
                index: 0,
                handle,
                is_loaded: false,
            }),
    {
        let candidates = table.len();
        assert(0 < candidates);
        Controller {
            table,
            timer: SwapTimer::new(delay, rearm),
            index: 0,
            tracker: LoadTracker::request(handle),
        }
    }

    /// The first half of a tick, at time `now`, on a device that supports
    /// `supported`. Only the timer changes. Where the timer fires, the
    /// report holds what the scan passed over and, if it ended on another
    /// position than the current, that position: the caller loads it and
    /// calls [`Controller::begin_load`]. A position asked for is always one
    /// that the device supports.
    pub fn cycle(&mut self, now: u64, supported: FormatSet) -> (r: CycleReport)
        ensures
            final(self)@.table == old(self)@.table,
            final(self)@.index == old(self)@.index,
            final(self)@.handle == old(self)@.handle,
            final(self)@.is_loaded == old(self)@.is_loaded,
            final(self)@.timer.delay == old(self)@.timer.delay,
            final(self)@.timer.rearm == old(self)@.timer.rearm,
            final(self)@.timer.state == next_state(
                old(self)@.timer.state,
                old(self)@.timer.rearm,
                old(self)@.timer.delay,
                now as int,
            ),
            r.attempted == fires(old(self)@.timer.state, now as int),
            !r.attempted ==> r.skipped@.len() == 0 && r.request is None,
            r.attempted ==> positions(r.skipped@) == skipped_positions(
                old(self)@.table,
                old(self)@.index,
                supported@,
            ) && r.request == request_of(old(self)@.table, old(self)@.index, supported@),
            r.request matches Some(i) ==> i < old(self)@.table.len() && i != old(self)@.index
                && eligible(old(self)@.table, i as int, supported@),
    {
        proof {
            use_type_invariant(&*self);
        }
        let attempted = self.timer.tick(now);
        if !attempted {
            return CycleReport { attempted, skipped: Vec::new(), request: None };
        }
        let selection = select(&self.table, self.index, supported);
        let request = if selection.index != self.index {
            Some(selection.index)
        } else {
            None
        };
        CycleReport { attempted, skipped: selection.skipped, request }
    }

    /// Records that the candidate at `index` has been asked for, which gave
    /// `handle`. Position and handle change together, and the new request
    /// counts as not loaded. A position outside the table is refused and
    /// changes nothing.
    pub fn begin_load(&mut self, index: usize, handle: H) -> (accepted: bool)
        ensures
            accepted == (index < old(self)@.table.len()),
            accepted ==> final(self)@ == (ControllerView {
                index: index as int,
                handle,
                is_loaded: false,
                ..old(self)@
            }),
            !accepted ==> final(self)@ == old(self)@,
    {
        if index < self.table.len() {
            self.index = index;
            self.tracker.replace(handle);
            true
        } else {
            false
        }
    }

    /// Whether a poll that reports `status` would complete the current
    /// request, so that [`Controller::finish`] would reinterpret and bind.
    pub fn completes_with(&self, status: LoadStatus) -> (r: bool)
        ensures
            r == completes(self@.is_loaded, status),
    {
        !self.tracker.is_loaded() && status == LoadStatus::Loaded
    }

    /// The second half of a tick: `status` is what the asset subsystem
    /// reports of the current handle, `image` describes the image that the
    /// handle stands for, and `slots` are the consumer slots that show the
    /// cycling texture. On the poll that completes the request the image
    /// is reinterpreted, then every slot gets the handle, then the request
    /// counts as loaded. On any other poll nothing changes, whatever the
    /// status. A completing poll on a one-layer image without width is not
    /// accepted: such an image has no layer count.
    pub fn finish(
        &mut self,
        status: LoadStatus,
        image: &mut TextureMetadata,
        slots: &mut Vec<H>,
    ) -> (completed: bool)
        requires
            completes(old(self)@.is_loaded, status) && old(image).array_layer_count == 1 ==> old(
                image,
            ).width > 0,
        ensures
            completed == completes(old(self)@.is_loaded, status),
            final(self)@ == (ControllerView {
                is_loaded: old(self)@.is_loaded || completed,
                ..old(self)@
            }),
            completed ==> *final(image) == reinterpreted(*old(image)) && final(slots)@ == all_bound(
                old(slots)@.len(),
                old(self)@.handle,
            ),
            !completed ==> *final(image) == *old(image) && final(slots)@ == old(slots)@,
    {
        proof {
            use_type_invariant(&*self);
        }
        if self.tracker.is_loaded() || status != LoadStatus::Loaded {
            return false;
        }
        image.reinterpret();
        bind(slots, self.tracker.handle());
        self.tracker.observe(status);
        true
    }

    /// The position of the candidate last asked for.
    pub fn index(&self) -> (i: usize)
        ensures
            i == self@.index,
            i < self@.table.len(),
    {
        proof {
            use_type_invariant(self);
        }
        self.index
    }

    /// The handle that the request for the current candidate gave.
    pub fn handle(&self) -> (h: H)
        ensures
            h == self@.handle,
    {
        self.tracker.handle()
    }

    /// Whether the current request has been seen complete.
    pub fn is_loaded(&self) -> (r: bool)
        ensures
            r == self@.is_loaded,
    {
        self.tracker.is_loaded()
    }

    /// The table that the controller cycles through.
    pub fn table(&self) -> (t: &CandidateTable)
        ensures
            t@ == self@.table,
    {
        &self.table
    }

    /// The candidate last asked for.
    pub fn current(&self) -> (c: &Candidate)
        ensures
            c@ == self@.table[self@.index],
    {
        proof {
            use_type_invariant(self);
        }
        self.table.get(self.index)
    }

    /// The phase of the swap timer.
    pub fn timer_phase(&self) -> (p: Phase)
        ensures
            p == match self@.timer.state {
                TimerState::Idle => Phase::Idle,
                TimerState::Armed { .. } => Phase::Armed,
                TimerState::JustFired => Phase::JustFired,
            },
    {
        self.timer.phase()
    }
}

} // verus!
