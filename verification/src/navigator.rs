//! The version-navigation state machine.
//!
//! The navigator owns the immutable timeline, the current position (the
//! live sentinel or a concrete timeline index), the text displayed for
//! that position, and the running latency statistics.  A seek request is
//! first screened against the timeline bounds; a valid request triggers
//! exactly one engine checkout, whose wall-clock duration — and nothing
//! more — becomes one latency sample.  The display policy for the live
//! sentinel is fixed: `Live` always displays empty text and is not a
//! substitute for the current head content.

use vstd::prelude::*;
use crate::engine;
use crate::errors::{ImportError, SeekError};
use crate::stats::{
    lemma_max_push, lemma_min_push, max_of, min_of, StatsAggregator, MAX_SAMPLE_COUNT,
    MAX_SAMPLE_MS,
};
use crate::timeline::ChangeId;

verus! {

/// The navigator's position: the live head, or a concrete timeline index.
#[derive(PartialEq, Eq, Structural, Clone, Copy, Debug)]
pub enum NavState {
    Live,
    At(usize),
}

/// What a requested index means, screened against the timeline bounds.
#[derive(PartialEq, Eq, Structural, Clone, Copy, Debug)]
pub enum SeekPlan {
    /// Outside `[-1, len - 1]`: rejected without a transition.
    OutOfRange,
    /// The live sentinel `-1`.
    ToLive,
    /// A concrete timeline index.
    ToIndex(usize),
}

/// The screening rule for a requested index against a timeline of length
/// `len`: `-1` is the live sentinel, `0..len` addresses the timeline, and
/// everything else is out of range.
pub open spec fn seek_plan(len: int, idx: int) -> SeekPlan {
    if idx < -1 || idx >= len {
        SeekPlan::OutOfRange
    } else if idx == -1 {
        SeekPlan::ToLive
    } else {
        SeekPlan::ToIndex(idx as usize)
    }
}

/// Screen a requested index against the timeline bounds.
pub fn plan_seek(len: usize, idx: i64) -> (p: SeekPlan)
    requires
        len <= i64::MAX,
    ensures
        p == seek_plan(len as int, idx as int),
{
    if idx < -1 || idx >= (len as i64) {
        SeekPlan::OutOfRange
    } else if idx == -1 {
        SeekPlan::ToLive
    } else {
        SeekPlan::ToIndex(idx as usize)
    }
}

/// Load a document from a serialized snapshot; called once at session
/// start.  A failure is fatal to the session and surfaced to the caller
/// with the engine's own message.
pub fn import_snapshot(doc: &loro::LoroDoc, bytes: &[u8]) -> Result<(), ImportError> {
    match engine::doc_import(doc, bytes) {
        Ok(()) => Ok(()),
        Err(e) => Err(ImportError { message: engine::loro_error_text(&e) }),
    }
}

/// Owns the current index, the linearized timeline, the displayed text
/// and the latency statistics, and triggers engine checkouts.
pub struct VersionNavigator {
    timeline: Vec<ChangeId>,
    field: String,
    state: NavState,
    text: String,
    stats: StatsAggregator,
}

impl VersionNavigator {
    /// The immutable timeline being navigated.
    pub closed spec fn timeline_view(self) -> Seq<ChangeId> {
        self.timeline@
    }

    /// The name of the text field being displayed.
    pub closed spec fn field_view(self) -> Seq<char> {
        self.field@
    }

    /// The current position.
    pub closed spec fn nav_state(self) -> NavState {
        self.state
    }

    /// The text displayed for the current position.
    pub closed spec fn text_view(self) -> Seq<char> {
        self.text@
    }

    /// The latency samples recorded so far.
    pub closed spec fn samples(self) -> Seq<u64> {
        self.stats.samples()
    }

    /// The statistics aggregator over the latency samples.
    pub closed spec fn stats_view(self) -> StatsAggregator {
        self.stats
    }

    /// A concrete position always addresses the timeline, the statistics
    /// are consistent, and the timeline length fits the index type.
    pub closed spec fn wf(self) -> bool {
        &&& self.stats.wf()
        &&& self.timeline@.len() <= i64::MAX
        &&& (self.state matches NavState::At(i) ==> i < self.timeline@.len())
    }

    /// What well-formedness guarantees, spelled out for callers: the
    /// timeline length fits the index type, and a concrete position
    /// addresses the timeline.
    pub proof fn lemma_wf_bounds(self)
        requires
            self.wf(),
        ensures
            self.timeline_view().len() <= i64::MAX,
            self.nav_state() matches NavState::At(i) ==> i < self.timeline_view().len(),
    {
    }

    /// A fresh session over the given timeline, displaying the named text
    /// field: initially live, with empty text and no samples.
    pub fn new(timeline: Vec<ChangeId>, field: String) -> (r: VersionNavigator)
        requires
            timeline@.len() <= i64::MAX,
        ensures
            r.wf(),
            r.timeline_view() == timeline@,
            r.field_view() == field@,
            r.nav_state() == NavState::Live,
            r.text_view() == Seq::<char>::empty(),
            r.samples() == Seq::<u64>::empty(),
    {
        VersionNavigator {
            timeline,
            field,
            state: NavState::Live,
            text: String::new(),
            stats: StatsAggregator::new(),
        }
    }

    /// Record one checkout latency, saturating at `MAX_SAMPLE_MS`.
    fn record_latency(&mut self, ms: u128)
        requires
            old(self).stats.wf(),
        ensures
            final(self).stats.wf(),
            final(self).timeline == old(self).timeline,
            final(self).field == old(self).field,
            final(self).state == old(self).state,
            final(self).text == old(self).text,
            old(self).samples().len() < MAX_SAMPLE_COUNT ==> exists|d: u64|
                d <= MAX_SAMPLE_MS && final(self).samples() == old(self).samples().push(d),
            old(self).samples().len() >= MAX_SAMPLE_COUNT ==> final(self).samples() == old(
                self).samples(),
    {
        let d: u64 = if ms > (MAX_SAMPLE_MS as u128) {
            MAX_SAMPLE_MS
        } else {
            ms as u64
        };
        self.stats.try_sample(d);
    }

    /// Translate a requested index into a concrete checkout.
    ///
    /// An index outside `[-1, len - 1]` is rejected as out of range and
    /// nothing changes.  The live sentinel `-1` checks the engine out at
    /// the empty frontier and displays empty text.  A concrete index `i`
    /// checks the engine out at the single-point frontier holding
    /// `timeline[i]` and displays that version's text (empty when the
    /// document holds no field of the configured name).  Every successful
    /// transition records exactly one latency sample, measuring the
    /// checkout call alone; a rejected or failed seek records none and
    /// leaves the navigator exactly as it was.
    pub fn seek(&mut self, doc: &loro::LoroDoc, idx: i64) -> (r: Result<(), SeekError>)
        requires
            old(self).wf(),
        ensures
            final(self).wf(),
            final(self).timeline_view() == old(self).timeline_view(),
            final(self).field_view() == old(self).field_view(),
            r == Err::<(), SeekError>(SeekError::IndexOutOfRange) <==> seek_plan(
                old(self).timeline_view().len() as int,
                idx as int,
            ) == SeekPlan::OutOfRange,
            r == Err::<(), SeekError>(SeekError::IndexOutOfRange) ==> *final(self) == *old(self),
            (r matches Err(e) && e matches SeekError::CheckoutFailed { .. }) ==> {
                &&& final(self).nav_state() == old(self).nav_state()
                &&& final(self).text_view() == old(self).text_view()
                &&& final(self).samples() == old(self).samples()
            },
            r is Ok ==> {
                &&& idx == -1 ==> final(self).nav_state() == NavState::Live
                &&& idx == -1 ==> final(self).text_view() == Seq::<char>::empty()
                &&& idx >= 0 ==> final(self).nav_state() == NavState::At(idx as usize)
                &&& old(self).samples().len() < MAX_SAMPLE_COUNT ==> exists|d: u64|
                    d <= MAX_SAMPLE_MS && final(self).samples() == old(self).samples().push(d)
                &&& old(self).samples().len() >= MAX_SAMPLE_COUNT ==> final(self).samples()
                    == old(self).samples()
            },
    {
        let plan = plan_seek(self.timeline.len(), idx);
        match plan {
            SeekPlan::OutOfRange => Err(SeekError::IndexOutOfRange),
            SeekPlan::ToLive => {
                let started = std::time::Instant::now();
                let res = engine::doc_checkout_empty(doc);
                let ms = started.elapsed().as_millis();
                match res {
                    Ok(()) => {
                        self.record_latency(ms);
                        self.text = String::new();
                        self.state = NavState::Live;
                        Ok(())
                    },
                    Err(e) => Err(
                        SeekError::CheckoutFailed { message: engine::loro_error_text(&e) },
                    ),
                }
            },
            SeekPlan::ToIndex(i) => {
                let id = self.timeline[i];
                let started = std::time::Instant::now();
                let res = engine::doc_checkout_at(doc, id);
                let ms = started.elapsed().as_millis();
                match res {
                    Ok(()) => {
                        self.record_latency(ms);
                        // a text field the document does not hold displays
                        // as empty, like the live sentinel
                        self.text = match engine::doc_text_content(doc, self.field.as_str()) {
                            Some(content) => content,
                            None => String::new(),
                        };
                        self.state = NavState::At(i);
                        Ok(())
                    },
                    Err(e) => Err(
                        SeekError::CheckoutFailed { message: engine::loro_error_text(&e) },
                    ),
                }
            },
        }
    }

    /// The current position as an index: `-1` while live.  Never past
    /// the end of the timeline, so always at most `max_index()`.
    pub fn current_index(&self) -> (r: i64)
        requires
            self.wf(),
        ensures
            self.nav_state() == NavState::Live ==> r == -1,
            self.nav_state() matches NavState::At(i) ==> r == i,
            -1 <= r < self.timeline_view().len(),
    {
        match self.state {
            NavState::Live => -1,
            NavState::At(i) => i as i64,
        }
    }

    /// The greatest addressable index: `-1` for an empty timeline, for
    /// which no non-live position exists.
    pub fn max_index(&self) -> (r: i64)
        requires
            self.wf(),
        ensures
            r == self.timeline_view().len() - 1,
    {
        (self.timeline.len() as i64) - 1
    }

    /// How many addressable versions the timeline holds.
    pub fn timeline_len(&self) -> (r: usize)
        requires
            self.wf(),
        ensures
            r == self.timeline_view().len(),
    {
        self.timeline.len()
    }

    /// The operation id at a timeline index.
    pub fn entry(&self, i: usize) -> (r: ChangeId)
        requires
            self.wf(),
            i < self.timeline_view().len(),
        ensures
            r == self.timeline_view()[i as int],
    {
        self.timeline[i]
    }

    /// The text displayed for the current position.
    pub fn current_text(&self) -> (r: &String)
        ensures
            r@ == self.text_view(),
    {
        &self.text
    }

    /// The running latency statistics.
    pub fn latency_stats(&self) -> (r: &StatsAggregator)
        requires
            self.wf(),
        ensures
            *r == self.stats_view(),
            r.wf(),
            r.samples() == self.samples(),
    {
        &self.stats
    }
}

/// Seeking the live sentinel is idempotent.  The display half is `seek`'s
/// own contract: every successful live seek ends live with empty text,
/// whatever state it started from, so repeating it reproduces the same
/// display.  This lemma states the statistics half: the one latency
/// sample such a seek records moves the running minimum and maximum
/// bounds no further than that sample itself requires.
pub proof fn lemma_live_seek_stats_bounds(
    before: VersionNavigator,
    after: VersionNavigator,
    d: u64,
)
    requires
        before.samples().len() > 0,
        after.samples() == before.samples().push(d),
    ensures
        min_of(after.samples()) == if d < min_of(before.samples()) {
            d as int
        } else {
            min_of(before.samples())
        },
        max_of(after.samples()) == if d > max_of(before.samples()) {
            d as int
        } else {
            max_of(before.samples())
        },
{
    lemma_min_push(before.samples(), d);
    lemma_max_push(before.samples(), d);
}

/// Checking out a valid index is replayable: the timeline never changes,
/// so the operation addressed by `seek(i)` — the checkout target — is the
/// same however often and whenever the seek is issued.  (That the engine
/// then materializes identical content for an identical frontier is the
/// engine's determinism, relied on at the trusted boundary.)
pub proof fn lemma_seek_target_stable(before: VersionNavigator, after: VersionNavigator, i: int)
    requires
        before.timeline_view() == after.timeline_view(),
        0 <= i < before.timeline_view().len(),
    ensures
        after.timeline_view()[i] == before.timeline_view()[i],
{
}

} // verus!
