//! Mapping of playback positions onto the token that is being spoken.

use vstd::prelude::*;

use crate::alignment::{is_alignment, lemma_alignment_ordered, AlignedInterval};

verus! {

/// Whether some interval of `ranges` covers the offset `idx`.
pub open spec fn covered(ranges: Seq<AlignedInterval>, idx: int) -> bool {
    exists|i: int| 0 <= i < ranges.len() && (#[trigger] ranges[i]).covers(idx)
}

/// `i` is the position of the first interval of `ranges` that covers `idx`.
pub open spec fn is_first_cover(ranges: Seq<AlignedInterval>, idx: int, i: int) -> bool {
    &&& 0 <= i < ranges.len()
    &&& ranges[i].covers(idx)
    &&& forall|j: int| 0 <= j < i ==> !(#[trigger] ranges[j]).covers(idx)
}

/// The token that is spoken at offset `idx`.
///
/// The first interval that covers `idx` decides. An offset that no interval
/// covers but that is at or after the start of the last interval belongs to
/// the last token: the engine reports positions for trailing punctuation
/// that no token holds. Any other offset lies in a gap and has no token.
pub open spec fn token_at(ranges: Seq<AlignedInterval>, idx: int) -> Option<usize> {
    if covered(ranges, idx) {
        Some(ranges[choose|i: int| is_first_cover(ranges, idx, i)].token_index)
    } else if ranges.len() > 0 && idx >= ranges.last().start {
        Some(ranges.last().token_index)
    } else {
        None
    }
}

/// Finds the token whose interval holds the code-point offset `char_index`.
pub fn char_index_to_token(char_index: usize, ranges: &[AlignedInterval]) -> (token: Option<usize>)
    ensures
        token == token_at(ranges@, char_index as int),
{
    let n = ranges.len();
    let mut i: usize = 0;
    while i < n
        invariant
            n == ranges.len(),
            i <= n,
            forall|j: int| 0 <= j < i ==> !(#[trigger] ranges@[j]).covers(char_index as int),
        decreases n - i,
    {
        let iv = ranges[i];
        if char_index >= iv.start && char_index < iv.end {
            assert(is_first_cover(ranges@, char_index as int, i as int));
            return Some(iv.token_index);
        }
        i += 1;
    }
    if n > 0 {
        let last = ranges[n - 1];
        if char_index >= last.start {
            return Some(last.token_index);
        }
    }
    None
}

/// What the audio engine reports while it speaks an utterance: the
/// code-point offset it has reached, or that the utterance is over (it ended
/// or it failed).
#[derive(Clone, Copy, Debug, PartialEq, Eq, Structural)]
pub enum PlaybackEvent {
    Position(usize),
    Terminal,
}

/// The highlight that an event leaves behind, for the intervals `ranges`.
pub open spec fn highlight_after(ranges: Seq<AlignedInterval>, event: PlaybackEvent) -> Option<
    usize,
> {
    match event {
        PlaybackEvent::Position(idx) => token_at(ranges, idx as int),
        PlaybackEvent::Terminal => None,
    }
}

/// The event that a reading of the engine's position stands for. The engine
/// gives a negative number once the utterance is over.
pub open spec fn event_of_reading(reading: i64) -> PlaybackEvent {
    if reading < 0 {
        PlaybackEvent::Terminal
    } else if reading <= usize::MAX {
        PlaybackEvent::Position(reading as usize)
    } else {
        PlaybackEvent::Position(usize::MAX)
    }
}

/// The intervals of an alignment do not overlap, so a position inside the
/// interval of token `i` selects token `i`.
pub proof fn lemma_token_of_alignment(
    text: Seq<char>,
    surfaces: Seq<Seq<char>>,
    ranges: Seq<AlignedInterval>,
    i: int,
    idx: int,
)
    requires
        is_alignment(text, surfaces, ranges),
        0 <= i < ranges.len(),
        ranges[i].covers(idx),
    ensures
        token_at(ranges, idx) == Some(i as usize),
{
    lemma_alignment_ordered(text, surfaces, ranges);
    assert forall|j: int| 0 <= j < i implies !(#[trigger] ranges[j]).covers(idx) by {
        assert(ranges[j].end <= ranges[i].start);
    }
    assert(is_first_cover(ranges, idx, i));
    let w = choose|w: int| is_first_cover(ranges, idx, w);
    assert(w == i);
}

/// An offset at or behind the largest `usize` selects the token that the
/// largest `usize` selects: no interval ends behind it.
pub proof fn lemma_large_offset(ranges: Seq<AlignedInterval>, idx: int)
    requires
        idx >= usize::MAX,
    ensures
        token_at(ranges, idx) == token_at(ranges, usize::MAX as int),
{
    assert forall|i: int| 0 <= i < ranges.len() implies !(#[trigger] ranges[i]).covers(idx)
        && !ranges[i].covers(usize::MAX as int) by {}
}

impl PlaybackEvent {
    /// Reads an event off the number that the engine has reported.
    ///
    /// A reading that is too large for `usize` becomes the largest offset:
    /// no interval ends behind it, so it selects the same token.
    pub fn from_reading(reading: i64) -> (event: PlaybackEvent)
        ensures
            event == event_of_reading(reading),
    {
        if reading < 0 {
            PlaybackEvent::Terminal
        } else if reading as u64 <= usize::MAX as u64 {
            PlaybackEvent::Position(reading as usize)
        } else {
            PlaybackEvent::Position(usize::MAX)
        }
    }
}

/// The highlight that `event` leaves behind: the token at the position, or
/// nothing once the utterance is over.
pub fn next_highlight(ranges: &[AlignedInterval], event: PlaybackEvent) -> (highlight: Option<
    usize,
>)
    ensures
        highlight == highlight_after(ranges@, event),
{
    match event {
        PlaybackEvent::Position(idx) => char_index_to_token(idx, ranges),
        PlaybackEvent::Terminal => None,
    }
}

/// The state of a tracker as contracts see it.
pub struct TrackerState {
    /// The intervals of the sentence that was installed last.
    pub intervals: Seq<AlignedInterval>,
    /// The token that is highlighted, if any.
    pub highlight: Option<usize>,
    /// The utterance whose events are accepted, if one is being spoken.
    pub active: Option<u64>,
    /// The number of the utterance that was started last.
    pub issued: u64,
}

impl TrackerState {
    /// Nothing is highlighted unless an utterance is being spoken, and the
    /// utterance that is being spoken is the one that was started last.
    pub open spec fn well_formed(self) -> bool {
        &&& self.active is None ==> self.highlight is None
        &&& self.active matches Some(utterance) ==> utterance == self.issued
    }

    /// The number of the next utterance: one more than the last, or 0 once
    /// the numbers are used up.
    pub open spec fn next_number(self) -> u64 {
        if self.issued == u64::MAX {
            0
        } else {
            (self.issued + 1) as u64
        }
    }

    /// The state after a new utterance with the intervals `intervals` has
    /// been started.
    pub open spec fn started(self, intervals: Seq<AlignedInterval>) -> TrackerState {
        TrackerState {
            intervals,
            highlight: None,
            active: Some(self.next_number()),
            issued: self.next_number(),
        }
    }

    /// The state after `event` has arrived from the utterance `utterance`.
    ///
    /// Only the events of the active utterance count. A position moves the
    /// highlight, the terminal event clears it and ends the utterance.
    pub open spec fn step(self, utterance: u64, event: PlaybackEvent) -> TrackerState {
        if self.active == Some(utterance) {
            match event {
                PlaybackEvent::Position(_) => TrackerState {
                    highlight: highlight_after(self.intervals, event),
                    ..self
                },
                PlaybackEvent::Terminal => TrackerState { highlight: None, active: None, ..self },
            }
        } else {
            self
        }
    }

    /// The state after the utterance that is being spoken, if any, has been
    /// called off.
    pub open spec fn stopped(self) -> TrackerState {
        TrackerState { highlight: None, active: None, ..self }
    }
}

/// What has to be asked of the audio engine when an utterance starts.
#[derive(Clone, Copy, Debug, PartialEq, Eq, Structural)]
pub struct UtterancePlan {
    /// The utterance that is still being spoken and has to be cancelled
    /// before the new one is handed to the engine.
    pub cancel: Option<u64>,
    /// The number under which the events of the new utterance are accepted.
    pub utterance: u64,
}

/// Keeps the highlighted token of one sentence in step with its playback.
///
/// The tracker is the only writer of the highlight. It accepts the events of
/// one utterance at a time: starting an utterance ends the one before it,
/// and what still arrives from an earlier utterance changes nothing.
pub struct PlaybackTracker {
    intervals: Vec<AlignedInterval>,
    highlight: Option<usize>,
    active: Option<u64>,
    issued: u64,
}

impl View for PlaybackTracker {
    type V = TrackerState;

    closed spec fn view(&self) -> TrackerState {
        TrackerState {
            intervals: self.intervals@,
            highlight: self.highlight,
            active: self.active,
            issued: self.issued,
        }
    }
}

impl PlaybackTracker {
    #[verifier::type_invariant]
    spec fn inv(self) -> bool {
        self@.well_formed()
    }

    /// A tracker with no sentence installed and nothing highlighted.
    pub fn new() -> (tracker: Self)
        ensures
            tracker@.intervals.len() == 0,
            tracker@.highlight is None,
            tracker@.active is None,
            tracker@.issued == 0,
    {
        PlaybackTracker { intervals: Vec::new(), highlight: None, active: None, issued: 0 }
    }

    /// Starts an utterance of the sentence with the intervals `intervals`.
    ///
    /// The intervals and the highlight of the sentence before are dropped.
    /// The plan names the utterance that has to be cancelled first, and the
    /// number of the new one, which differs from the number of the
    /// utterance before, whether that is still being spoken or over.
    pub fn begin(&mut self, intervals: Vec<AlignedInterval>) -> (plan: UtterancePlan)
        ensures
            plan.cancel == old(self)@.active,
            plan.utterance == old(self)@.next_number(),
            plan.utterance != old(self)@.issued,
            plan.cancel != Some(plan.utterance),
            final(self)@ == old(self)@.started(intervals@),
            final(self)@.well_formed(),
    {
        proof {
            use_type_invariant(&*self);
        }
        let cancel = self.active;
        let utterance = if self.issued == u64::MAX {
            0
        } else {
            self.issued + 1
        };
        self.highlight = None;
        self.active = None;
        self.issued = utterance;
        self.active = Some(utterance);
        self.intervals = intervals;
        UtterancePlan { cancel, utterance }
    }

    /// Takes in an event of the utterance `utterance` and says whether it
    /// counted. An event of an utterance that is not the active one is set
    /// aside: whoever delivers it has been replaced and should stop.
    pub fn process(&mut self, utterance: u64, event: PlaybackEvent) -> (accepted: bool)
        ensures
            accepted == (old(self)@.active == Some(utterance)),
            final(self)@ == old(self)@.step(utterance, event),
            final(self)@.well_formed(),
    {
        proof {
            use_type_invariant(&*self);
        }
        if self.active != Some(utterance) {
            return false;
        }
        match event {
            PlaybackEvent::Position(_) => {
                self.highlight = next_highlight(self.intervals.as_slice(), event);
            },
            PlaybackEvent::Terminal => {
                self.clear();
            },
        }
        true
    }

    /// Calls off the utterance that is being spoken, if any, and returns its
    /// number so that the engine can be told.
    pub fn stop(&mut self) -> (cancel: Option<u64>)
        ensures
            cancel == old(self)@.active,
            final(self)@ == old(self)@.stopped(),
    {
        let cancel = self.active;
        self.clear();
        cancel
    }

    /// Drops the highlight and the active utterance.
    fn clear(&mut self)
        ensures
            final(self)@ == old(self)@.stopped(),
    {
        proof {
            use_type_invariant(&*self);
        }
        self.highlight = None;
        self.active = None;
    }

    /// The token that is highlighted at the moment.
    pub fn current_token(&self) -> (token: Option<usize>)
        ensures
            token == self@.highlight,
            self@.well_formed(),
    {
        proof {
            use_type_invariant(self);
        }
        self.highlight
    }
}

/// The terminal event of the utterance that is being spoken clears the
/// highlight and ends the utterance, whatever the intervals are and whatever
/// event came last before it.
pub proof fn lemma_terminal_clears(state: TrackerState, utterance: u64, last: PlaybackEvent)
    requires
        state.active == Some(utterance),
    ensures
        highlight_after(state.intervals, PlaybackEvent::Terminal) is None,
        state.step(utterance, PlaybackEvent::Terminal).highlight is None,
        state.step(utterance, PlaybackEvent::Terminal).active is None,
        state.step(utterance, last).step(utterance, PlaybackEvent::Terminal).highlight is None,
        state.step(utterance, last).step(utterance, PlaybackEvent::Terminal).active is None,
{
}

/// After an utterance has been started it is the only one whose events
/// count: an event under any other number, that of the utterance before
/// among them, leaves the state as it is, and no position is applied once
/// the terminal event has been taken in.
pub proof fn lemma_single_writer(
    state: TrackerState,
    intervals: Seq<AlignedInterval>,
    other: u64,
    event: PlaybackEvent,
)
    ensures
        state.started(intervals).active == Some(state.next_number()),
        state.next_number() != state.issued,
        other != state.next_number() ==> state.started(intervals).step(other, event)
            == state.started(intervals),
        state.started(intervals).step(state.next_number(), PlaybackEvent::Terminal).step(
            state.next_number(),
            event,
        ) == state.started(intervals).step(state.next_number(), PlaybackEvent::Terminal),
{
}

} // verus!
