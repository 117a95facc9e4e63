//! Cue sequencer: advances through the live bank's cues, cutting on phrase
//! boundaries and arming the next cue's decoder one bar early. It only turns
//! clock snapshots into events; the engine turns its events into decoder work.

use vstd::prelude::*;

use crate::bank::CueId;
use crate::clock::{crossing, BoundaryTracker, ClockSnapshot};
use crate::commands::MICRO_BEATS_PER_TICK;
use crate::seqs::{first_at, first_at_bounds, first_at_is, first_of};
use crate::units::{floor_div, MicroBeats, MICRO};

verus! {

/// Where the sequencer is in its cycle.
#[derive(Clone, Copy, Debug, PartialEq, Eq, Structural)]
pub enum SeqState {
    Idle,
    Playing { cue: CueId },
    PlayingArmed { cue: CueId, next: CueId, fire_at_beat: i128 },
}

/// What the engine must do in response to a change of state.
#[derive(Clone, Copy, Debug, PartialEq, Eq, Structural)]
pub enum SequencerEvent {
    /// Spawn the cue's decoder ahead of the swap so its first frame is ready.
    ArmDecoder(CueId),
    /// Cut the output to this cue now.
    SwapTo(CueId),
    /// The armed cue was cancelled; unused decoders can be dropped.
    DisarmDecoder,
}

/// The timing of a cue in the rotation.
#[derive(Clone, Copy, Debug, PartialEq, Eq, Structural)]
pub struct CueStep {
    pub id: CueId,
    /// Beats that the cue plays before the rotation advances.
    pub dwell: MicroBeats,
    /// Beats that the cue before it is held before this one cuts in.
    pub trig_delay: MicroBeats,
}

/// Selects the timing of a cue.
pub open spec fn is_step(id: CueId) -> spec_fn(CueStep) -> bool {
    |s: CueStep| s.id == id
}

/// A dwell of at least a tick.
pub open spec fn dwell_floor(beats: MicroBeats) -> MicroBeats {
    if beats < MICRO_BEATS_PER_TICK {
        MICRO_BEATS_PER_TICK
    } else {
        beats
    }
}

/// How long a cut to `next` is held back.
pub open spec fn delay_of(steps: Seq<CueStep>, next: CueId) -> MicroBeats {
    match first_of(steps, is_step(next)) {
        Some(s) if s.trig_delay > 0 => s.trig_delay,
        _ => 0,
    }
}

/// How long before a cut the next cue is armed: four beats.
pub const ARM_LEAD: MicroBeats = 4_000_000;

/// Phrase-quantised round-robin over the active cues.
pub struct Sequencer {
    state: SeqState,
    active: Vec<CueId>,
    phrase_len: MicroBeats,
    tracker: BoundaryTracker,
    since: i128,
}

/// The mathematical content of a [`Sequencer`].
#[verifier::ext_equal]
pub struct SeqModel {
    pub state: SeqState,
    /// The active cues, in round-robin order.
    pub active: Seq<CueId>,
    pub phrase_len: MicroBeats,
    /// The last beat the boundary tracker saw.
    pub prev_beat: Option<int>,
    /// The beat at which the rotation last advanced; the origin of the grid when
    /// it has not since it started or the grid was changed.
    pub since: int,
}

impl View for Sequencer {
    type V = SeqModel;

    closed spec fn view(&self) -> SeqModel {
        SeqModel {
            state: self.state,
            active: self.active@,
            phrase_len: self.phrase_len,
            prev_beat: self.tracker@,
            since: self.since as int,
        }
    }
}

/// Selects a cue id.
pub open spec fn is_cue(id: CueId) -> spec_fn(CueId) -> bool {
    |c: CueId| c == id
}

/// The first phrase boundary after `beat`.
pub open spec fn next_boundary(beat: int, phrase_len: int) -> int {
    (beat / phrase_len + 1) * phrase_len
}

/// A phrase length of at least one beat.
pub open spec fn phrase_floor(beats: MicroBeats) -> MicroBeats {
    if beats < MICRO {
        MICRO
    } else {
        beats
    }
}

/// The cue after `cur` in round-robin order. When `cur` is not active, the
/// first active cue.
pub open spec fn successor(active: Seq<CueId>, cur: CueId) -> Option<CueId> {
    if active.len() == 0 {
        None
    } else if first_at(active, is_cue(cur)) < active.len() {
        Some(active[(first_at(active, is_cue(cur)) + 1) % active.len() as int])
    } else {
        Some(active[0])
    }
}

impl SeqModel {
    /// The phrase is at least a beat long, a cue plays as soon as one is active,
    /// the armed cue is not the one playing, and the rotation advances at beats
    /// that can be counted.
    pub open spec fn wf(self) -> bool {
        &&& self.phrase_len >= MICRO
        &&& self.state is Idle ==> self.active.len() == 0
        &&& self.state matches SeqState::PlayingArmed { cue, next, fire_at_beat } ==> cue != next
            && -0x2_0000_0000_0000_0000 <= fire_at_beat <= 0x2_0000_0000_0000_0000
        &&& -0x2_0000_0000_0000_0000 <= self.since <= 0x2_0000_0000_0000_0000
    }

    /// The cue on display.
    pub open spec fn playing(self) -> Option<CueId> {
        match self.state {
            SeqState::Idle => None,
            SeqState::Playing { cue } => Some(cue),
            SeqState::PlayingArmed { cue, .. } => Some(cue),
        }
    }

    /// The cue armed to come next.
    pub open spec fn armed(self) -> Option<CueId> {
        match self.state {
            SeqState::PlayingArmed { next, .. } => Some(next),
            _ => None,
        }
    }

    /// Starts the first active cue.
    pub open spec fn started(self) -> (SeqModel, Seq<SequencerEvent>) {
        if self.active.len() > 0 {
            let first = self.active[0];
            (
                SeqModel { state: SeqState::Playing { cue: first }, since: 0, ..self },
                seq![SequencerEvent::SwapTo(first)],
            )
        } else {
            (self, seq![])
        }
    }

    /// One frame at `beat`: start when idle, arm a bar before the boundary,
    /// swap on it.
    pub open spec fn tick(self, beat: int, is_playing: bool) -> (SeqModel, Seq<SequencerEvent>) {
        if !is_playing {
            (SeqModel { prev_beat: None, ..self }, seq![])
        } else {
            let boundary = crossing(self.prev_beat, beat, self.phrase_len as int);
            let fire_at = next_boundary(beat, self.phrase_len as int);
            let primed = SeqModel { prev_beat: Some(beat), ..self };
            match self.state {
                SeqState::Idle => primed.started(),
                SeqState::Playing { cue } => match successor(self.active, cue) {
                    Some(next) if beat >= fire_at - ARM_LEAD && next != cue => (
                        SeqModel {
                            state: SeqState::PlayingArmed { cue, next, fire_at_beat: fire_at as i128 },
                            ..primed
                        },
                        seq![SequencerEvent::ArmDecoder(next)],
                    ),
                    _ => (primed, seq![]),
                },
                SeqState::PlayingArmed { cue, next, fire_at_beat } => if fire_at_beat - beat
                    > self.phrase_len {
                    // A jump back past the arm point: aim at the new boundary.
                    (
                        SeqModel {
                            state: SeqState::PlayingArmed { cue, next, fire_at_beat: fire_at as i128 },
                            ..primed
                        },
                        seq![],
                    )
                } else if boundary is Some || beat >= fire_at_beat {
                    (
                        SeqModel { state: SeqState::Playing { cue: next }, since: fire_at_beat as int, ..primed },
                        seq![SequencerEvent::SwapTo(next)],
                    )
                } else {
                    (primed, seq![])
                },
            }
        }
    }

    /// How long a cue plays before the rotation advances: its own dwell, or the
    /// phrase length when it has no timing of its own.
    pub open spec fn dwell_of(self, steps: Seq<CueStep>, cue: CueId) -> MicroBeats {
        match first_of(steps, is_step(cue)) {
            Some(s) => dwell_floor(s.dwell),
            None => self.phrase_len,
        }
    }

    /// The beat of the cut from `cue` to `next`, seen from `beat`. A cue without
    /// timing of its own keeps to the phrase grid. Another one plays its dwell
    /// from the beat it came on, and again and again after that while nothing
    /// follows; a clock that was set back before that beat keeps to the same
    /// grid. The cut comes later by the delay of `next`.
    pub open spec fn cut_at(self, steps: Seq<CueStep>, cue: CueId, next: CueId, beat: int) -> int {
        let dwell = self.dwell_of(steps, cue) as int;
        let own = first_of(steps, is_step(cue)) is Some;
        let origin = (if own {
            self.since
        } else {
            0
        }) + delay_of(steps, next);
        let at = origin + next_boundary(beat - origin, dwell);
        if own && self.since <= beat && at < origin + dwell {
            origin + dwell
        } else {
            at
        }
    }

    /// One frame at `beat`, with the timing that cues have of their own: start
    /// when idle, arm a bar before the cut is due, cut when it is.
    pub open spec fn stepped(
        self,
        steps: Seq<CueStep>,
        beat: int,
        is_playing: bool,
    ) -> (SeqModel, Seq<SequencerEvent>) {
        if !is_playing {
            (SeqModel { prev_beat: None, ..self }, seq![])
        } else {
            let primed = SeqModel { prev_beat: Some(beat), ..self };
            match self.state {
                SeqState::Idle => primed.started(),
                SeqState::Playing { cue } => match successor(self.active, cue) {
                    Some(next) if beat >= self.cut_at(steps, cue, next, beat) - ARM_LEAD && next != cue => (
                        SeqModel {
                            state: SeqState::PlayingArmed {
                                cue,
                                next,
                                fire_at_beat: self.cut_at(steps, cue, next, beat) as i128,
                            },
                            ..primed
                        },
                        seq![SequencerEvent::ArmDecoder(next)],
                    ),
                    _ => (primed, seq![]),
                },
                SeqState::PlayingArmed { cue, next, fire_at_beat } => {
                    let on_phrase = first_of(steps, is_step(cue)) is None && delay_of(steps, next) == 0;
                    if fire_at_beat - beat > self.dwell_of(steps, cue) + delay_of(steps, next) {
                        // A jump back past the arm point: aim at the new cut.
                        (
                            SeqModel {
                                state: SeqState::PlayingArmed {
                                    cue,
                                    next,
                                    fire_at_beat: self.cut_at(steps, cue, next, beat) as i128,
                                },
                                ..primed
                            },
                            seq![],
                        )
                    } else if beat >= fire_at_beat || on_phrase && crossing(
                        self.prev_beat,
                        beat,
                        self.phrase_len as int,
                    ) is Some {
                        (
                            SeqModel {
                                state: SeqState::Playing { cue: next },
                                since: fire_at_beat as int,
                                ..primed
                            },
                            seq![SequencerEvent::SwapTo(next)],
                        )
                    } else {
                        (primed, seq![])
                    }
                },
            }
        }
    }

    /// Adds `id` to the active cues, or removes its first occurrence. Removing
    /// the armed cue with a bar left arms its replacement; with less, it fires.
    pub open spec fn toggled(self, id: CueId, beat: int) -> (SeqModel, Seq<SequencerEvent>) {
        let i = first_at(self.active, is_cue(id));
        if i < self.active.len() {
            let without = SeqModel { active: self.active.remove(i), ..self };
            match self.state {
                SeqState::PlayingArmed { cue, next, fire_at_beat } if next == id && fire_at_beat
                    - beat >= ARM_LEAD => match successor(without.active, cue) {
                    Some(other) if other != cue => (
                        SeqModel {
                            state: SeqState::PlayingArmed { cue, next: other, fire_at_beat },
                            ..without
                        },
                        seq![SequencerEvent::DisarmDecoder, SequencerEvent::ArmDecoder(other)],
                    ),
                    _ => (
                        SeqModel { state: SeqState::Playing { cue }, ..without },
                        seq![SequencerEvent::DisarmDecoder],
                    ),
                },
                _ => (without, seq![]),
            }
        } else {
            let with = SeqModel { active: self.active.push(id), ..self };
            if self.state is Idle {
                (
                    SeqModel { state: SeqState::Playing { cue: id }, since: 0, ..with },
                    seq![SequencerEvent::SwapTo(id)],
                )
            } else {
                (with, seq![])
            }
        }
    }

    /// Replaces the active cues. The cue on display stays; an armed cue that
    /// is gone is disarmed.
    pub open spec fn with_active(self, ids: Seq<CueId>) -> (SeqModel, Seq<SequencerEvent>) {
        let fresh = SeqModel { active: ids, prev_beat: None, ..self };
        match self.state {
            SeqState::Idle => fresh.started(),
            SeqState::Playing { .. } => (fresh, seq![]),
            SeqState::PlayingArmed { cue, next, .. } => if ids.contains(next) {
                (fresh, seq![])
            } else {
                (
                    SeqModel { state: SeqState::Playing { cue }, ..fresh },
                    seq![SequencerEvent::DisarmDecoder],
                )
            },
        }
    }

    /// Changes the phrase length; an armed cue was aimed at the old grid and is
    /// disarmed. On another grid dwells count from its origin.
    pub open spec fn with_phrase_len(self, beats: MicroBeats) -> (SeqModel, Seq<SequencerEvent>) {
        let fresh = SeqModel {
            phrase_len: phrase_floor(beats),
            prev_beat: None,
            since: if phrase_floor(beats) == self.phrase_len {
                self.since
            } else {
                0
            },
            ..self
        };
        match self.state {
            SeqState::PlayingArmed { cue, .. } => (
                SeqModel { state: SeqState::Playing { cue }, ..fresh },
                seq![SequencerEvent::DisarmDecoder],
            ),
            _ => (fresh, seq![]),
        }
    }

    /// The sequencer on a grid whose numbering may have jumped: the last beat is
    /// forgotten, and dwells count from the origin.
    pub open spec fn reprimed(self) -> SeqModel {
        SeqModel { prev_beat: None, since: 0, ..self }
    }

    /// Goes back to the first active cue, if there is one.
    pub open spec fn rewound(self) -> (SeqModel, Seq<SequencerEvent>) {
        if self.active.len() == 0 {
            (self, seq![])
        } else {
            let first = self.active[0];
            let disarm = if self.state is PlayingArmed {
                seq![SequencerEvent::DisarmDecoder]
            } else {
                seq![]
            };
            let swap = if self.playing() != Some(first) {
                seq![SequencerEvent::SwapTo(first)]
            } else {
                seq![]
            };
            (
                SeqModel { state: SeqState::Playing { cue: first }, ..self.reprimed() },
                disarm + swap,
            )
        }
    }
}

/// Whether a cue has timing of its own, how long it plays, and how long a cut to
/// it is held back.
fn timing(steps: &Vec<CueStep>, cue: CueId, phrase_len: MicroBeats) -> (r: (bool, MicroBeats, MicroBeats))
    requires
        phrase_len > 0,
    ensures
        r.0 == (first_of(steps@, is_step(cue)) is Some),
        r.1 == match first_of(steps@, is_step(cue)) {
            Some(s) => dwell_floor(s.dwell),
            None => phrase_len,
        },
        r.1 > 0,
        r.2 == delay_of(steps@, cue),
        r.2 >= 0,
{
    let mut i: usize = 0;
    while i < steps.len() && steps[i].id != cue
        invariant
            i <= steps@.len(),
            forall|j: int| 0 <= j < i ==> (#[trigger] steps@[j]).id != cue,
        decreases steps@.len() - i,
    {
        i += 1;
    }
    proof {
        first_at_is(steps@, is_step(cue), i as int);
    }
    if i < steps.len() {
        let s = steps[i];
        let dwell: i64 = if s.dwell < MICRO_BEATS_PER_TICK {
            MICRO_BEATS_PER_TICK
        } else {
            s.dwell
        };
        let delay: i64 = if s.trig_delay > 0 {
            s.trig_delay
        } else {
            0
        };
        (true, dwell, delay)
    } else {
        (false, phrase_len, 0)
    }
}

impl Sequencer {
    /// An idle sequencer with no active cues.
    pub fn new(phrase_len: MicroBeats) -> (r: Sequencer)
        ensures
            r@ == (SeqModel {
                state: SeqState::Idle,
                active: seq![],
                phrase_len: phrase_floor(phrase_len),
                prev_beat: None,
                since: 0,
            }),
            r@.wf(),
    {
        let len: i64 = if phrase_len < MICRO {
            MICRO
        } else {
            phrase_len
        };
        Sequencer {
            state: SeqState::Idle,
            active: Vec::new(),
            phrase_len: len,
            tracker: BoundaryTracker::new(),
            since: 0,
        }
    }

    /// Beats between automatic transitions.
    pub fn phrase_len(&self) -> (r: MicroBeats)
        ensures
            r == self@.phrase_len,
    {
        self.phrase_len
    }

    fn position(&self, id: CueId) -> (r: usize)
        ensures
            r == first_at(self@.active, is_cue(id)),
            r <= self.active@.len(),
    {
        let mut i: usize = 0;
        while i < self.active.len() && self.active[i] != id
            invariant
                i <= self.active@.len(),
                forall|j: int| 0 <= j < i ==> #[trigger] self.active@[j] != id,
            decreases self.active@.len() - i,
        {
            i += 1;
        }
        proof {
            first_at_is(self.active@, is_cue(id), i as int);
        }
        i
    }

    fn pick_next(&self, cur: CueId) -> (r: Option<CueId>)
        ensures
            r == successor(self@.active, cur),
    {
        if self.active.len() == 0 {
            return None;
        }
        let i: usize = self.position(cur);
        if i < self.active.len() {
            let after: usize = if i + 1 < self.active.len() {
                i + 1
            } else {
                0
            };
            proof {
                let n = self.active@.len() as int;
                if i + 1 < n {
                    vstd::arithmetic::div_mod::lemma_small_mod((i + 1) as nat, n as nat);
                } else {
                    vstd::arithmetic::div_mod::lemma_mod_self_0(n);
                }
            }
            Some(self.active[after])
        } else {
            Some(self.active[0])
        }
    }

    fn fire_beat(&self, beat: MicroBeats) -> (r: i128)
        requires
            self@.wf(),
        ensures
            r == next_boundary(beat as int, self@.phrase_len as int),
            beat < r <= beat + self@.phrase_len,
    {
        let cell: i128 = floor_div(beat as i128, self.phrase_len as i128);
        proof {
            let b = beat as int;
            let l = self.phrase_len as int;
            vstd::arithmetic::div_mod::lemma_fundamental_div_mod(b, l);
            assert((b / l + 1) * l == l * (b / l) + l) by (nonlinear_arith);
            assert(-0x8000_0000_0000_0000 <= b / l <= 0x7fff_ffff_ffff_ffff) by (nonlinear_arith)
                requires
                    -0x8000_0000_0000_0000 <= b <= 0x7fff_ffff_ffff_ffff,
                    l > 0,
            ;
        }
        (cell + 1) * self.phrase_len as i128
    }

    /// Starts the first active cue, if there is one.
    fn start(&mut self) -> (ev: Vec<SequencerEvent>)
        requires
            old(self)@.phrase_len >= MICRO,
            old(self)@.state is Idle,
            -0x2_0000_0000_0000_0000 <= old(self)@.since <= 0x2_0000_0000_0000_0000,
        ensures
            (final(self)@, ev@) == old(self)@.started(),
            final(self)@.wf(),
    {
        let mut ev: Vec<SequencerEvent> = Vec::new();
        if self.active.len() > 0 {
            let first: u32 = self.active[0];
            ev.push(SequencerEvent::SwapTo(first));
            self.state = SeqState::Playing { cue: first };
            self.since = 0;
        }
        proof {
            assert(ev@ =~= old(self)@.started().1);
        }
        ev
    }

    /// Advances the state machine one frame: starts when idle, arms the next cue
    /// a bar before the phrase boundary, and swaps on the boundary.
    pub fn tick(&mut self, snap: &ClockSnapshot) -> (ev: Vec<SequencerEvent>)
        requires
            old(self)@.wf(),
        ensures
            (final(self)@, ev@) == old(self)@.tick(snap.beat as int, snap.is_playing),
            final(self)@.wf(),
    {
        let mut ev: Vec<SequencerEvent> = Vec::new();
        if !snap.is_playing {
            self.tracker.reset();
            return ev;
        }
        let boundary = self.tracker.crossed(snap.beat, self.phrase_len);
        let fire_at: i128 = self.fire_beat(snap.beat);
        match self.state {
            SeqState::Idle => {
                return self.start();
            },
            SeqState::Playing { cue } => {
                if snap.beat as i128 >= fire_at - ARM_LEAD as i128 {
                    if let Some(next) = self.pick_next(cue) {
                        if next != cue {
                            ev.push(SequencerEvent::ArmDecoder(next));
                            self.state = SeqState::PlayingArmed { cue, next, fire_at_beat: fire_at };
                        }
                    }
                }
            },
            SeqState::PlayingArmed { cue, next, fire_at_beat } => {
                if fire_at_beat - snap.beat as i128 > self.phrase_len as i128 {
                    self.state = SeqState::PlayingArmed { cue, next, fire_at_beat: fire_at };
                } else if boundary.is_some() || snap.beat as i128 >= fire_at_beat {
                    ev.push(SequencerEvent::SwapTo(next));
                    self.state = SeqState::Playing { cue: next };
                    self.since = fire_at_beat;
                }
            },
        }
        proof {
            assert(ev@ =~= old(self)@.tick(snap.beat as int, snap.is_playing).1);
        }
        ev
    }

    fn cut_beat(&self, steps: &Vec<CueStep>, cue: CueId, next: CueId, beat: MicroBeats) -> (r: i128)
        requires
            self@.wf(),
        ensures
            r == self@.cut_at(steps@, cue, next, beat as int),
            beat < r <= beat + self@.dwell_of(steps@, cue) + delay_of(steps@, next),
    {
        let (own, dwell, _): (bool, i64, i64) = timing(steps, cue, self.phrase_len);
        let (_, _, delay): (bool, i64, i64) = timing(steps, next, self.phrase_len);
        let origin: i128 = if own {
            self.since + delay as i128
        } else {
            delay as i128
        };
        let ahead: i128 = beat as i128 - origin;
        let cell: i128 = floor_div(ahead, dwell as i128);
        proof {
            let (b, l) = (ahead as int, dwell as int);
            vstd::arithmetic::div_mod::lemma_fundamental_div_mod(b, l);
            assert((b / l + 1) * l == l * (b / l) + l) by (nonlinear_arith);
            assert(-0x10_0000_0000_0000_0000 <= b / l <= 0x10_0000_0000_0000_0000) by (nonlinear_arith)
                requires
                    -0x10_0000_0000_0000_0000 <= b <= 0x10_0000_0000_0000_0000,
                    l > 0,
            ;
        }
        let at: i128 = origin + (cell + 1) * dwell as i128;
        if own && self.since <= beat as i128 && at < origin + dwell as i128 {
            origin + dwell as i128
        } else {
            at
        }
    }

    /// Advances the state machine one frame like [`Sequencer::tick`], with the
    /// timing that cues have of their own.
    pub fn tick_steps(&mut self, snap: &ClockSnapshot, steps: &Vec<CueStep>) -> (ev: Vec<SequencerEvent>)
        requires
            old(self)@.wf(),
        ensures
            (final(self)@, ev@) == old(self)@.stepped(steps@, snap.beat as int, snap.is_playing),
            final(self)@.wf(),
    {
        let mut ev: Vec<SequencerEvent> = Vec::new();
        if !snap.is_playing {
            self.tracker.reset();
            return ev;
        }
        let boundary = self.tracker.crossed(snap.beat, self.phrase_len);
        match self.state {
            SeqState::Idle => {
                return self.start();
            },
            SeqState::Playing { cue } => {
                if let Some(next) = self.pick_next(cue) {
                    let cut: i128 = self.cut_beat(steps, cue, next, snap.beat);
                    if snap.beat as i128 >= cut - ARM_LEAD as i128 && next != cue {
                        ev.push(SequencerEvent::ArmDecoder(next));
                        self.state = SeqState::PlayingArmed { cue, next, fire_at_beat: cut };
                    }
                }
            },
            SeqState::PlayingArmed { cue, next, fire_at_beat } => {
                let cut: i128 = self.cut_beat(steps, cue, next, snap.beat);
                let (own, dwell, _): (bool, i64, i64) = timing(steps, cue, self.phrase_len);
                let (_, _, delay): (bool, i64, i64) = timing(steps, next, self.phrase_len);
                if fire_at_beat - snap.beat as i128 > dwell as i128 + delay as i128 {
                    self.state = SeqState::PlayingArmed { cue, next, fire_at_beat: cut };
                } else if snap.beat as i128 >= fire_at_beat || !own && delay == 0 && boundary.is_some() {
                    ev.push(SequencerEvent::SwapTo(next));
                    self.state = SeqState::Playing { cue: next };
                    self.since = fire_at_beat;
                }
            },
        }
        proof {
            assert(ev@ =~= old(self)@.stepped(steps@, snap.beat as int, snap.is_playing).1);
        }
        ev
    }

    /// Adds a cue to the active set or removes it. `beat` is the current beat,
    /// which decides whether a removed armed cue can still be replaced.
    pub fn toggle_active(&mut self, id: CueId, beat: MicroBeats) -> (ev: Vec<SequencerEvent>)
        requires
            old(self)@.wf(),
        ensures
            (final(self)@, ev@) == old(self)@.toggled(id, beat as int),
            final(self)@.wf(),
    {
        let mut ev: Vec<SequencerEvent> = Vec::new();
        let i: usize = self.position(id);
        if i < self.active.len() {
            self.active.remove(i);
            if let SeqState::PlayingArmed { cue, next, fire_at_beat } = self.state {
                if next == id && fire_at_beat - beat as i128 >= ARM_LEAD as i128 {
                    ev.push(SequencerEvent::DisarmDecoder);
                    self.state = SeqState::Playing { cue };
                    if let Some(other) = self.pick_next(cue) {
                        if other != cue {
                            ev.push(SequencerEvent::ArmDecoder(other));
                            self.state = SeqState::PlayingArmed { cue, next: other, fire_at_beat };
                        }
                    }
                }
            }
        } else {
            self.active.push(id);
            if let SeqState::Idle = self.state {
                ev.push(SequencerEvent::SwapTo(id));
                self.state = SeqState::Playing { cue: id };
                self.since = 0;
            }
        }
        proof {
            assert(ev@ =~= old(self)@.toggled(id, beat as int).1);
        }
        ev
    }

    /// Replaces the whole active set. Playback of the cue on display continues;
    /// an armed cue that vanished is disarmed; an empty set stops advancing.
    pub fn set_active_set(&mut self, ids: Vec<CueId>) -> (ev: Vec<SequencerEvent>)
        requires
            old(self)@.wf(),
        ensures
            (final(self)@, ev@) == old(self)@.with_active(ids@),
            final(self)@.wf(),
    {
        self.active = ids;
        self.tracker.reset();
        match self.state {
            SeqState::Idle => self.start(),
            SeqState::Playing { .. } => Vec::new(),
            SeqState::PlayingArmed { cue, next, .. } => {
                let mut ev: Vec<SequencerEvent> = Vec::new();
                let i: usize = self.position(next);
                proof {
                    first_at_bounds(self.active@, is_cue(next));
                    if ids@.contains(next) {
                        let k = ids@.index_of(next);
                        assert(is_cue(next)(ids@[k]));
                    } else if i < self.active@.len() {
                        assert(ids@[i as int] == next);
                    }
                }
                if i >= self.active.len() {
                    ev.push(SequencerEvent::DisarmDecoder);
                    self.state = SeqState::Playing { cue };
                }
                proof {
                    assert(ev@ =~= old(self)@.with_active(ids@).1);
                }
                ev
            },
        }
    }

    /// Changes the phrase length. An armed cue is disarmed; it re-arms in the
    /// new grid's arm window.
    pub fn set_phrase_len(&mut self, beats: MicroBeats) -> (ev: Vec<SequencerEvent>)
        requires
            old(self)@.wf(),
        ensures
            (final(self)@, ev@) == old(self)@.with_phrase_len(beats),
            final(self)@.wf(),
    {
        let mut ev: Vec<SequencerEvent> = Vec::new();
        let len: i64 = if beats < MICRO {
            MICRO
        } else {
            beats
        };
        if len != self.phrase_len {
            self.since = 0;
        }
        self.phrase_len = len;
        self.tracker.reset();
        if let SeqState::PlayingArmed { cue, .. } = self.state {
            self.state = SeqState::Playing { cue };
            ev.push(SequencerEvent::DisarmDecoder);
        }
        proof {
            assert(ev@ =~= old(self)@.with_phrase_len(beats).1);
        }
        ev
    }

    /// Forgets the last beat and counts dwells from the grid's origin: on a change
    /// of sync source the numbering may jump.
    pub fn reset_boundary(&mut self)
        requires
            old(self)@.wf(),
        ensures
            final(self)@ == old(self)@.reprimed(),
            final(self)@.wf(),
    {
        self.tracker.reset();
        self.since = 0;
    }

    /// Goes back to the first active cue and cancels a pending swap. Does
    /// nothing when no cue is active.
    pub fn reset_to_first(&mut self) -> (ev: Vec<SequencerEvent>)
        requires
            old(self)@.wf(),
        ensures
            (final(self)@, ev@) == old(self)@.rewound(),
            final(self)@.wf(),
    {
        let mut ev: Vec<SequencerEvent> = Vec::new();
        if self.active.len() == 0 {
            return ev;
        }
        let first: u32 = self.active[0];
        if let SeqState::PlayingArmed { .. } = self.state {
            ev.push(SequencerEvent::DisarmDecoder);
        }
        let showing = match self.playing() {
            Some(cue) => cue == first,
            None => false,
        };
        if !showing {
            ev.push(SequencerEvent::SwapTo(first));
        }
        self.state = SeqState::Playing { cue: first };
        self.tracker.reset();
        self.since = 0;
        proof {
            assert(ev@ =~= old(self)@.rewound().1);
        }
        ev
    }

    /// The cue on display.
    pub fn playing(&self) -> (r: Option<CueId>)
        ensures
            r == self@.playing(),
    {
        match self.state {
            SeqState::Idle => None,
            SeqState::Playing { cue } => Some(cue),
            SeqState::PlayingArmed { cue, .. } => Some(cue),
        }
    }

    /// The cue armed to come next.
    pub fn armed(&self) -> (r: Option<CueId>)
        ensures
            r == self@.armed(),
    {
        match self.state {
            SeqState::PlayingArmed { next, .. } => Some(next),
            _ => None,
        }
    }
}

/// As time goes by the output only ever cuts to the armed cue, at a phrase
/// boundary or at the beat it was armed for.
pub proof fn cuts_happen_on_boundaries(m: SeqModel, beat: int, is_playing: bool, to: CueId)
    requires
        m.wf(),
        m.tick(beat, is_playing).1.contains(SequencerEvent::SwapTo(to)),
    ensures
        is_playing,
        m.armed() == Some(to),
        m.state matches SeqState::PlayingArmed { fire_at_beat, .. } && (beat >= fire_at_beat || crossing(
            m.prev_beat,
            beat,
            m.phrase_len as int,
        ) is Some),
        m.tick(beat, is_playing).0.playing() == Some(to),
{
}

/// A cue is armed at most one bar before the boundary it will cut on, and it is
/// the round-robin successor of the cue on display.
pub proof fn arming_leads_by_at_most_a_bar(m: SeqModel, beat: int, is_playing: bool, next: CueId)
    requires
        m.wf(),
        i64::MIN <= beat <= i64::MAX,
        m.tick(beat, is_playing).1.contains(SequencerEvent::ArmDecoder(next)),
    ensures
        m.state matches SeqState::Playing { cue } && successor(m.active, cue) == Some(next),
        m.tick(beat, is_playing).0.state matches SeqState::PlayingArmed { fire_at_beat, .. } && {
            &&& fire_at_beat == next_boundary(beat, m.phrase_len as int)
            &&& beat < fire_at_beat <= beat + ARM_LEAD
        },
{
    let l = m.phrase_len as int;
    vstd::arithmetic::div_mod::lemma_fundamental_div_mod(beat, l);
    assert((beat / l + 1) * l == l * (beat / l) + l) by (nonlinear_arith);
}

/// The same with timing of the cues' own: the output only cuts to the armed cue,
/// at the beat it was armed for, or at a phrase boundary when neither cue has
/// timing that says otherwise; and the next dwell counts from that beat.
pub proof fn timed_cuts_come_when_due(
    m: SeqModel,
    steps: Seq<CueStep>,
    beat: int,
    is_playing: bool,
    to: CueId,
)
    requires
        m.wf(),
        m.stepped(steps, beat, is_playing).1.contains(SequencerEvent::SwapTo(to)),
    ensures
        is_playing,
        m.armed() == Some(to),
        m.state matches SeqState::PlayingArmed { cue, fire_at_beat, .. } && {
            &&& beat >= fire_at_beat || first_of(steps, is_step(cue)) is None && delay_of(steps, to) == 0
                && crossing(m.prev_beat, beat, m.phrase_len as int) is Some
            &&& m.stepped(steps, beat, is_playing).0.since == fire_at_beat
        },
        m.stepped(steps, beat, is_playing).0.playing() == Some(to),
{
}

/// The same with timing of the cues' own: a cue is armed at most one bar before
/// its cut is due, and it is the round-robin successor of the cue on display.
pub proof fn timed_arming_leads_by_at_most_a_bar(
    m: SeqModel,
    steps: Seq<CueStep>,
    beat: int,
    is_playing: bool,
    next: CueId,
)
    requires
        m.wf(),
        i64::MIN <= beat <= i64::MAX,
        m.stepped(steps, beat, is_playing).1.contains(SequencerEvent::ArmDecoder(next)),
    ensures
        m.state matches SeqState::Playing { cue } && {
            &&& successor(m.active, cue) == Some(next)
            &&& m.stepped(steps, beat, is_playing).0.state matches SeqState::PlayingArmed { fire_at_beat, .. }
            &&& fire_at_beat == m.cut_at(steps, cue, next, beat)
            &&& beat < fire_at_beat <= beat + ARM_LEAD
        },
{
    if let SeqState::Playing { cue } = m.state {
        cuts_lie_ahead(m, steps, cue, next, beat);
    }
}

/// Once the beat reaches the one a cue was armed for, the output cuts to it,
/// whatever the cues' timing.
pub proof fn an_armed_cue_fires(m: SeqModel, steps: Seq<CueStep>, beat: int)
    requires
        m.wf(),
        m.state matches SeqState::PlayingArmed { fire_at_beat, .. } && beat >= fire_at_beat,
    ensures
        m.tick(beat, true).1 == seq![SequencerEvent::SwapTo(m.armed()->0)],
        m.tick(beat, true).0.playing() == m.armed(),
        m.stepped(steps, beat, true).1 == seq![SequencerEvent::SwapTo(m.armed()->0)],
        m.stepped(steps, beat, true).0.playing() == m.armed(),
{
}

/// A solo cue plays on for ever: no frame arms or cuts.
pub proof fn a_solo_cue_never_swaps(
    m: SeqModel,
    steps: Seq<CueStep>,
    cue: CueId,
    beat: int,
    is_playing: bool,
)
    requires
        m.active == seq![cue],
        m.state == (SeqState::Playing { cue }),
    ensures
        m.tick(beat, is_playing).1.len() == 0,
        m.tick(beat, is_playing).0.state == m.state,
        m.stepped(steps, beat, is_playing).1.len() == 0,
        m.stepped(steps, beat, is_playing).0.state == m.state,
{
    first_at_is(m.active, is_cue(cue), 0);
}

/// While the clock is paused nothing moves, and the first frame afterwards
/// cannot cut on a boundary that passed meanwhile.
pub proof fn a_pause_moves_nothing(m: SeqModel, steps: Seq<CueStep>, beat: int)
    ensures
        m.tick(beat, false).1.len() == 0,
        m.tick(beat, false).0 == (SeqModel { prev_beat: None, ..m }),
        m.stepped(steps, beat, false).1.len() == 0,
        m.stepped(steps, beat, false).0 == (SeqModel { prev_beat: None, ..m }),
{
}

/// The cue `k` turns after `cur`.
pub open spec fn turns_after(active: Seq<CueId>, cur: CueId, k: nat) -> CueId
    decreases k,
{
    if k == 0 {
        cur
    } else {
        successor(active, turns_after(active, cur, (k - 1) as nat))->0
    }
}

/// Round robin: from the cue at position `i`, the one `k` turns later is the
/// one `k` positions further round. Every active cue gets its turn.
pub proof fn every_cue_gets_its_turn(active: Seq<CueId>, i: int, k: nat)
    requires
        active.no_duplicates(),
        0 <= i < active.len(),
    ensures
        turns_after(active, active[i], k) == active[(i + k) % active.len() as int],
    decreases k,
{
    let n = active.len() as int;
    if k == 0 {
        vstd::arithmetic::div_mod::lemma_small_mod(i as nat, n as nat);
    } else {
        every_cue_gets_its_turn(active, i, (k - 1) as nat);
        let j = (i + k - 1) % n;
        assert(0 <= j < n);
        first_at_is(active, is_cue(active[j]), j);
        vstd::arithmetic::div_mod::lemma_add_mod_noop(i + k - 1, 1, n);
        vstd::arithmetic::div_mod::lemma_add_mod_noop(j, 1, n);
        vstd::arithmetic::div_mod::lemma_mod_twice(i + k - 1, n);
    }
}

/// Toggling a cue that was not active, twice, leaves the active set as it was.
pub proof fn toggling_twice_restores_the_set(m: SeqModel, id: CueId, beat: int, later: int)
    requires
        !m.active.contains(id),
    ensures
        m.toggled(id, beat).0.toggled(id, later).0.active == m.active,
{
    let i = first_at(m.active, is_cue(id));
    first_at_bounds(m.active, is_cue(id));
    if i < m.active.len() {
        assert(m.active[i] == id);
    }
    let with = m.active.push(id);
    assert forall|j: int| 0 <= j < m.active.len() implies !is_cue(id)(#[trigger] with[j]) by {
        assert(with[j] == m.active[j]);
        assert(m.active.contains(m.active[j]));
    }
    first_at_is(with, is_cue(id), m.active.len() as int);
    assert(with.remove(m.active.len() as int) =~= m.active);
}

/// A rewind shows the first active cue with nothing armed, and a second rewind
/// has nothing left to do.
pub proof fn a_rewind_shows_the_first_cue(m: SeqModel)
    requires
        m.active.len() > 0,
    ensures
        m.rewound().0.playing() == Some(m.active[0]),
        m.rewound().0.armed() is None,
        m.rewound().0.rewound().1.len() == 0,
{
}

/// A step whose events tell exactly how the playing and the armed cue change:
/// nothing changes without an event, a cue is armed or disarmed by name, and a
/// cut leads to the cue that then plays.
pub open spec fn orderly(before: SeqModel, step: (SeqModel, Seq<SequencerEvent>)) -> bool {
    let (after, events) = step;
    &&& after.wf()
    &&& {
        ||| events.len() == 0 && after.playing() == before.playing() && after.armed() == before.armed()
        ||| events.len() == 1 && match events[0] {
            SequencerEvent::ArmDecoder(n) => before.armed() is None && after.armed() == Some(n)
                && after.playing() == before.playing(),
            SequencerEvent::SwapTo(c) => after.playing() == Some(c) && after.armed() is None,
            SequencerEvent::DisarmDecoder => after.playing() == before.playing() && after.armed() is None,
        }
        ||| events.len() == 2 && events[0] == SequencerEvent::DisarmDecoder && match events[1] {
            SequencerEvent::ArmDecoder(n) => after.armed() == Some(n) && after.playing() == before.playing(),
            SequencerEvent::SwapTo(c) => after.playing() == Some(c) && after.armed() is None,
            SequencerEvent::DisarmDecoder => false,
        }
    }
}

/// Every operation of the sequencer is orderly, and a frame cuts to the armed
/// cue only.
pub proof fn operations_are_orderly(
    m: SeqModel,
    beat: int,
    is_playing: bool,
    id: CueId,
    ids: Seq<CueId>,
    beats: MicroBeats,
    steps: Seq<CueStep>,
)
    requires
        m.wf(),
        i64::MIN <= beat <= i64::MAX,
    ensures
        orderly(m, m.tick(beat, is_playing)),
        m.tick(beat, is_playing).1.contains(SequencerEvent::SwapTo(id)) ==> m.armed() == Some(id),
        orderly(m, m.stepped(steps, beat, is_playing)),
        m.stepped(steps, beat, is_playing).1.contains(SequencerEvent::SwapTo(id)) ==> m.armed() == Some(id),
        orderly(m, m.toggled(id, beat)),
        orderly(m, m.with_active(ids)),
        orderly(m, m.with_phrase_len(beats)),
        orderly(m, m.rewound()),
        orderly(m, (SeqModel { prev_beat: None, ..m }, seq![])),
        orderly(m, (m.reprimed(), seq![])),
{
    let l = m.phrase_len as int;
    vstd::arithmetic::div_mod::lemma_fundamental_div_mod(beat, l);
    assert((beat / l + 1) * l == l * (beat / l) + l) by (nonlinear_arith);
    match m.state {
        SeqState::Playing { cue } => if let Some(next) = successor(m.active, cue) {
            cuts_lie_ahead(m, steps, cue, next, beat);
        },
        SeqState::PlayingArmed { cue, next, .. } => cuts_lie_ahead(m, steps, cue, next, beat),
        SeqState::Idle => {},
    }
}

/// A cut is always due after the beat it is seen from, and at most the dwell and
/// the delay later.
pub proof fn cuts_lie_ahead(m: SeqModel, steps: Seq<CueStep>, cue: CueId, next: CueId, beat: int)
    requires
        m.wf(),
    ensures
        beat < m.cut_at(steps, cue, next, beat) <= beat + m.dwell_of(steps, cue) + delay_of(steps, next),
{
    let l = m.dwell_of(steps, cue) as int;
    let own = first_of(steps, is_step(cue)) is Some;
    let b = beat - delay_of(steps, next) - if own {
        m.since
    } else {
        0
    };
    vstd::arithmetic::div_mod::lemma_fundamental_div_mod(b, l);
    assert((b / l + 1) * l == l * (b / l) + l) by (nonlinear_arith);
}

/// A cue with timing of its own plays its dwell: seen from any beat before that
/// is over, the cut is due once the dwell since it came on and the delay of the
/// next cue have passed, and later cuts are whole dwells later.
pub proof fn a_cue_plays_its_dwell(m: SeqModel, steps: Seq<CueStep>, cue: CueId, next: CueId, beat: int)
    requires
        m.wf(),
        first_of(steps, is_step(cue)) is Some,
        m.since <= beat,
    ensures
        ({
            let first = m.since + m.dwell_of(steps, cue) + delay_of(steps, next);
            let at = m.cut_at(steps, cue, next, beat);
            &&& beat < first ==> at == first
            &&& at >= first
            &&& (at - first) % m.dwell_of(steps, cue) as int == 0
        }),
{
    let l = m.dwell_of(steps, cue) as int;
    let o = m.since + delay_of(steps, next);
    let b = beat - o;
    vstd::arithmetic::div_mod::lemma_fundamental_div_mod(b, l);
    let k = b / l;
    assert((k + 1) * l == l * k + l) by (nonlinear_arith);
    if k >= 0 {
        vstd::arithmetic::div_mod::lemma_mod_multiples_basic(k, l);
        assert(l * k == k * l) by (nonlinear_arith);
        assert(k * l >= 0) by (nonlinear_arith)
            requires
                k >= 0,
                l > 0,
        ;
        assert(m.cut_at(steps, cue, next, beat) == o + l + k * l);
        assert(k == 0 ==> k * l == 0);
        if k >= 1 {
            assert(l * k >= l) by (nonlinear_arith)
                requires
                    k >= 1,
                    l > 0,
            ;
        }
    } else {
        vstd::arithmetic::div_mod::lemma_mod_multiples_basic(0, l);
        assert(m.cut_at(steps, cue, next, beat) == o + l) by {
            assert(l * k + l <= 0) by (nonlinear_arith)
                requires
                    k <= -1,
                    l > 0,
            ;
        }
    }
}

/// Whether the rotation keeps to the phrase grid so far.
pub open spec fn on_the_grid(m: SeqModel) -> bool {
    &&& m.since % m.phrase_len as int == 0
    &&& m.state matches SeqState::PlayingArmed { fire_at_beat, .. } ==> fire_at_beat as int
        % m.phrase_len as int == 0 && (m.prev_beat matches Some(p) ==> p < fire_at_beat <= p + m.phrase_len)
}

/// When every cue has the phrase length for its dwell and no delay, or none has
/// timing of its own, the rotation keeps to the phrase grid.
pub proof fn equal_dwells_make_the_phrase_grid(m: SeqModel, steps: Seq<CueStep>, beat: int, is_playing: bool)
    requires
        m.wf(),
        i64::MIN <= beat <= i64::MAX,
        forall|i: int|
            0 <= i < steps.len() ==> (#[trigger] steps[i]).dwell == m.phrase_len && steps[i].trig_delay <= 0,
        steps.len() > 0 ==> on_the_grid(m) && m.since <= beat,
    ensures
        m.stepped(steps, beat, is_playing) == m.tick(beat, is_playing),
        on_the_grid(m) ==> on_the_grid(m.tick(beat, is_playing).0),
{
    let l = m.phrase_len as int;
    vstd::arithmetic::div_mod::lemma_fundamental_div_mod(beat, l);
    assert((beat / l + 1) * l == l * (beat / l) + l) by (nonlinear_arith);
    vstd::arithmetic::div_mod::lemma_mod_multiples_basic(beat / l + 1, l);
    match m.state {
        SeqState::Playing { cue } => if let Some(next) = successor(m.active, cue) {
            equal_dwells_cut_on_the_grid(m, steps, cue, next, beat);
        },
        SeqState::PlayingArmed { cue, next, fire_at_beat } => {
            equal_dwells_cut_on_the_grid(m, steps, cue, next, beat);
            if let Some(p) = m.prev_beat {
                if on_the_grid(m) && crossing(Some(p), beat, l) is Some && beat < fire_at_beat {
                    let k = fire_at_beat as int / l;
                    vstd::arithmetic::div_mod::lemma_fundamental_div_mod(fire_at_beat as int, l);
                    vstd::arithmetic::div_mod::lemma_fundamental_div_mod(p, l);
                    let (i, j) = (beat / l, p / l);
                    assert(false) by (nonlinear_arith)
                        requires
                            fire_at_beat == l * k,
                            p == l * j + p % l,
                            0 <= p % l < l,
                            beat == l * i + beat % l,
                            0 <= beat % l < l,
                            i > j,
                            beat < fire_at_beat,
                            fire_at_beat <= p + l,
                            l > 0,
                    ;
                }
            }
        },
        SeqState::Idle => {},
    }
}

proof fn equal_dwells_cut_on_the_grid(m: SeqModel, steps: Seq<CueStep>, cue: CueId, next: CueId, beat: int)
    requires
        m.wf(),
        forall|i: int|
            0 <= i < steps.len() ==> (#[trigger] steps[i]).dwell == m.phrase_len && steps[i].trig_delay <= 0,
        steps.len() > 0 ==> m.since % m.phrase_len as int == 0 && m.since <= beat,
    ensures
        m.dwell_of(steps, cue) == m.phrase_len,
        delay_of(steps, next) == 0,
        m.cut_at(steps, cue, next, beat) == next_boundary(beat, m.phrase_len as int),
{
    first_at_bounds(steps, is_step(cue));
    first_at_bounds(steps, is_step(next));
    let l = m.phrase_len as int;
    if first_of(steps, is_step(cue)) is Some {
        let k = m.since / l;
        vstd::arithmetic::div_mod::lemma_fundamental_div_mod(m.since, l);
        vstd::arithmetic::div_mod::lemma_fundamental_div_mod(beat, l);
        vstd::arithmetic::div_mod::lemma_fundamental_div_mod(beat - m.since, l);
        let (i, j) = (beat / l, (beat - m.since) / l);
        assert(i - k == j) by (nonlinear_arith)
            requires
                m.since == l * k,
                beat == l * i + beat % l,
                0 <= beat % l < l,
                beat - m.since == l * j + (beat - m.since) % l,
                0 <= (beat - m.since) % l < l,
                l > 0,
        ;
        assert(l * k + (j + 1) * l == (i + 1) * l) by (nonlinear_arith)
            requires
                i - k == j,
        ;
        assert((j + 1) * l >= l) by (nonlinear_arith)
            requires
                beat - m.since == l * j + (beat - m.since) % l,
                (beat - m.since) % l < l,
                beat - m.since >= 0,
                l > 0,
        ;
    }
}

} // verus!
