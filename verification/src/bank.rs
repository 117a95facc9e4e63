//! The sequencer's playable content. A [`Cue`] is a placement of a source clip
//! with trim points and playback options; a [`Bank`] is an ordered set of cues.
//! The sequencer plays the live bank; any bank can be edited meanwhile.

use vstd::prelude::*;
use vstd::string::*;

use crate::commands::{chain_copy, ChainSlot, ChainSlotModel, ClipId};
use crate::seqs::{first_at, first_at_is};
use crate::text::views;
use crate::units::{Micro, MicroBpm, MicroSecs, MICRO};

verus! {

/// Identifies a cue. One source clip can appear as several cues, so decoders
/// are keyed by cue.
pub type CueId = u32;

/// A value that can be switched off without being forgotten.
#[derive(Clone, Copy, Debug, PartialEq, Eq, Structural)]
pub struct Toggle<T> {
    pub on: bool,
    pub val: T,
}

impl<T> Toggle<T> {
    /// A switched-off value.
    pub fn off(val: T) -> (r: Toggle<T>)
        ensures
            r == (Toggle { on: false, val }),
    {
        Toggle { on: false, val }
    }
}

/// A placement of a clip: trim, effect chain, and timing and speed options.
/// The fields from `dwell` on take effect in advanced mode only.
#[derive(Debug)]
pub struct Cue {
    pub id: CueId,
    pub clip: ClipId,
    pub name: String,
    /// Where playback and loop restarts seek to, from the clip start.
    pub in_sec: MicroSecs,
    /// Where playback turns round; absent means the clip's natural end.
    pub out_sec: Option<MicroSecs>,
    /// Overrides the global preserve-playhead default; absent inherits it.
    pub preserve: Option<bool>,
    /// The effects run while this cue plays; empty means the live shader.
    pub chain: Vec<ChainSlot>,
    /// Ticks that the cue plays before the rotation advances; absent stands for
    /// the phrase length.
    pub dwell: Option<u32>,
    /// Re-loop grid in ticks; absent inherits the global grid, zero disables.
    pub loop_len: Option<u32>,
    /// Shift of the re-loop grid, in ticks.
    pub loop_phase: Toggle<i32>,
    /// Shift of the in-point.
    pub start_nudge: Toggle<MicroSecs>,
    /// Ticks that the previous cue is held before this one cuts in.
    pub trig_delay: Toggle<u32>,
    /// Source tempo; absent inherits the clip's.
    pub bpm: Option<MicroBpm>,
    /// Whether playback is retimed to the session tempo.
    pub bpm_sync_on: bool,
    /// Playback speed multiplier.
    pub speed_mul: Toggle<Micro>,
}

/// The mathematical content of a [`Cue`].
pub struct CueModel {
    pub id: CueId,
    pub clip: ClipId,
    pub name: Seq<char>,
    pub in_sec: MicroSecs,
    pub out_sec: Option<MicroSecs>,
    pub preserve: Option<bool>,
    pub chain: Seq<ChainSlotModel>,
    pub dwell: Option<u32>,
    pub loop_len: Option<u32>,
    pub loop_phase: Toggle<i32>,
    pub start_nudge: Toggle<MicroSecs>,
    pub trig_delay: Toggle<u32>,
    pub bpm: Option<MicroBpm>,
    pub bpm_sync_on: bool,
    pub speed_mul: Toggle<Micro>,
}

impl View for Cue {
    type V = CueModel;

    open spec fn view(&self) -> CueModel {
        CueModel {
            id: self.id,
            clip: self.clip,
            name: self.name@,
            in_sec: self.in_sec,
            out_sec: self.out_sec,
            preserve: self.preserve,
            chain: views(self.chain@),
            dwell: self.dwell,
            loop_len: self.loop_len,
            loop_phase: self.loop_phase,
            start_nudge: self.start_nudge,
            trig_delay: self.trig_delay,
            bpm: self.bpm,
            bpm_sync_on: self.bpm_sync_on,
            speed_mul: self.speed_mul,
        }
    }
}

impl CueModel {
    /// A full-length cue with every option inherited or off.
    pub open spec fn fresh(id: CueId, clip: ClipId, name: Seq<char>) -> CueModel {
        CueModel {
            id,
            clip,
            name,
            in_sec: 0,
            out_sec: None,
            preserve: None,
            chain: seq![],
            dwell: None,
            loop_len: None,
            loop_phase: Toggle { on: false, val: 0 },
            start_nudge: Toggle { on: false, val: 0 },
            trig_delay: Toggle { on: false, val: 0 },
            bpm: None,
            bpm_sync_on: false,
            speed_mul: Toggle { on: false, val: MICRO },
        }
    }

    /// The cue with an out-point at or before its in-point dropped.
    pub open spec fn normalized(self) -> CueModel {
        match self.out_sec {
            Some(o) if o <= self.in_sec => CueModel { out_sec: None, ..self },
            _ => self,
        }
    }
}

impl Cue {
    /// A full-length cue for `clip` with every option inherited or off.
    pub fn new(id: CueId, clip: ClipId, name: String) -> (r: Cue)
        ensures
            r@ == CueModel::fresh(id, clip, name@),
    {
        let r = Cue {
            id,
            clip,
            name,
            in_sec: 0,
            out_sec: None,
            preserve: None,
            chain: Vec::new(),
            dwell: None,
            loop_len: None,
            loop_phase: Toggle::off(0),
            start_nudge: Toggle::off(0),
            trig_delay: Toggle::off(0),
            bpm: None,
            bpm_sync_on: false,
            speed_mul: Toggle::off(MICRO),
        };
        proof {
            assert(r@.chain =~= Seq::<ChainSlotModel>::empty());
        }
        r
    }

    /// Drops an out-point that is not after the in-point: a decoder only
    /// honours an out-point strictly after it, so the editor never shows a trim
    /// that playback ignores.
    pub fn normalize_trim(&mut self)
        ensures
            final(self)@ == old(self)@.normalized(),
    {
        if let Some(o) = self.out_sec {
            if o <= self.in_sec {
                self.out_sec = None;
            }
        }
    }
}

impl Clone for Cue {
    fn clone(&self) -> (r: Self)
        ensures
            r@ == self@,
    {
        Cue {
            id: self.id,
            clip: self.clip,
            name: self.name.clone(),
            in_sec: self.in_sec,
            out_sec: self.out_sec,
            preserve: self.preserve,
            chain: chain_copy(&self.chain),
            dwell: self.dwell,
            loop_len: self.loop_len,
            loop_phase: self.loop_phase,
            start_nudge: self.start_nudge,
            trig_delay: self.trig_delay,
            bpm: self.bpm,
            bpm_sync_on: self.bpm_sync_on,
            speed_mul: self.speed_mul,
        }
    }
}

/// An ordered set of cues.
#[derive(Debug)]
pub struct Bank {
    pub name: String,
    pub cues: Vec<Cue>,
}

/// The mathematical content of a [`Bank`].
pub struct BankModel {
    pub name: Seq<char>,
    pub cues: Seq<CueModel>,
}

impl View for Bank {
    type V = BankModel;

    open spec fn view(&self) -> BankModel {
        BankModel { name: self.name@, cues: views(self.cues@) }
    }
}

/// Selects the cue with a given id.
pub open spec fn has_id(id: CueId) -> spec_fn(CueModel) -> bool {
    |c: CueModel| c.id == id
}

/// Selects the cues that play a given clip.
pub open spec fn plays(clip: ClipId) -> spec_fn(CueModel) -> bool {
    |c: CueModel| c.clip == clip
}

/// The ids of a sequence of cues.
pub open spec fn ids_of(cues: Seq<CueModel>) -> Seq<CueId> {
    Seq::new(cues.len(), |i: int| cues[i].id)
}

impl BankModel {
    /// A bank without cues.
    pub open spec fn empty(name: Seq<char>) -> BankModel {
        BankModel { name, cues: seq![] }
    }

    /// Where the cue with `id` stands, or the number of cues.
    pub open spec fn index_of(self, id: CueId) -> int {
        first_at(self.cues, has_id(id))
    }

    /// Whether a cue with `id` is in the bank.
    pub open spec fn has(self, id: CueId) -> bool {
        self.index_of(id) < self.cues.len()
    }

    /// The cue with `id`, if the bank has one.
    pub open spec fn cue(self, id: CueId) -> Option<CueModel> {
        if self.has(id) {
            Some(self.cues[self.index_of(id)])
        } else {
            None
        }
    }

    /// The bank with the cue at position `i` replaced.
    pub open spec fn with_cue(self, i: int, cue: CueModel) -> BankModel {
        BankModel { cues: self.cues.update(i, cue), ..self }
    }
}

impl Bank {
    /// An empty bank.
    pub fn new(name: String) -> (r: Bank)
        ensures
            r@ == BankModel::empty(name@),
    {
        let r = Bank { name, cues: Vec::new() };
        proof {
            assert(r@.cues =~= Seq::<CueModel>::empty());
        }
        r
    }

    /// Where the cue with `id` stands, or the number of cues.
    pub fn position(&self, id: CueId) -> (r: usize)
        ensures
            r == self@.index_of(id),
            r <= self.cues@.len(),
    {
        let mut i: usize = 0;
        while i < self.cues.len() && self.cues[i].id != id
            invariant
                i <= self.cues@.len(),
                forall|j: int| 0 <= j < i ==> (#[trigger] self.cues@[j]).id != id,
            decreases self.cues@.len() - i,
        {
            i += 1;
        }
        proof {
            assert forall|j: int| 0 <= j < i implies !has_id(id)(#[trigger] self@.cues[j]) by {
                assert(self.cues@[j].id != id);
            }
            first_at_is(self@.cues, has_id(id), i as int);
        }
        i
    }

    /// Where the first cue that plays `clip` stands, or the number of cues.
    pub fn position_of_clip(&self, clip: ClipId) -> (r: usize)
        ensures
            r == first_at(self@.cues, plays(clip)),
            r <= self.cues@.len(),
    {
        let mut i: usize = 0;
        while i < self.cues.len() && self.cues[i].clip != clip
            invariant
                i <= self.cues@.len(),
                forall|j: int| 0 <= j < i ==> (#[trigger] self.cues@[j]).clip != clip,
            decreases self.cues@.len() - i,
        {
            i += 1;
        }
        proof {
            assert forall|j: int| 0 <= j < i implies !plays(clip)(#[trigger] self@.cues[j]) by {
                assert(self.cues@[j].clip != clip);
            }
            first_at_is(self@.cues, plays(clip), i as int);
        }
        i
    }

    /// The cue with `id`.
    pub fn cue(&self, id: CueId) -> (r: Option<&Cue>)
        ensures
            match r {
                Some(c) => self@.cue(id) == Some(c@),
                None => self@.cue(id) is None,
            },
    {
        let i: usize = self.position(id);
        if i < self.cues.len() {
            Some(&self.cues[i])
        } else {
            None
        }
    }

    /// The cue with `id`, to be edited in place.
    pub fn cue_mut(&mut self, id: CueId) -> (r: Option<&mut Cue>)
        ensures
            match r {
                Some(c) => {
                    &&& old(self)@.cue(id) == Some((*c)@)
                    &&& final(self)@ == old(self)@.with_cue(old(self)@.index_of(id), (*final(c))@)
                },
                None => {
                    &&& old(self)@.cue(id) is None
                    &&& final(self)@ == old(self)@
                },
            },
    {
        let i: usize = self.position(id);
        if i < self.cues.len() {
            let ghost before = *self;
            let r = &mut self.cues[i];
            proof {
                let after = before.cues@.update(i as int, *final(r));
                assert(views(after) =~= before@.cues.update(i as int, (*final(r))@));
            }
            Some(r)
        } else {
            None
        }
    }

    /// Cue ids in play order.
    pub fn ids(&self) -> (r: Vec<CueId>)
        ensures
            r@ == ids_of(self@.cues),
    {
        let mut r: Vec<CueId> = Vec::new();
        let mut i: usize = 0;
        while i < self.cues.len()
            invariant
                i <= self.cues@.len(),
                r@.len() == i,
                forall|j: int| 0 <= j < i ==> #[trigger] r@[j] == self.cues@[j].id,
            decreases self.cues@.len() - i,
        {
            r.push(self.cues[i].id);
            i += 1;
        }
        proof {
            assert(r@ =~= ids_of(self@.cues));
        }
        r
    }
}

} // verus!
