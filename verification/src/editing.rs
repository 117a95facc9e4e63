//! Editing banks and cues while one bank plays: what each edit changes, and
//! how the sequencer's active set is kept in step with the live bank.

use vstd::prelude::*;
use vstd::string::*;

use crate::app::{
    emit, listed_after, playback_follows_the_sequencer, App, AppModel, Effect, EffectModel, Step,
};
use crate::bank::{ids_of, plays, Bank, BankModel, Cue, CueId, CueModel};
use crate::clippool::{has_clip_id, ClipModel};
use crate::commands::{
    ChainSlot, ChainSlotModel, ClipId, CueParam, ShaderId, SlotRef, SlotRefModel,
};
use crate::isf::IsfValue;
use crate::seqs::{first_at, kept};
use crate::sequencer::operations_are_orderly;
use crate::text::{decimal, decimal_text, views};
use crate::units::{MicroBeats, MicroBpm, MicroSecs};

verus! {

/// A number limited from above.
pub open spec fn at_most_int(x: int, hi: int) -> int {
    if x < hi {
        x
    } else {
        hi
    }
}

/// A cue with one advanced knob changed.
pub open spec fn with_param(c: CueModel, p: CueParam) -> CueModel {
    match p {
        CueParam::Dwell(v) => CueModel { dwell: v, ..c },
        CueParam::Loop(v) => CueModel { loop_len: v, ..c },
        CueParam::LoopPhase(t) => CueModel { loop_phase: t, ..c },
        CueParam::StartNudge(t) => CueModel { start_nudge: t, ..c },
        CueParam::TrigDelay(t) => CueModel { trig_delay: t, ..c },
        CueParam::Bpm(v) => CueModel { bpm: v, ..c },
        CueParam::BpmSync(on) => CueModel { bpm_sync_on: on, ..c },
        CueParam::SpeedMul(t) => CueModel { speed_mul: t, ..c },
    }
}

/// Selects the effects other than one pinned shader.
pub open spec fn not_pinned(id: ShaderId) -> spec_fn(ChainSlotModel) -> bool {
    |s: ChainSlotModel| s.shader != SlotRefModel::Pinned(id)
}

/// A cue without a pinned shader in its chain.
pub open spec fn unpinned(c: CueModel, id: ShaderId) -> CueModel {
    CueModel { chain: kept(c.chain, not_pinned(id)), ..c }
}

/// A bank without a pinned shader in any chain.
pub open spec fn unpinned_bank(b: BankModel, id: ShaderId) -> BankModel {
    BankModel { cues: Seq::new(b.cues.len(), |i: int| unpinned(b.cues[i], id)), ..b }
}

/// The letter of the bank added as number `n`.
pub open spec fn bank_letter(n: int) -> char {
    (65 + n % 26) as u8 as char
}

/// The name of the bank added as number `n`: a letter, past the alphabet with a
/// number.
pub open spec fn bank_name(n: int) -> Seq<char> {
    if n < 26 {
        seq![bank_letter(n)]
    } else {
        seq![bank_letter(n)] + decimal((n / 26) as nat)
    }
}

impl AppModel {
    /// The bank that edits aim at.
    pub open spec fn editing(self) -> BankModel {
        self.banks[self.edit_bank]
    }

    /// The state with the edit bank replaced.
    pub open spec fn with_edit_bank(self, b: BankModel) -> AppModel {
        AppModel { banks: self.banks.update(self.edit_bank, b), ..self }
    }

    /// The active set rebuilt from the live bank.
    pub open spec fn resynced(self) -> Step {
        self.sequenced(self.seq.with_active(ids_of(self.banks[self.live_bank].cues)))
    }

    /// The active set rebuilt if the bank being edited is live.
    pub open spec fn resynced_if_editing(self) -> Step {
        if self.edit_bank == self.live_bank {
            self.resynced()
        } else {
            (self, seq![])
        }
    }

    /// The state with a cue of the edit bank changed; unchanged when the bank
    /// has no such cue.
    pub open spec fn edited(self, id: CueId, f: spec_fn(CueModel) -> CueModel) -> AppModel {
        let b = self.editing();
        if b.has(id) {
            self.with_edit_bank(b.with_cue(b.index_of(id), f(b.cues[b.index_of(id)])))
        } else {
            self
        }
    }

    /// A full-length cue for a clip added to the edit bank and selected.
    pub open spec fn cue_added(self, clip: ClipId) -> Step {
        let b = self.editing();
        let cue = CueModel::fresh(self.next_cue_id, clip, self.clip_name(clip));
        AppModel {
            selected_cue: Some(self.next_cue_id),
            next_cue_id: (self.next_cue_id + 1) as CueId,
            ..self.with_edit_bank(BankModel { cues: b.cues.push(cue), ..b })
        }.resynced_if_editing()
    }

    /// The selection without one cue.
    pub open spec fn selection_without(self, id: CueId) -> Option<CueId> {
        if self.selected_cue == Some(id) {
            None
        } else {
            self.selected_cue
        }
    }

    /// A cue removed from the edit bank.
    pub open spec fn cue_removed(self, id: CueId) -> Step {
        let b = self.editing();
        if b.has(id) {
            AppModel {
                selected_cue: self.selection_without(id),
                ..self.with_edit_bank(BankModel { cues: b.cues.remove(b.index_of(id)), ..b })
            }.resynced_if_editing()
        } else {
            (self, seq![])
        }
    }

    /// A cue of the edit bank moved to a position.
    pub open spec fn cue_moved(self, id: CueId, target: int) -> Step {
        let b = self.editing();
        if b.has(id) {
            let i = b.index_of(id);
            let rest = b.cues.remove(i);
            self.with_edit_bank(
                BankModel {
                    cues: rest.insert(at_most_int(target, rest.len() as int), b.cues[i]),
                    ..b
                },
            ).resynced_if_editing()
        } else {
            (self, seq![])
        }
    }

    /// One advanced knob changed. After a dwell or a delay the sequencer's set is
    /// rebuilt; it holds the same cues as before, and the next frame goes by the
    /// new timing.
    pub open spec fn param_set(self, id: CueId, p: CueParam) -> Step {
        let after = self.edited(id, knob_set(p));
        if p is Dwell || p is TrigDelay {
            after.resynced_if_editing()
        } else {
            (after, seq![])
        }
    }

    /// A clip put into the live bank as a full-length cue, or its first cue
    /// taken out.
    pub open spec fn clip_toggled(self, clip: ClipId, beat: int) -> Step {
        let b = self.banks[self.live_bank];
        let i = first_at(b.cues, plays(clip));
        if i < b.cues.len() {
            let cue = b.cues[i];
            AppModel {
                banks: self.banks.update(self.live_bank, BankModel { cues: b.cues.remove(i), ..b }),
                selected_cue: self.selection_without(cue.id),
                ..self
            }.sequenced(self.seq.toggled(cue.id, beat))
        } else {
            let cue = CueModel::fresh(self.next_cue_id, clip, self.clip_name(clip));
            AppModel {
                banks: self.banks.update(self.live_bank, BankModel { cues: b.cues.push(cue), ..b }),
                next_cue_id: (self.next_cue_id + 1) as CueId,
                ..self
            }.sequenced(self.seq.toggled(cue.id, beat))
        }
    }

    /// The tempo of a clip set; a tempo that is not positive clears it.
    pub open spec fn clip_bpm_set(self, id: ClipId, bpm: Option<MicroBpm>) -> AppModel {
        let i = first_at(self.clips, has_clip_id(id));
        if i < self.clips.len() {
            let valid = match bpm {
                Some(b) if b > 0 => Some(b),
                _ => None,
            };
            AppModel {
                clips: self.clips.update(i, ClipModel { bpm: valid, ..self.clips[i] }),
                ..self
            }
        } else {
            self
        }
    }

    /// Advanced mode switched. The active set is rebuilt whichever bank is being
    /// edited.
    pub open spec fn advanced_set(self, on: bool) -> Step {
        if self.advanced == on {
            (self, seq![])
        } else {
            AppModel { advanced: on, loop_prev: None, ..self }.resynced()
        }
    }

    /// Another bank put on air.
    pub open spec fn live_bank_set(self, i: int) -> Step {
        if i >= self.banks.len() || i == self.live_bank {
            (self, seq![])
        } else {
            AppModel { live_bank: i, ..self }.resynced()
        }
    }

    /// The live bank stepped, wrapping round.
    pub open spec fn live_bank_cycled(self, delta: int) -> Step {
        if self.banks.len() < 2 {
            (self, seq![])
        } else {
            self.live_bank_set((self.live_bank + delta) % self.banks.len() as int)
        }
    }

    /// Another bank chosen for edits; nothing stays selected.
    pub open spec fn edit_bank_set(self, i: int) -> AppModel {
        if i >= self.banks.len() {
            self
        } else {
            AppModel { edit_bank: i, selected_cue: None, ..self }
        }
    }

    /// An empty bank appended.
    pub open spec fn bank_added(self) -> AppModel {
        AppModel {
            banks: self.banks.push(BankModel::empty(bank_name(self.banks.len() as int))),
            ..self
        }
    }

    /// A pinned shader taken out of every chain.
    pub open spec fn shader_removed(self, id: ShaderId) -> Step {
        (
            AppModel {
                banks: Seq::new(self.banks.len(), |i: int| unpinned_bank(self.banks[i], id)),
                ..self
            },
            seq![EffectModel::RemovePoolShader(id)],
        )
    }
}

impl App {
    /// Rebuilds the sequencer's active set from the live bank.
    pub(crate) fn resync(&mut self, fx: &mut Vec<Effect>)
        requires
            old(self)@.wf(),
        ensures
            final(self)@ == old(self)@.resynced().0,
            views(final(fx)@) == listed_after(old(fx)@, old(self)@.resynced().1),
            final(self)@.wf(),
    {
        let ids = self.banks[self.live_bank].ids();
        let ghost before = self@;
        proof {
            operations_are_orderly(before.seq, 0, true, 0, ids@, 0, seq![]);
            playback_follows_the_sequencer(before, before.seq.with_active(ids@));
        }
        let ev = self.sequencer.set_active_set(ids);
        self.apply_seq_events(&ev, fx);
    }

    /// Rebuilds the active set if the bank being edited is live.
    pub(crate) fn resync_live_if_editing(&mut self, fx: &mut Vec<Effect>)
        requires
            old(self)@.wf(),
        ensures
            final(self)@ == old(self)@.resynced_if_editing().0,
            views(final(fx)@) == listed_after(old(fx)@, old(self)@.resynced_if_editing().1),
            final(self)@.wf(),
    {
        if self.edit_bank == self.live_bank {
            self.resync(fx);
        } else {
            proof {
                assert(views(fx@) =~= listed_after(fx@, seq![]));
            }
        }
    }

    /// Adds a full-length cue for a clip to the edit bank and selects it.
    pub fn add_cue(&mut self, clip: ClipId, fx: &mut Vec<Effect>)
        requires
            old(self)@.wf(),
            old(self).next_cue_id < u32::MAX,
        ensures
            final(self)@ == old(self)@.cue_added(clip).0,
            views(final(fx)@) == listed_after(old(fx)@, old(self)@.cue_added(clip).1),
            final(self)@.wf(),
    {
        let id: u32 = self.next_cue_id;
        let name = self.clip_name(clip);
        let cue = Cue::new(id, clip, name);
        self.next_cue_id = id + 1;
        self.selected_cue = Some(id);
        let at: usize = self.edit_bank;
        let ghost banks = self.banks@;
        self.banks[at].cues.push(cue);
        proof {
            let b = views(banks)[at as int];
            assert(views(self.banks@[at as int].cues@) =~= b.cues.push(cue@));
            assert(views(self.banks@) =~= views(banks).update(
                at as int,
                BankModel { cues: b.cues.push(cue@), ..b },
            ));
        }
        self.resync_live_if_editing(fx);
    }

    /// Removes a cue from the edit bank.
    pub fn remove_cue(&mut self, id: CueId, fx: &mut Vec<Effect>)
        requires
            old(self)@.wf(),
        ensures
            final(self)@ == old(self)@.cue_removed(id).0,
            views(final(fx)@) == listed_after(old(fx)@, old(self)@.cue_removed(id).1),
            final(self)@.wf(),
    {
        let at: usize = self.edit_bank;
        let i: usize = self.banks[at].position(id);
        if i >= self.banks[at].cues.len() {
            proof {
                assert(views(fx@) =~= listed_after(fx@, seq![]));
            }
            return;
        }
        let ghost banks = self.banks@;
        self.banks[at].cues.remove(i);
        if let Some(sel) = self.selected_cue {
            if sel == id {
                self.selected_cue = None;
            }
        }
        proof {
            let b = views(banks)[at as int];
            assert(views(self.banks@[at as int].cues@) =~= b.cues.remove(i as int));
            assert(views(self.banks@) =~= views(banks).update(
                at as int,
                BankModel { cues: b.cues.remove(i as int), ..b },
            ));
        }
        self.resync_live_if_editing(fx);
    }

    /// Moves a cue of the edit bank to a position.
    pub fn move_cue(&mut self, id: CueId, target: usize, fx: &mut Vec<Effect>)
        requires
            old(self)@.wf(),
        ensures
            final(self)@ == old(self)@.cue_moved(id, target as int).0,
            views(final(fx)@) == listed_after(old(fx)@, old(self)@.cue_moved(id, target as int).1),
            final(self)@.wf(),
    {
        let at: usize = self.edit_bank;
        let i: usize = self.banks[at].position(id);
        if i >= self.banks[at].cues.len() {
            proof {
                assert(views(fx@) =~= listed_after(fx@, seq![]));
            }
            return;
        }
        let ghost banks = self.banks@;
        let cue = self.banks[at].cues.remove(i);
        let to: usize = if target < self.banks[at].cues.len() {
            target
        } else {
            self.banks[at].cues.len()
        };
        self.banks[at].cues.insert(to, cue);
        proof {
            let b = views(banks)[at as int];
            let rest = b.cues.remove(i as int);
            assert(views(self.banks@[at as int].cues@) =~= rest.insert(to as int, b.cues[i as int]));
            assert(views(self.banks@) =~= views(banks).update(
                at as int,
                BankModel { cues: rest.insert(to as int, b.cues[i as int]), ..b },
            ));
        }
        self.resync_live_if_editing(fx);
    }

    /// Sets or clears the tempo of a clip.
    pub fn set_clip_bpm(&mut self, id: ClipId, bpm: Option<MicroBpm>)
        requires
            old(self)@.wf(),
        ensures
            final(self)@ == old(self)@.clip_bpm_set(id, bpm),
            final(self)@.wf(),
    {
        let i: usize = self.clip_position(id);
        if i < self.clips.len() {
            let ghost clips = self.clips@;
            self.clips[i].bpm = match bpm {
                Some(b) => if b > 0 {
                    Some(b)
                } else {
                    None
                },
                None => None,
            };
            proof {
                assert(views(self.clips@) =~= old(self)@.clip_bpm_set(id, bpm).clips);
            }
        }
    }

    /// Switches advanced mode.
    pub fn set_advanced(&mut self, on: bool, fx: &mut Vec<Effect>)
        requires
            old(self)@.wf(),
        ensures
            final(self)@ == old(self)@.advanced_set(on).0,
            views(final(fx)@) == listed_after(old(fx)@, old(self)@.advanced_set(on).1),
            final(self)@.wf(),
    {
        if self.advanced == on {
            proof {
                assert(views(fx@) =~= listed_after(fx@, seq![]));
            }
            return;
        }
        self.advanced = on;
        self.loop_tracker.reset();
        self.resync(fx);
    }

    /// Puts another bank on air. The cue on display plays on; the sequencer
    /// moves into the new bank at the next arm window.
    pub fn set_live_bank(&mut self, i: usize, fx: &mut Vec<Effect>)
        requires
            old(self)@.wf(),
        ensures
            final(self)@ == old(self)@.live_bank_set(i as int).0,
            views(final(fx)@) == listed_after(old(fx)@, old(self)@.live_bank_set(i as int).1),
            final(self)@.wf(),
    {
        if i >= self.banks.len() || i == self.live_bank {
            proof {
                assert(views(fx@) =~= listed_after(fx@, seq![]));
            }
            return;
        }
        self.live_bank = i;
        self.resync(fx);
    }

    /// Steps the live bank, wrapping round. Does nothing with fewer than two
    /// banks.
    pub fn cycle_live_bank(&mut self, delta: i32, fx: &mut Vec<Effect>)
        requires
            old(self)@.wf(),
        ensures
            final(self)@ == old(self)@.live_bank_cycled(delta as int).0,
            views(final(fx)@) == listed_after(old(fx)@, old(self)@.live_bank_cycled(delta as int).1),
            final(self)@.wf(),
    {
        let n: usize = self.banks.len();
        if n < 2 {
            proof {
                assert(views(fx@) =~= listed_after(fx@, seq![]));
            }
            return;
        }
        let wide: i128 = self.live_bank as i128 + delta as i128;
        let q: i128 = crate::units::floor_div(wide, n as i128);
        proof {
            let w = wide as int;
            let m = n as int;
            vstd::arithmetic::div_mod::lemma_fundamental_div_mod(w, m);
            assert(m * (w / m) == q * m) by (nonlinear_arith)
                requires
                    q == w / m,
            ;
            assert(0 <= w % m < m);
        }
        let next: usize = (wide - q * n as i128) as usize;
        self.set_live_bank(next, fx);
    }

    /// Chooses the bank that edits aim at; nothing stays selected.
    pub fn set_edit_bank(&mut self, i: usize)
        requires
            old(self)@.wf(),
        ensures
            final(self)@ == old(self)@.edit_bank_set(i as int),
            final(self)@.wf(),
    {
        if i < self.banks.len() {
            self.edit_bank = i;
            self.selected_cue = None;
        }
    }

    /// Appends an empty bank, named A, B, C and so on.
    pub fn add_bank(&mut self)
        requires
            old(self)@.wf(),
        ensures
            final(self)@ == old(self)@.bank_added(),
            final(self)@.wf(),
    {
        let n: usize = self.banks.len();
        let letter: char = (65u8 + (n % 26) as u8) as char;
        let mut name = String::new();
        name.push(letter);
        if n >= 26 {
            let turns: usize = n / 26;
            let number = decimal_text(turns as u64);
            name.append(number.as_str());
        }
        let ghost banks = self.banks@;
        let bank = Bank::new(name);
        self.banks.push(bank);
        proof {
            assert(name@ =~= bank_name(n as int));
            assert(views(self.banks@) =~= views(banks).push(bank@));
        }
    }
}

proof fn cue_replaced(before: Seq<Bank>, after: Seq<Bank>, at: int, i: int, c: Cue)
    requires
        0 <= at < before.len(),
        after.len() == before.len(),
        forall|k: int| 0 <= k < before.len() && k != at ==> #[trigger] after[k] == before[k],
        after[at].name@ == before[at].name@,
        0 <= i < before[at].cues@.len(),
        after[at].cues@ == before[at].cues@.update(i, c),
    ensures
        views(after) == views(before).update(at, views(before)[at].with_cue(i, c@)),
{
    let b = views(before)[at];
    assert(views(after[at].cues@) =~= b.cues.update(i, c@));
    assert(after[at]@ == b.with_cue(i, c@));
    assert(views(after) =~= views(before).update(at, b.with_cue(i, c@)));
}

/// An in-point set; one before the start counts as the start.
pub open spec fn in_point_set(s: MicroSecs) -> spec_fn(CueModel) -> CueModel {
    |c: CueModel| CueModel { in_sec: if s < 0 { 0 } else { s }, ..c }.normalized()
}

/// An out-point set or cleared.
pub open spec fn out_point_set(s: Option<MicroSecs>) -> spec_fn(CueModel) -> CueModel {
    |c: CueModel| CueModel { out_sec: s, ..c }.normalized()
}

/// The preserve override set.
pub open spec fn preserve_set(v: Option<bool>) -> spec_fn(CueModel) -> CueModel {
    |c: CueModel| CueModel { preserve: v, ..c }
}

/// The effect chain replaced.
pub open spec fn chain_set(chain: Seq<ChainSlotModel>) -> spec_fn(CueModel) -> CueModel {
    |c: CueModel| CueModel { chain, ..c }
}

/// An effect appended to the chain.
pub open spec fn effect_appended(slot: ChainSlotModel) -> spec_fn(CueModel) -> CueModel {
    |c: CueModel| CueModel { chain: c.chain.push(slot), ..c }
}

/// One input of one effect set; nothing changes when the chain has no such
/// effect.
pub open spec fn effect_param_set(slot: int, name: Seq<char>, value: IsfValue) -> spec_fn(CueModel) -> CueModel {
    |c: CueModel|
        if slot < c.chain.len() {
            CueModel { chain: c.chain.update(slot, c.chain[slot].with_param(name, value)), ..c }
        } else {
            c
        }
}

/// One advanced knob set.
pub open spec fn knob_set(p: CueParam) -> spec_fn(CueModel) -> CueModel {
    |c: CueModel| with_param(c, p)
}

impl App {
    /// Where a cue stands in the edit bank.
    fn edit_position(&self, id: CueId) -> (r: usize)
        requires
            self@.wf(),
        ensures
            r == self@.editing().index_of(id),
            r <= self@.editing().cues.len(),
    {
        self.banks[self.edit_bank].position(id)
    }

    /// Sets a cue's in-point, and drops an out-point that is no longer after it.
    pub fn set_cue_in(&mut self, id: CueId, s: MicroSecs)
        requires
            old(self)@.wf(),
        ensures
            final(self)@ == old(self)@.edited(id, in_point_set(s)),
            final(self)@.wf(),
    {
        let at: usize = self.edit_bank;
        let i: usize = self.edit_position(id);
        if i < self.banks[at].cues.len() {
            let ghost banks = self.banks@;
            self.banks[at].cues[i].in_sec = if s < 0 {
                0
            } else {
                s
            };
            self.banks[at].cues[i].normalize_trim();
            proof {
                let c = self.banks@[at as int].cues@[i as int];
                assert(self.banks@[at as int].cues@ =~= banks[at as int].cues@.update(i as int, c));
                cue_replaced(banks, self.banks@, at as int, i as int, c);
            }
        }
    }

    /// Sets or clears a cue's out-point; one that is not after the in-point is
    /// dropped.
    pub fn set_cue_out(&mut self, id: CueId, s: Option<MicroSecs>)
        requires
            old(self)@.wf(),
        ensures
            final(self)@ == old(self)@.edited(id, out_point_set(s)),
            final(self)@.wf(),
    {
        let at: usize = self.edit_bank;
        let i: usize = self.edit_position(id);
        if i < self.banks[at].cues.len() {
            let ghost banks = self.banks@;
            self.banks[at].cues[i].out_sec = s;
            self.banks[at].cues[i].normalize_trim();
            proof {
                let c = self.banks@[at as int].cues@[i as int];
                assert(self.banks@[at as int].cues@ =~= banks[at as int].cues@.update(i as int, c));
                cue_replaced(banks, self.banks@, at as int, i as int, c);
            }
        }
    }

    /// Sets a cue's preserve override.
    pub fn set_cue_preserve(&mut self, id: CueId, v: Option<bool>)
        requires
            old(self)@.wf(),
        ensures
            final(self)@ == old(self)@.edited(id, preserve_set(v)),
            final(self)@.wf(),
    {
        let at: usize = self.edit_bank;
        let i: usize = self.edit_position(id);
        if i < self.banks[at].cues.len() {
            let ghost banks = self.banks@;
            self.banks[at].cues[i].preserve = v;
            proof {
                cue_replaced(banks, self.banks@, at as int, i as int, self.banks@[at as int].cues@[i as int]);
            }
        }
    }

    /// Replaces a cue's effect chain.
    pub fn set_cue_chain(&mut self, id: CueId, chain: Vec<ChainSlot>)
        requires
            old(self)@.wf(),
        ensures
            final(self)@ == old(self)@.edited(id, chain_set(views(chain@))),
            final(self)@.wf(),
    {
        let at: usize = self.edit_bank;
        let i: usize = self.edit_position(id);
        if i < self.banks[at].cues.len() {
            let ghost banks = self.banks@;
            self.banks[at].cues[i].chain = chain;
            proof {
                cue_replaced(banks, self.banks@, at as int, i as int, self.banks@[at as int].cues@[i as int]);
            }
        }
    }

    /// Appends an effect to a cue's chain.
    pub fn append_effect(&mut self, id: CueId, slot: ChainSlot)
        requires
            old(self)@.wf(),
        ensures
            final(self)@ == old(self)@.edited(id, effect_appended(slot@)),
            final(self)@.wf(),
    {
        let at: usize = self.edit_bank;
        let i: usize = self.edit_position(id);
        if i < self.banks[at].cues.len() {
            let ghost banks = self.banks@;
            self.banks[at].cues[i].chain.push(slot);
            proof {
                let c = self.banks@[at as int].cues@[i as int];
                assert(views(c.chain@) =~= banks[at as int].cues@[i as int]@.chain.push(slot@));
                cue_replaced(banks, self.banks@, at as int, i as int, c);
            }
        }
    }

    /// Sets one input of one effect of a cue.
    pub fn set_chain_param(&mut self, id: CueId, slot: usize, name: String, value: IsfValue)
        requires
            old(self)@.wf(),
        ensures
            final(self)@ == old(self)@.edited(id, effect_param_set(slot as int, name@, value)),
            final(self)@.wf(),
    {
        let at: usize = self.edit_bank;
        let i: usize = self.edit_position(id);
        if i < self.banks[at].cues.len() {
            let ghost banks = self.banks@;
            if slot < self.banks[at].cues[i].chain.len() {
                self.banks[at].cues[i].chain[slot].set_param(name, value);
            }
            proof {
                let c = self.banks@[at as int].cues@[i as int];
                let was = banks[at as int].cues@[i as int]@;
                assert(views(c.chain@) =~= effect_param_set(slot as int, name@, value)(was).chain);
                assert(self.banks@[at as int].cues@ =~= banks[at as int].cues@.update(i as int, c));
                cue_replaced(banks, self.banks@, at as int, i as int, c);
            }
        }
    }

    /// Sets one advanced knob of a cue.
    pub fn set_cue_param(&mut self, id: CueId, p: CueParam, fx: &mut Vec<Effect>)
        requires
            old(self)@.wf(),
        ensures
            final(self)@ == old(self)@.param_set(id, p).0,
            views(final(fx)@) == listed_after(old(fx)@, old(self)@.param_set(id, p).1),
            final(self)@.wf(),
    {
        let at: usize = self.edit_bank;
        let i: usize = self.edit_position(id);
        if i < self.banks[at].cues.len() {
            let ghost banks = self.banks@;
            match p {
                CueParam::Dwell(v) => {
                    self.banks[at].cues[i].dwell = v;
                },
                CueParam::Loop(v) => {
                    self.banks[at].cues[i].loop_len = v;
                },
                CueParam::LoopPhase(t) => {
                    self.banks[at].cues[i].loop_phase = t;
                },
                CueParam::StartNudge(t) => {
                    self.banks[at].cues[i].start_nudge = t;
                },
                CueParam::TrigDelay(t) => {
                    self.banks[at].cues[i].trig_delay = t;
                },
                CueParam::Bpm(v) => {
                    self.banks[at].cues[i].bpm = v;
                },
                CueParam::BpmSync(on) => {
                    self.banks[at].cues[i].bpm_sync_on = on;
                },
                CueParam::SpeedMul(t) => {
                    self.banks[at].cues[i].speed_mul = t;
                },
            }
            proof {
                cue_replaced(banks, self.banks@, at as int, i as int, self.banks@[at as int].cues@[i as int]);
            }
        }
        let ghost mid = self@;
        proof {
            assert(mid == old(self)@.edited(id, knob_set(p)));
        }
        match p {
            CueParam::Dwell(_) => self.resync_live_if_editing(fx),
            CueParam::TrigDelay(_) => self.resync_live_if_editing(fx),
            _ => {
                proof {
                    assert(views(fx@) =~= listed_after(fx@, seq![]));
                }
            },
        }
    }

    /// Puts a clip into the live bank as a full-length cue, or takes its first
    /// cue out.
    pub fn toggle_clip_active(&mut self, clip: ClipId, beat: MicroBeats, fx: &mut Vec<Effect>)
        requires
            old(self)@.wf(),
            old(self).next_cue_id < u32::MAX,
        ensures
            final(self)@ == old(self)@.clip_toggled(clip, beat as int).0,
            views(final(fx)@) == listed_after(old(fx)@, old(self)@.clip_toggled(clip, beat as int).1),
            final(self)@.wf(),
    {
        let at: usize = self.live_bank;
        let i: usize = self.banks[at].position_of_clip(clip);
        let ghost banks = self.banks@;
        let ghost b = views(banks)[at as int];
        let ghost seq = self@.seq;
        if i < self.banks[at].cues.len() {
            let id: u32 = self.banks[at].cues[i].id;
            self.banks[at].cues.remove(i);
            if let Some(sel) = self.selected_cue {
                if sel == id {
                    self.selected_cue = None;
                }
            }
            proof {
                assert(views(self.banks@[at as int].cues@) =~= b.cues.remove(i as int));
                assert(views(self.banks@) =~= views(banks).update(
                    at as int,
                    BankModel { cues: b.cues.remove(i as int), ..b },
                ));
                operations_are_orderly(seq, beat as int, true, id, seq![], 0, seq![]);
                playback_follows_the_sequencer(self@, seq.toggled(id, beat as int));
            }
            let ev = self.sequencer.toggle_active(id, beat);
            self.apply_seq_events(&ev, fx);
        } else {
            let id: u32 = self.next_cue_id;
            let name = self.clip_name(clip);
            let cue = Cue::new(id, clip, name);
            self.next_cue_id = id + 1;
            self.banks[at].cues.push(cue);
            proof {
                assert(views(self.banks@[at as int].cues@) =~= b.cues.push(cue@));
                assert(views(self.banks@) =~= views(banks).update(
                    at as int,
                    BankModel { cues: b.cues.push(cue@), ..b },
                ));
                operations_are_orderly(seq, beat as int, true, id, seq![], 0, seq![]);
                playback_follows_the_sequencer(self@, seq.toggled(id, beat as int));
            }
            let ev = self.sequencer.toggle_active(id, beat);
            self.apply_seq_events(&ev, fx);
        }
    }

    /// Takes a pinned shader out of the pool and of every chain.
    pub fn remove_shader(&mut self, id: ShaderId, fx: &mut Vec<Effect>)
        requires
            old(self)@.wf(),
        ensures
            final(self)@ == old(self)@.shader_removed(id).0,
            views(final(fx)@) == listed_after(old(fx)@, old(self)@.shader_removed(id).1),
            final(self)@.wf(),
    {
        emit(fx, Effect::RemovePoolShader(id));
        let mut banks: Vec<Bank> = Vec::new();
        let mut i: usize = 0;
        while i < self.banks.len()
            invariant
                i <= self.banks@.len(),
                banks@.len() == i,
                forall|j: int| 0 <= j < i ==> #[trigger] banks@[j]@ == unpinned_bank(self.banks@[j]@, id),
            decreases self.banks@.len() - i,
        {
            banks.push(bank_without_pinned(&self.banks[i], id));
            i += 1;
        }
        proof {
            assert(views(banks@) =~= old(self)@.shader_removed(id).0.banks);
        }
        self.banks = banks;
    }
}

fn is_pinned(slot: &ChainSlot, id: ShaderId) -> (r: bool)
    ensures
        r == !not_pinned(id)(slot@),
{
    match &slot.shader {
        SlotRef::Pinned(p) => *p == id,
        _ => false,
    }
}

fn cue_without_pinned(c: &Cue, id: ShaderId) -> (r: Cue)
    ensures
        r@ == unpinned(c@, id),
{
    let mut chain: Vec<ChainSlot> = Vec::new();
    let mut i: usize = 0;
    proof {
        assert(views(chain@) =~= kept(c@.chain.take(0), not_pinned(id)));
    }
    while i < c.chain.len()
        invariant
            i <= c.chain@.len(),
            views(chain@) == kept(c@.chain.take(i as int), not_pinned(id)),
        decreases c.chain@.len() - i,
    {
        proof {
            assert(c@.chain.take(i + 1).drop_last() =~= c@.chain.take(i as int));
            assert(c@.chain.take(i + 1).last() == c.chain@[i as int]@);
        }
        if !is_pinned(&c.chain[i], id) {
            let ghost before = chain@;
            let slot = c.chain[i].clone();
            chain.push(slot);
            proof {
                assert(views(chain@) =~= views(before).push(slot@));
            }
        }
        i += 1;
    }
    proof {
        assert(c@.chain.take(c.chain@.len() as int) =~= c@.chain);
    }
    let mut r = c.clone();
    r.chain = chain;
    r
}

fn bank_without_pinned(b: &Bank, id: ShaderId) -> (r: Bank)
    ensures
        r@ == unpinned_bank(b@, id),
{
    let mut cues: Vec<Cue> = Vec::new();
    let mut i: usize = 0;
    while i < b.cues.len()
        invariant
            i <= b.cues@.len(),
            cues@.len() == i,
            forall|j: int| 0 <= j < i ==> #[trigger] cues@[j]@ == unpinned(b.cues@[j]@, id),
        decreases b.cues@.len() - i,
    {
        cues.push(cue_without_pinned(&b.cues[i], id));
        i += 1;
    }
    let r = Bank { name: b.name.clone(), cues };
    proof {
        assert(r@.cues =~= unpinned_bank(b@, id).cues);
    }
    r
}

/// Removing a pinned shader leaves no reference to it in any chain, and every
/// other effect in place.
pub proof fn a_removed_shader_is_gone(m: AppModel, id: ShaderId, b: int, c: int, k: int)
    requires
        0 <= b < m.banks.len(),
        0 <= c < m.banks[b].cues.len(),
        0 <= k < m.shader_removed(id).0.banks[b].cues[c].chain.len(),
    ensures
        m.shader_removed(id).0.banks[b].cues[c].chain[k].shader != SlotRefModel::Pinned(id),
        m.shader_removed(id).0.banks[b].cues[c].id == m.banks[b].cues[c].id,
{
    crate::seqs::kept_satisfies(m.banks[b].cues[c].chain, not_pinned(id));
    let chain = kept(m.banks[b].cues[c].chain, not_pinned(id));
    assert(not_pinned(id)(chain[k]));
}

} // verus!
