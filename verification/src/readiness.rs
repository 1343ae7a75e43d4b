//! Whether the clock has room for the deadlines that the handling of an event is about to set.

use vstd::prelude::*;

use crate::action::Action;
use crate::config::StickyKeyShape;
use crate::entry::{Entry, PhysicalRelease, StickyPhase};
use crate::keyboard::Keyboard;
use crate::machine::{
    accepts, check_layer_fits, layer_effect_fits, modifier_effect_fits, press_modifier_fits,
    press_tap_key_fits, proceed_fits, resumed_fits, sweep_for_tap_key_fits, tap_key_effect_fits,
    After, Continuation, LayerPress, ModifierPress, Reply, TapKeyPress,
};
use crate::producers::{ModifierProducerInsert, ModifierProducerRelease};
use crate::search::{lemma_first_where_is, lemma_first_where_none};
use crate::state::{has_shape, slots_valid, MAX_ACTIVE_STICKY_KEYS};

verus! {

impl Keyboard {
    /// Whether the clock can show the deadlines that the press of a modifier key sets.
    fn can_press_modifier(&self, press: ModifierPress) -> (fits: bool)
        requires
            slots_valid(self.slots()),
        ensures
            fits == press_modifier_fits(self.slots(), press),
    {
        match self.sticky_key_state.modifier_index() {
            Some(index) => {
                let entry = self.sticky_key_state.entry_at(index);
                let mut joined = entry;
                entry.is_double_tap(press.event.pos, press.policy) || joined.add_modifier_producer(
                    press.modifiers,
                    press.producer_source,
                ) == ModifierProducerInsert::Full || press.policy.has_hold_deadline(
                    entry.chord_start(press.event_time),
                )
            },
            None => press.policy.has_hold_deadline(press.event_time),
        }
    }

    /// Whether the clock can show the deadlines that an event of a modifier key sets.
    fn can_process_modifier_effect(&self, press: ModifierPress) -> (fits: bool)
        requires
            slots_valid(self.slots()),
        ensures
            fits == modifier_effect_fits(self.slots(), self.keys_down(), press),
    {
        if press.event.pressed {
            self.sticky_key_state.tap_key_index().is_some() || self.can_press_modifier(press)
        } else {
            match self.sticky_key_state.modifier_index() {
                Some(index) => {
                    let mut entry = self.sticky_key_state.entry_at(index);
                    match entry.on_exact_modifier_release(press.modifiers, press.producer_source) {
                        ModifierProducerRelease::Unmatched => true,
                        ModifierProducerRelease::Released { producers_remain, .. } => producers_remain
                            || self.physical_keys_down > 0 || entry.release_outcome(
                            None,
                            press.event_time,
                        ) != PhysicalRelease::Latched || entry.policy.has_latch_deadline(
                            press.event_time,
                        ),
                    }
                },
                None => true,
            }
        }
    }

    /// Whether the clock can show the deadlines that the press of a layer key sets.
    fn can_check_layer(&self, press: LayerPress, layers: usize) -> (fits: bool)
        requires
            slots_valid(self.slots()),
        ensures
            fits == check_layer_fits(self.slots(), press, layers as int),
    {
        if press.layer as usize >= layers {
            return true;
        }
        match self.sticky_key_state.layer_index() {
            Some(index) => {
                let entry = self.sticky_key_state.entry_at(index);
                entry.is_double_tap(press.event.pos, press.policy) || entry.layer() != Some(press.layer)
                    || press.policy.has_hold_deadline(press.event_time)
            },
            None => press.policy.has_hold_deadline(press.event_time),
        }
    }

    /// Whether the clock can show the deadlines that an event of a layer key sets.
    fn can_process_layer_effect(&self, press: LayerPress) -> (fits: bool)
        requires
            slots_valid(self.slots()),
        ensures
            fits == layer_effect_fits(self.slots(), press),
    {
        if press.event.pressed {
            return true;
        }
        match self.sticky_key_state.layer_index() {
            Some(index) => {
                let entry = self.sticky_key_state.entry_at(index);
                entry.release_outcome(Some(press.event.pos), press.event_time)
                    != PhysicalRelease::Latched || entry.policy.has_latch_deadline(press.event_time)
            },
            None => true,
        }
    }

    /// Whether the clock can show the deadlines that a tap sets.
    fn can_press_tap_key(&self, press: TapKeyPress) -> (fits: bool)
        requires
            slots_valid(self.slots()),
        ensures
            fits == press_tap_key_fits(self.slots(), press),
    {
        if let Some(index) = self.sticky_key_state.tap_key_index() {
            let taps = self.sticky_key_state.entry_at(index).repeat_count;
            let repeat_count = if taps < u16::MAX {
                taps + 1
            } else {
                taps
            };
            if press.policy.max_repeat > 0 && repeat_count > press.policy.max_repeat {
                return true;
            }
        }
        press.policy.has_hold_deadline(press.event_time)
    }

    /// Whether the clock can show the deadlines that the press of a tap key, from a slot on sets.
    fn can_sweep_for_tap_key(&self, press: TapKeyPress, from: usize) -> (fits: bool)
        requires
            slots_valid(self.slots()),
        ensures
            fits == sweep_for_tap_key_fits(self.slots(), press, from as int),
    {
        let ghost other = |slot: Option<Entry>|
            slot is Some && !has_shape(slot, StickyKeyShape::TapKey);
        let mut index: usize = from;
        while index < MAX_ACTIVE_STICKY_KEYS
            invariant
                slots_valid(self.slots()),
                from <= index,
                other == (|slot: Option<Entry>|
                    slot is Some && !has_shape(slot, StickyKeyShape::TapKey)),
                forall|i: int|
                    from <= i < index && i < MAX_ACTIVE_STICKY_KEYS ==> !other(
                        #[trigger] self.slots()[i],
                    ),
            decreases MAX_ACTIVE_STICKY_KEYS - index,
        {
            if self.sticky_key_state.active[index].is_some() {
                let entry = self.sticky_key_state.entry_at(index);
                if !entry.is_tap_key() {
                    proof {
                        lemma_first_where_is(self.slots(), from as int, other, index as int);
                    }
                    return true;
                }
            }
            index += 1;
        }
        proof {
            lemma_first_where_none(self.slots(), from as int, other);
        }
        if let Some(index) = self.sticky_key_state.tap_key_index() {
            let entry = self.sticky_key_state.entry_at(index);
            if entry.source != press.event.pos || entry.action != Action::KeyWithModifier(
                press.key,
                press.modifiers,
            ) || entry.is_double_tap(press.event.pos, press.policy) {
                return true;
            }
        }
        self.can_press_tap_key(press)
    }

    /// Whether the clock can show the deadlines that an event of a tap key sets.
    fn can_process_tap_key_effect(&self, press: TapKeyPress) -> (fits: bool)
        requires
            slots_valid(self.slots()),
        ensures
            fits == tap_key_effect_fits(self.slots(), press),
    {
        if press.event.pressed {
            return self.can_sweep_for_tap_key(press, 0);
        }
        match self.sticky_key_state.tap_key_index() {
            Some(index) => {
                let entry = self.sticky_key_state.entry_at(index);
                let down = matches!(
                    entry.phase,
                    StickyPhase::Pressed | StickyPhase::PressDeadlineInactive
                );
                entry.source != press.event.pos || !down || entry.release_outcome(
                    Some(press.event.pos),
                    press.event_time,
                ) != PhysicalRelease::Latched || entry.policy.has_latch_deadline(press.event_time)
            },
            None => true,
        }
    }

    /// Whether the clock can show the deadlines that what is left to do sets.
    fn can_proceed(&self, after: After) -> (fits: bool)
        requires
            slots_valid(self.slots()),
        ensures
            fits == proceed_fits(self.slots(), after),
    {
        match after {
            After::PressModifier(press) => self.can_press_modifier(press),
            After::InsertLayer(press) => press.policy.has_hold_deadline(press.event_time),
            After::SweepForTapKey { press, index } => self.can_sweep_for_tap_key(press, index),
            After::PressTapKey(press) => self.can_press_tap_key(press),
            _ => true,
        }
    }

    /// Whether `resume` can go on with the reply: it is the one that is waited for, and the clock
    /// can show the deadlines that are set next.
    pub fn can_resume(&self, then: Continuation, reply: Reply) -> (ready: bool)
        requires
            slots_valid(self.slots()),
        ensures
            ready == (accepts(then, reply) && resumed_fits(
                self.slots(),
                self.keys_down(),
                self.last_modifier_report.sticky_contributed,
                then,
                reply,
            )),
    {
        match (then, reply) {
            (
                Continuation::Policy { action, event, event_time, modifier_source },
                Reply::Policy(policy),
            ) => match action {
                Action::Modifier(modifiers) => self.can_process_modifier_effect(
                    ModifierPress {
                        modifiers,
                        policy,
                        event,
                        event_time,
                        producer_source: modifier_source,
                    },
                ),
                Action::LayerOn(layer) => self.can_process_layer_effect(
                    LayerPress { layer, policy, event, event_time },
                ),
                Action::KeyWithModifier(key, modifiers) => self.can_process_tap_key_effect(
                    TapKeyPress { key, modifiers, policy, event, event_time },
                ),
                _ => false,
            },
            (Continuation::LayerCount(press), Reply::LayerCount(layers)) => self.can_check_layer(
                press,
                layers,
            ),
            (
                Continuation::ReleaseModifiers { modifiers, after },
                Reply::NonStickyModifiers(non_sticky),
            ) => self.host_loses(modifiers, non_sticky) || self.can_proceed(after),
            (Continuation::LiveRelease { .. }, Reply::NonStickyModifiers(_)) => true,
            (Continuation::Proceed(after), Reply::Done) => self.can_proceed(after),
            _ => false,
        }
    }
}

} // verus!
