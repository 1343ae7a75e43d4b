//! The decisions of sticky key handling.
//!
//! Each function takes one event as far as it can go without the rest of the keyboard, and returns
//! the `Step` that it comes to: finished, or something to be asked for. `Keyboard::resume` takes
//! the reply and goes on.

use vstd::prelude::*;

use crate::action::{Action, HidKeyCode, KeyCode};
use crate::config::{StickyKeyPolicy, StickyKeyReleaseMode, StickyKeyShape};
use crate::entry::{DeadlineDisposition, Entry, PhysicalRelease, StickyEntry, StickyPhase};
use crate::event::KeyboardEvent;
use crate::machine::{
    accepts, after_action, before_action, check_layer, check_layer_fits, choose_tap_key,
    choose_tap_key_fits, due_after_action, insert_layer, layer_effect, layer_effect_fits,
    layer_used_up, layers_used_up, lost_by_host, modifier_effect, modifier_effect_fits,
    modifier_used_up, opening, press_modifier, press_modifier_fits, press_tap_key,
    press_tap_key_fits, proceed, proceed_fits, producer_released, producer_released_fits,
    released_any, released_slot, report_owed, resumed, resumed_fits, slot_after_key, slots_after_key, sweep_for_tap_key,
    sweep_for_tap_key_fits, sweep_on_layer_event, sweep_on_timeout, tap_key_effect,
    tap_key_effect_fits, used_up, After, Continuation, LayerPress, ModifierPress, Reply, Request,
    Step, StickyKeyPostAction, TapKeyPress,
};
use crate::modifier::ModifierCombination;
use crate::producers::{ModifierProducerInsert, ModifierProducerRelease, ModifierProducerSource};
use crate::search::{lemma_first_where_is, lemma_first_where_none};
use crate::state::{
    has_shape, modifier_triggers_on_press, slots_valid, Slots, StickyKeyState,
    MAX_ACTIVE_STICKY_KEYS,
};
use crate::time::Instant;

verus! {

/// What the host was last told about modifiers.
#[derive(Clone, Copy, Debug, PartialEq, Eq, Structural)]
pub struct ModifierReport {
    /// The modifiers that were reported on account of sticky keys alone.
    pub sticky_contributed: ModifierCombination,
}

/// What sticky key handling knows of the keyboard. The last two fields are kept up to date by the
/// rest of the keyboard.
#[derive(Clone, Copy, Debug)]
pub struct Keyboard {
    pub sticky_key_state: StickyKeyState,
    /// How many physical keys are down.
    pub physical_keys_down: usize,
    pub last_modifier_report: ModifierReport,
}

/// What a foreign key did to the held actions.
#[derive(Clone, Copy, Debug)]
pub struct StickyKeyUpdate {
    /// Whether held modifiers were used up.
    pub modifier_consumed: bool,
    /// The layers that were used up, slot by slot. The rest of the keyboard is to deactivate them,
    /// in this order, where they are active.
    pub deactivated_layers: [Option<u8>; MAX_ACTIVE_STICKY_KEYS],
}

/// What is left to do after a key report.
#[derive(Clone, Copy, Debug)]
pub struct StickyKeyFinish {
    /// Whether a balancing keyboard report is needed.
    pub needs_report: bool,
    /// The layers that are to be deactivated, in this order, where they are active.
    pub deactivated_layers: [Option<u8>; MAX_ACTIVE_STICKY_KEYS],
}

impl Keyboard {
    /// The slots of the held actions.
    pub open spec fn slots(self) -> Slots {
        self.sticky_key_state@
    }

    /// Whether any physical key is down.
    pub open spec fn keys_down(self) -> bool {
        self.physical_keys_down > 0
    }

    /// Whether the two agree in everything but the held actions.
    pub open spec fn same_surroundings(self, other: Keyboard) -> bool {
        &&& self.physical_keys_down == other.physical_keys_down
        &&& self.last_modifier_report == other.last_modifier_report
    }

    /// Takes the entry out of a slot that holds one, and ends its effect.
    fn release_entry_then(&mut self, index: usize, after: After) -> (step: Step)
        requires
            slots_valid(old(self).slots()),
            index < MAX_ACTIVE_STICKY_KEYS,
            old(self).slots()[index as int] is Some,
        ensures
            (final(self).slots(), step) == released_slot(old(self).slots(), index as int, after),
            slots_valid(final(self).slots()),
            final(self).same_surroundings(*old(self)),
    {
        let entry = self.sticky_key_state.entry_at(index);
        self.sticky_key_state.clear_entry(index);
        match entry.action {
            Action::Modifier(modifiers) => Step::Call {
                request: Request::NonStickyModifiers,
                then: Continuation::ReleaseModifiers { modifiers, after },
            },
            Action::LayerOn(layer) => Step::Call {
                request: Request::DeactivateLayer { layer },
                then: Continuation::Proceed(after),
            },
            Action::KeyWithModifier(key, _) => if matches!(
                entry.phase,
                StickyPhase::Pressed | StickyPhase::PressDeadlineInactive
            ) {
                Step::Call {
                    request: Request::ProcessKey {
                        key,
                        event: KeyboardEvent { pressed: false, pos: entry.source },
                    },
                    then: Continuation::Proceed(after),
                }
            } else {
                Step::Call {
                    request: Request::SendReport { pressed: false },
                    then: Continuation::Proceed(after),
                }
            },
            _ => Step::Done,
        }
    }

    /// Removes the entry of a slot, if it holds one, and releases the concrete device effect it
    /// owns.
    pub fn release_sticky_entry(&mut self, index: usize) -> (step: Step)
        requires
            slots_valid(old(self).slots()),
            index < MAX_ACTIVE_STICKY_KEYS,
        ensures
            (final(self).slots(), step) == released_any(old(self).slots(), index as int),
            slots_valid(final(self).slots()),
            final(self).same_surroundings(*old(self)),
    {
        if self.sticky_key_state.active[index].is_none() {
            return Step::Done;
        }
        self.release_entry_then(index, After::Return)
    }

    /// Removes the modifier entry of a slot, if it holds one, without ending its effect.
    pub fn remove_sticky_modifier_entry(&mut self, index: usize)
        requires
            index < MAX_ACTIVE_STICKY_KEYS,
            old(self).slots()[index as int] matches Some(entry) ==> entry.effect is Some,
        ensures
            final(self).slots() == old(self).slots().update(index as int, None),
            slots_valid(old(self).slots()) ==> slots_valid(final(self).slots()),
            final(self).same_surroundings(*old(self)),
    {
        self.sticky_key_state.clear_entry(index);
    }

    /// A key that holds modifiers goes down, with no tap key in the way.
    fn press_modifier(&mut self, press: ModifierPress) -> (step: Step)
        requires
            slots_valid(old(self).slots()),
            press_modifier_fits(old(self).slots(), press),
        ensures
            (final(self).slots(), step) == press_modifier(old(self).slots(), press),
            slots_valid(final(self).slots()),
            final(self).same_surroundings(*old(self)),
    {
        match self.sticky_key_state.modifier_index() {
            Some(index) => {
                let mut entry = self.sticky_key_state.entry_at(index);
                if entry.is_double_tap(press.event.pos, press.policy) {
                    return self.release_entry_then(index, After::Return);
                }
                let inserted = entry.add_modifier_producer(press.modifiers, press.producer_source);
                if inserted == ModifierProducerInsert::Full {
                    return Step::Done;
                }
                entry.begin_modifier_press(press.event.pos, press.policy, press.event_time);
                self.sticky_key_state.put_entry(index, entry);
            },
            None => {
                let entry = StickyEntry::new_modifier(
                    press.modifiers,
                    press.event.pos,
                    press.producer_source,
                    press.policy,
                    press.event_time,
                );
                if self.sticky_key_state.insert(entry).is_err() {
                    return Step::Done;
                }
            },
        }
        if press.policy.activate_on_keypress {
            Step::Call {
                request: Request::SendReport { pressed: true },
                then: Continuation::Proceed(After::Return),
            }
        } else {
            Step::Done
        }
    }

    /// Goes on after a producer of the modifier entry in a slot has gone up and was taken out of
    /// it. The first result says whether there was such a producer.
    pub fn finish_modifier_producer_release(
        &mut self,
        index: usize,
        transition: ModifierProducerRelease,
        event_time: Instant,
    ) -> (result: (bool, Step))
        requires
            slots_valid(old(self).slots()),
            transition matches ModifierProducerRelease::Released { producers_remain: false, .. } ==> {
                &&& index < MAX_ACTIVE_STICKY_KEYS
                &&& has_shape(old(self).slots()[index as int], StickyKeyShape::PureMod) || (
                old(self).keys_down() && old(self).slots()[index as int] is None)
            },
            producer_released_fits(
                old(self).slots(),
                old(self).keys_down(),
                index as int,
                transition,
                event_time@,
            ),
        ensures
            result.0 == (transition is Released),
            (final(self).slots(), result.1) == producer_released(
                old(self).slots(),
                old(self).keys_down(),
                index as int,
                transition,
                event_time@,
            ),
            slots_valid(final(self).slots()),
            final(self).same_surroundings(*old(self)),
    {
        match transition {
            ModifierProducerRelease::Unmatched => (false, Step::Done),
            ModifierProducerRelease::Released {
                removed,
                old_effective,
                new_effective,
                producers_remain,
            } => {
                let mut final_effective = new_effective;
                let mut release_entry = false;
                if !producers_remain {
                    if self.physical_keys_down > 0 {
                        release_entry = true;
                    } else {
                        let mut entry = self.sticky_key_state.entry_at(index);
                        match entry.on_physical_release(None, event_time) {
                            PhysicalRelease::Latched => {
                                entry.retain_modifier(removed.modifiers);
                                final_effective = entry.modifiers();
                                self.sticky_key_state.put_entry(index, entry);
                            },
                            PhysicalRelease::Released => {
                                release_entry = true;
                            },
                            PhysicalRelease::Ignored => {},
                        }
                    }
                }
                if release_entry {
                    self.remove_sticky_modifier_entry(index);
                    final_effective = ModifierCombination::new();
                }
                (
                    true,
                    Step::Call {
                        request: Request::NonStickyModifiers,
                        then: Continuation::LiveRelease {
                            old_effective,
                            new_effective: final_effective,
                        },
                    },
                )
            },
        }
    }

    /// A key that holds modifiers goes down or up.
    pub fn process_modifier_effect(
        &mut self,
        modifiers: ModifierCombination,
        policy: StickyKeyPolicy,
        event: KeyboardEvent,
        event_time: Instant,
        producer_source: ModifierProducerSource,
    ) -> (step: Step)
        requires
            slots_valid(old(self).slots()),
            modifier_effect_fits(
                old(self).slots(),
                old(self).keys_down(),
                ModifierPress { modifiers, policy, event, event_time, producer_source },
            ),
        ensures
            (final(self).slots(), step) == modifier_effect(
                old(self).slots(),
                old(self).keys_down(),
                ModifierPress { modifiers, policy, event, event_time, producer_source },
            ),
            slots_valid(final(self).slots()),
            final(self).same_surroundings(*old(self)),
    {
        if event.pressed {
            let press = ModifierPress { modifiers, policy, event, event_time, producer_source };
            match self.sticky_key_state.tap_key_index() {
                Some(index) => self.release_entry_then(index, After::PressModifier(press)),
                None => self.press_modifier(press),
            }
        } else {
            match self.sticky_key_state.modifier_index() {
                Some(index) => {
                    let mut entry = self.sticky_key_state.entry_at(index);
                    let transition = entry.on_exact_modifier_release(modifiers, producer_source);
                    self.sticky_key_state.put_entry(index, entry);
                    self.finish_modifier_producer_release(index, transition, event_time).1
                },
                None => Step::Done,
            }
        }
    }

    /// A new layer entry is made, and its layer is activated.
    fn insert_layer(&mut self, press: LayerPress) -> (step: Step)
        requires
            slots_valid(old(self).slots()),
            press.policy.hold_fits(press.event_time@),
        ensures
            (final(self).slots(), step) == insert_layer(old(self).slots(), press),
            slots_valid(final(self).slots()),
            final(self).same_surroundings(*old(self)),
    {
        let entry = StickyEntry::new(
            Action::LayerOn(press.layer),
            press.event.pos,
            press.policy,
            press.event_time,
        );
        if self.sticky_key_state.insert(entry).is_err() {
            return Step::Done;
        }
        Step::Call {
            request: Request::ActivateLayer { layer: press.layer },
            then: Continuation::Proceed(After::Return),
        }
    }

    /// A key that holds a layer went down, and the number of layers is known.
    fn check_layer(&mut self, press: LayerPress, layers: usize) -> (step: Step)
        requires
            slots_valid(old(self).slots()),
            check_layer_fits(old(self).slots(), press, layers as int),
        ensures
            (final(self).slots(), step) == check_layer(old(self).slots(), press, layers as int),
            slots_valid(final(self).slots()),
            final(self).same_surroundings(*old(self)),
    {
        let activate = Step::Call {
            request: Request::ActivateLayer { layer: press.layer },
            then: Continuation::Proceed(After::Return),
        };
        if press.layer as usize >= layers {
            // The rest of the keyboard complains about the layer; it is never armed.
            return activate;
        }
        match self.sticky_key_state.layer_index() {
            Some(index) => {
                let mut entry = self.sticky_key_state.entry_at(index);
                if entry.is_double_tap(press.event.pos, press.policy) {
                    return self.release_entry_then(index, After::Return);
                }
                if entry.layer() == Some(press.layer) {
                    entry.begin_press(press.event.pos, press.policy, press.event_time);
                    self.sticky_key_state.put_entry(index, entry);
                    return activate;
                }
                self.release_entry_then(index, After::InsertLayer(press))
            },
            None => self.insert_layer(press),
        }
    }

    /// A key that holds a layer goes down or up.
    pub fn process_layer_effect(
        &mut self,
        layer: u8,
        policy: StickyKeyPolicy,
        event: KeyboardEvent,
        event_time: Instant,
    ) -> (step: Step)
        requires
            slots_valid(old(self).slots()),
            layer_effect_fits(old(self).slots(), LayerPress { layer, policy, event, event_time }),
        ensures
            (final(self).slots(), step) == layer_effect(
                old(self).slots(),
                LayerPress { layer, policy, event, event_time },
            ),
            slots_valid(final(self).slots()),
            final(self).same_surroundings(*old(self)),
    {
        if event.pressed {
            let press = LayerPress { layer, policy, event, event_time };
            match self.sticky_key_state.tap_key_index() {
                Some(index) => self.release_entry_then(index, After::CheckLayer(press)),
                None => Step::Call {
                    request: Request::LayerCount,
                    then: Continuation::LayerCount(press),
                },
            }
        } else {
            match self.sticky_key_state.layer_index() {
                Some(index) => {
                    let mut entry = self.sticky_key_state.entry_at(index);
                    let release = entry.on_physical_release(Some(event.pos), event_time);
                    self.sticky_key_state.put_entry(index, entry);
                    if release == PhysicalRelease::Released {
                        self.release_entry_then(index, After::Return)
                    } else {
                        Step::Done
                    }
                },
                None => Step::Done,
            }
        }
    }

    /// A tap key is tapped, with no other entry in the way.
    fn press_tap_key(&mut self, press: TapKeyPress) -> (step: Step)
        requires
            slots_valid(old(self).slots()),
            press_tap_key_fits(old(self).slots(), press),
        ensures
            (final(self).slots(), step) == press_tap_key(old(self).slots(), press),
            slots_valid(final(self).slots()),
            final(self).same_surroundings(*old(self)),
    {
        match self.sticky_key_state.tap_key_index() {
            Some(index) => {
                let mut entry = self.sticky_key_state.entry_at(index);
                if entry.repeat_count < u16::MAX {
                    entry.repeat_count = entry.repeat_count + 1;
                }
                if press.policy.max_repeat > 0 && entry.repeat_count > press.policy.max_repeat {
                    return self.release_entry_then(index, After::Return);
                }
                entry.begin_press(press.event.pos, press.policy, press.event_time);
                self.sticky_key_state.put_entry(index, entry);
            },
            None => {
                let entry = StickyEntry::new(
                    Action::KeyWithModifier(press.key, press.modifiers),
                    press.event.pos,
                    press.policy,
                    press.event_time,
                );
                if self.sticky_key_state.insert(entry).is_err() {
                    return Step::Done;
                }
            },
        }
        Step::Call {
            request: Request::ProcessKey { key: press.key, event: press.event },
            then: Continuation::Proceed(After::Return),
        }
    }

    /// A tap key went down, and only tap keys are active.
    fn choose_tap_key(&mut self, press: TapKeyPress) -> (step: Step)
        requires
            slots_valid(old(self).slots()),
            choose_tap_key_fits(old(self).slots(), press),
        ensures
            (final(self).slots(), step) == choose_tap_key(old(self).slots(), press),
            slots_valid(final(self).slots()),
            final(self).same_surroundings(*old(self)),
    {
        if let Some(index) = self.sticky_key_state.tap_key_index() {
            let entry = self.sticky_key_state.entry_at(index);
            let same_tap_key = entry.source == press.event.pos && entry.action
                == Action::KeyWithModifier(press.key, press.modifiers);
            if !same_tap_key {
                return self.release_entry_then(index, After::PressTapKey(press));
            }
            if entry.is_double_tap(press.event.pos, press.policy) {
                return self.release_entry_then(index, After::Return);
            }
        }
        self.press_tap_key(press)
    }

    /// A tap key went down: from a slot on, what is no tap key is released first.
    fn sweep_for_tap_key(&mut self, press: TapKeyPress, from: usize) -> (step: Step)
        requires
            slots_valid(old(self).slots()),
            sweep_for_tap_key_fits(old(self).slots(), press, from as int),
        ensures
            (final(self).slots(), step) == sweep_for_tap_key(old(self).slots(), press, from as int),
            slots_valid(final(self).slots()),
            final(self).same_surroundings(*old(self)),
    {
        let ghost other = |slot: Option<Entry>|
            slot is Some && !has_shape(slot, StickyKeyShape::TapKey);
        let mut index: usize = from;
        while index < MAX_ACTIVE_STICKY_KEYS
            invariant
                *self == *old(self),
                slots_valid(self.slots()),
                from <= index,
                other == (|slot: Option<Entry>|
                    slot is Some && !has_shape(slot, StickyKeyShape::TapKey)),
                forall|i: int|
                    from <= i < index && i < MAX_ACTIVE_STICKY_KEYS ==> !other(
                        #[trigger] self.slots()[i],
                    ),
            decreases MAX_ACTIVE_STICKY_KEYS - index,
        {
            if self.sticky_key_state.active[index].is_some() {
                let entry = self.sticky_key_state.entry_at(index);
                if !entry.is_tap_key() {
                    proof {
                        lemma_first_where_is(self.slots(), from as int, other, index as int);
                    }
                    return self.release_entry_then(
                        index,
                        After::SweepForTapKey { press, index: index + 1 },
                    );
                }
            }
            index += 1;
        }
        proof {
            lemma_first_where_none(self.slots(), from as int, other);
        }
        self.choose_tap_key(press)
    }

    /// A tap key goes down or up.
    pub fn process_tap_key_effect(
        &mut self,
        key: HidKeyCode,
        modifiers: ModifierCombination,
        policy: StickyKeyPolicy,
        event: KeyboardEvent,
        event_time: Instant,
    ) -> (step: Step)
        requires
            slots_valid(old(self).slots()),
            tap_key_effect_fits(
                old(self).slots(),
                TapKeyPress { key, modifiers, policy, event, event_time },
            ),
        ensures
            (final(self).slots(), step) == tap_key_effect(
                old(self).slots(),
                TapKeyPress { key, modifiers, policy, event, event_time },
            ),
            slots_valid(final(self).slots()),
            final(self).same_surroundings(*old(self)),
    {
        if event.pressed {
            self.sweep_for_tap_key(TapKeyPress { key, modifiers, policy, event, event_time }, 0)
        } else {
            match self.sticky_key_state.tap_key_index() {
                Some(index) => {
                    let mut entry = self.sticky_key_state.entry_at(index);
                    if entry.source == event.pos && matches!(
                        entry.phase,
                        StickyPhase::Pressed | StickyPhase::PressDeadlineInactive
                    ) {
                        entry.on_physical_release(Some(event.pos), event_time);
                        self.sticky_key_state.put_entry(index, entry);
                        Step::Call {
                            request: Request::ProcessKey { key, event },
                            then: Continuation::Proceed(After::Return),
                        }
                    } else {
                        Step::Done
                    }
                },
                None => Step::Done,
            }
        }
    }

    /// Releases a tap key around a foreign action at the ordering boundary required by its policy.
    pub fn prepare_sticky_key_for_action(&mut self, action: Action, event: KeyboardEvent) -> (result: (
        StickyKeyPostAction,
        Step,
    ))
        requires
            slots_valid(old(self).slots()),
        ensures
            result.0 == due_after_action(old(self).slots(), action, event),
            (final(self).slots(), result.1) == before_action(old(self).slots(), action, event),
            slots_valid(final(self).slots()),
            final(self).same_surroundings(*old(self)),
    {
        let index = match self.sticky_key_state.tap_key_index() {
            Some(index) => index,
            None => {
                return (StickyKeyPostAction::Nothing, Step::Done);
            },
        };
        let preserves_tap_key = match action {
            Action::Modifier(_) => true,
            Action::Key(KeyCode::Hid(key)) => key.is_modifier(),
            _ => false,
        };
        let entry = self.sticky_key_state.entry_at(index);
        let releases = !preserves_tap_key && entry.trigger_for_key(event.pressed);
        if releases && event.pressed {
            (StickyKeyPostAction::Nothing, self.release_entry_then(index, After::Return))
        } else if releases {
            (StickyKeyPostAction::Release, Step::Done)
        } else {
            (StickyKeyPostAction::Nothing, Step::Done)
        }
    }

    /// Does what `prepare_sticky_key_for_action` left to be done after the foreign action.
    pub fn finish_sticky_key_after_action(&mut self, post_action: StickyKeyPostAction) -> (step: Step)
        requires
            slots_valid(old(self).slots()),
        ensures
            (final(self).slots(), step) == after_action(old(self).slots(), post_action),
            slots_valid(final(self).slots()),
            final(self).same_surroundings(*old(self)),
    {
        if post_action == StickyKeyPostAction::Release {
            if let Some(index) = self.sticky_key_state.tap_key_index() {
                return self.release_entry_then(index, After::Return);
            }
        }
        Step::Done
    }

    /// Applies a foreign key event uniformly to all active entries: what it uses up goes, and what
    /// is still down is held from the press of the foreign key on.
    pub fn update_sticky_key(&mut self, event: KeyboardEvent) -> (update: StickyKeyUpdate)
        requires
            slots_valid(old(self).slots()),
        ensures
            final(self).slots() == slots_after_key(old(self).slots(), event.pressed),
            update.modifier_consumed == modifier_used_up(old(self).slots(), event.pressed),
            update.deactivated_layers@ == layers_used_up(old(self).slots(), event.pressed),
            slots_valid(final(self).slots()),
            final(self).same_surroundings(*old(self)),
    {
        let mut update = StickyKeyUpdate {
            modifier_consumed: false,
            deactivated_layers: [None; MAX_ACTIVE_STICKY_KEYS],
        };
        let mut index: usize = 0;
        while index < MAX_ACTIVE_STICKY_KEYS
            invariant
                index <= MAX_ACTIVE_STICKY_KEYS,
                slots_valid(old(self).slots()),
                slots_valid(self.slots()),
                self.same_surroundings(*old(self)),
                forall|i: int|
                    0 <= i < index ==> #[trigger] self.slots()[i] == slot_after_key(
                        old(self).slots()[i],
                        event.pressed,
                    ),
                forall|i: int|
                    index <= i < MAX_ACTIVE_STICKY_KEYS ==> #[trigger] self.slots()[i]
                        == old(self).slots()[i],
                update.modifier_consumed == modifier_used_up(
                    old(self).slots().take(index as int),
                    event.pressed,
                ),
                forall|i: int|
                    0 <= i < index ==> #[trigger] update.deactivated_layers@[i] == layer_used_up(
                        old(self).slots()[i],
                        event.pressed,
                    ),
                forall|i: int|
                    index <= i < MAX_ACTIVE_STICKY_KEYS
                        ==> #[trigger] update.deactivated_layers@[i] is None,
            decreases MAX_ACTIVE_STICKY_KEYS - index,
        {
            let ghost before = self.slots();
            let ghost slot = old(self).slots()[index as int];
            proof {
                lemma_modifier_used_up(old(self).slots(), index as int, event.pressed);
            }
            if self.sticky_key_state.active[index].is_some() {
                let mut entry = self.sticky_key_state.entry_at(index);
                if !entry.is_tap_key() {
                    match entry.phase {
                        StickyPhase::Pressed | StickyPhase::PressDeadlineInactive
                        | StickyPhase::HoldQualified => {
                            if event.pressed {
                                entry.mark_foreign_key();
                                self.sticky_key_state.put_entry(index, entry);
                            }
                        },
                        StickyPhase::Latched => {
                            if entry.trigger_for_key(event.pressed) {
                                self.sticky_key_state.clear_entry(index);
                                match entry.action {
                                    Action::Modifier(_) => {
                                        update.modifier_consumed = true;
                                    },
                                    Action::LayerOn(layer) => {
                                        update.deactivated_layers[index] = Some(layer);
                                    },
                                    _ => {},
                                }
                            }
                        },
                        StickyPhase::Held => {},
                    }
                }
            }
            index += 1;
        }
        assert(self.slots() =~= slots_after_key(old(self).slots(), event.pressed));
        assert(update.deactivated_layers@ =~= layers_used_up(old(self).slots(), event.pressed));
        assert(old(self).slots().take(index as int) =~= old(self).slots());
        update
    }

    /// Finishes sticky key handling after a concrete key report has been sent. The result tells the
    /// caller whether a balancing keyboard report is needed: after the press of a basic key that
    /// used up modifiers which its press releases, and after any other key that used up modifiers
    /// which the host still sees.
    pub fn finish_sticky_key_for_key(&mut self, event: KeyboardEvent, is_basic_keyboard_key: bool) -> (finish:
        StickyKeyFinish)
        requires
            slots_valid(old(self).slots()),
        ensures
            final(self).slots() == slots_after_key(old(self).slots(), event.pressed),
            finish.needs_report == (modifier_used_up(old(self).slots(), event.pressed) && (
            if is_basic_keyboard_key {
                event.pressed && modifier_triggers_on_press(old(self).slots())
            } else {
                old(self).last_modifier_report.sticky_contributed != ModifierCombination::none()
            })),
            finish.needs_report == report_owed(
                old(self).slots(),
                old(self).last_modifier_report.sticky_contributed,
                event.pressed,
                is_basic_keyboard_key,
            ),
            finish.deactivated_layers@ == layers_used_up(old(self).slots(), event.pressed),
            slots_valid(final(self).slots()),
            final(self).same_surroundings(*old(self)),
    {
        let modifier_was_host_visible = self.last_modifier_report.sticky_contributed.into_bits() != 0;
        let modifier_releases_on_press = self.sticky_key_state.modifier_releases_on_press();
        let update = self.update_sticky_key(event);

        let needs_report = (is_basic_keyboard_key && event.pressed && modifier_releases_on_press
            && update.modifier_consumed) || (!is_basic_keyboard_key && update.modifier_consumed
            && modifier_was_host_visible);
        StickyKeyFinish { needs_report, deactivated_layers: update.deactivated_layers }
    }

    /// Releases, from a slot on, what a layer event releases.
    fn sweep_on_layer_event(&mut self, event: StickyKeyReleaseMode, from: usize) -> (step: Step)
        requires
            slots_valid(old(self).slots()),
        ensures
            (final(self).slots(), step) == sweep_on_layer_event(old(self).slots(), event, from as int),
            slots_valid(final(self).slots()),
            final(self).same_surroundings(*old(self)),
    {
        let ghost due = |slot: Option<Entry>|
            slot matches Some(entry) && entry.policy.release_mode.meets(event);
        let mut index: usize = from;
        while index < MAX_ACTIVE_STICKY_KEYS
            invariant
                *self == *old(self),
                slots_valid(self.slots()),
                from <= index,
                due == (|slot: Option<Entry>|
                    slot matches Some(entry) && entry.policy.release_mode.meets(event)),
                forall|i: int|
                    from <= i < index && i < MAX_ACTIVE_STICKY_KEYS ==> !due(
                        #[trigger] self.slots()[i],
                    ),
            decreases MAX_ACTIVE_STICKY_KEYS - index,
        {
            if self.sticky_key_state.active[index].is_some() {
                let entry = self.sticky_key_state.entry_at(index);
                if entry.policy.release_mode.intersects(event) {
                    proof {
                        lemma_first_where_is(self.slots(), from as int, due, index as int);
                    }
                    return self.release_entry_then(
                        index,
                        After::SweepOnLayerEvent { event, index: index + 1 },
                    );
                }
            }
            index += 1;
        }
        proof {
            lemma_first_where_none(self.slots(), from as int, due);
        }
        Step::Done
    }

    /// A layer event releases the entries whose policy names it.
    pub fn release_sticky_key_on_layer_event(&mut self, event: StickyKeyReleaseMode) -> (step: Step)
        requires
            slots_valid(old(self).slots()),
        ensures
            (final(self).slots(), step) == sweep_on_layer_event(old(self).slots(), event, 0),
            slots_valid(final(self).slots()),
            final(self).same_surroundings(*old(self)),
    {
        self.sweep_on_layer_event(event, 0)
    }

    /// Looks at the clock for the entries from a slot on.
    fn sweep_on_timeout(&mut self, now: Instant, from: usize) -> (step: Step)
        requires
            slots_valid(old(self).slots()),
        ensures
            (final(self).slots(), step) == sweep_on_timeout(old(self).slots(), now, from as int),
            slots_valid(final(self).slots()),
            final(self).same_surroundings(*old(self)),
    {
        let mut index: usize = from;
        while index < MAX_ACTIVE_STICKY_KEYS
            invariant
                slots_valid(self.slots()),
                self.same_surroundings(*old(self)),
                sweep_on_timeout(self.slots(), now, index as int) == sweep_on_timeout(
                    old(self).slots(),
                    now,
                    from as int,
                ),
            decreases MAX_ACTIVE_STICKY_KEYS - index,
        {
            if self.sticky_key_state.active[index].is_some() {
                let mut entry = self.sticky_key_state.entry_at(index);
                if entry.deadline_disposition(now) == DeadlineDisposition::Release {
                    return self.release_entry_then(
                        index,
                        After::SweepOnTimeout { now, index: index + 1 },
                    );
                }
                self.sticky_key_state.put_entry(index, entry);
            }
            index += 1;
        }
        Step::Done
    }

    /// Releases the entries that have timed out at `now`; a press whose threshold has passed counts
    /// as held from then on.
    pub fn release_sticky_key_on_timeout_at(&mut self, now: Instant) -> (step: Step)
        requires
            slots_valid(old(self).slots()),
        ensures
            (final(self).slots(), step) == sweep_on_timeout(old(self).slots(), now, 0),
            slots_valid(final(self).slots()),
            final(self).same_surroundings(*old(self)),
    {
        self.sweep_on_timeout(now, 0)
    }

    /// Releases the entries that have timed out by what the clock shows.
    pub fn release_sticky_key_if_active_on_timeout(&mut self) -> (step: Step)
        requires
            slots_valid(old(self).slots()),
        ensures
            exists|now: Instant|
                (final(self).slots(), step) == #[trigger] sweep_on_timeout(old(self).slots(), now, 0),
            slots_valid(final(self).slots()),
            final(self).same_surroundings(*old(self)),
    {
        let now = Instant::now();
        self.release_sticky_key_on_timeout_at(now)
    }

    /// The key of a sticky key goes down or up. An action that no sticky key can hold is ignored;
    /// for any other the policy of the profile is asked for first.
    pub fn process_action_sticky_key(
        &self,
        action: Action,
        profile: u8,
        event: KeyboardEvent,
        event_time: Instant,
        modifier_source: ModifierProducerSource,
    ) -> (step: Step)
        ensures
            step == match action.shape() {
                Some(shape) => Step::Call {
                    request: Request::Policy { profile, shape },
                    then: Continuation::Policy { action, event, event_time, modifier_source },
                },
                None => Step::Done,
            },
            step == opening(action, profile, event, event_time, modifier_source),
    {
        let shape = match action {
            Action::Modifier(_) => StickyKeyShape::PureMod,
            Action::LayerOn(_) => StickyKeyShape::Layer,
            Action::KeyWithModifier(_, _) => StickyKeyShape::TapKey,
            _ => {
                return Step::Done;
            },
        };
        Step::Call {
            request: Request::Policy { profile, shape },
            then: Continuation::Policy { action, event, event_time, modifier_source },
        }
    }

    /// Does what is left to be done once a request has been carried out.
    fn proceed(&mut self, after: After) -> (step: Step)
        requires
            slots_valid(old(self).slots()),
            proceed_fits(old(self).slots(), after),
        ensures
            (final(self).slots(), step) == proceed(old(self).slots(), after),
            slots_valid(final(self).slots()),
            final(self).same_surroundings(*old(self)),
    {
        match after {
            After::Return => Step::Done,
            After::PressModifier(press) => self.press_modifier(press),
            After::CheckLayer(press) => Step::Call {
                request: Request::LayerCount,
                then: Continuation::LayerCount(press),
            },
            After::InsertLayer(press) => self.insert_layer(press),
            After::SweepForTapKey { press, index } => self.sweep_for_tap_key(press, index),
            After::PressTapKey(press) => self.press_tap_key(press),
            After::SweepOnLayerEvent { event, index } => self.sweep_on_layer_event(event, index),
            After::SweepOnTimeout { now, index } => self.sweep_on_timeout(now, index),
        }
    }

    /// Whether the host loses modifiers with released ones.
    pub(crate) fn host_loses(&self, modifiers: ModifierCombination, non_sticky: ModifierCombination) -> (loses: bool)
        ensures
            loses == (lost_by_host(
                modifiers,
                self.last_modifier_report.sticky_contributed,
                non_sticky,
            ) != ModifierCombination::none()),
    {
        let removed_from_host = modifiers & self.last_modifier_report.sticky_contributed
            & non_sticky.complement();
        removed_from_host.into_bits() != 0
    }

    /// Goes on after a reply.
    pub fn resume(&mut self, then: Continuation, reply: Reply) -> (step: Step)
        requires
            slots_valid(old(self).slots()),
            accepts(then, reply),
            resumed_fits(
                old(self).slots(),
                old(self).keys_down(),
                old(self).last_modifier_report.sticky_contributed,
                then,
                reply,
            ),
        ensures
            (final(self).slots(), step) == resumed(
                old(self).slots(),
                old(self).keys_down(),
                old(self).last_modifier_report.sticky_contributed,
                then,
                reply,
            ),
            slots_valid(final(self).slots()),
            final(self).same_surroundings(*old(self)),
    {
        match (then, reply) {
            (
                Continuation::Policy { action, event, event_time, modifier_source },
                Reply::Policy(policy),
            ) => match action {
                Action::Modifier(modifiers) => self.process_modifier_effect(
                    modifiers,
                    policy,
                    event,
                    event_time,
                    modifier_source,
                ),
                Action::LayerOn(layer) => self.process_layer_effect(layer, policy, event, event_time),
                Action::KeyWithModifier(key, modifiers) => self.process_tap_key_effect(
                    key,
                    modifiers,
                    policy,
                    event,
                    event_time,
                ),
                _ => Step::Done,
            },
            (Continuation::LayerCount(press), Reply::LayerCount(layers)) => self.check_layer(
                press,
                layers,
            ),
            (
                Continuation::ReleaseModifiers { modifiers, after },
                Reply::NonStickyModifiers(non_sticky),
            ) => {
                if self.host_loses(modifiers, non_sticky) {
                    Step::Call {
                        request: Request::SendReport { pressed: false },
                        then: Continuation::Proceed(after),
                    }
                } else {
                    self.proceed(after)
                }
            },
            (
                Continuation::LiveRelease { old_effective, new_effective },
                Reply::NonStickyModifiers(non_sticky),
            ) => Step::Call {
                request: Request::SendLiveRelease { old_effective, new_effective, non_sticky },
                then: Continuation::Proceed(After::Return),
            },
            (Continuation::Proceed(after), Reply::Done) => self.proceed(after),
            _ => Step::Done,
        }
    }
}

/// Whether modifiers are used up in the slots before one, or in that one too.
proof fn lemma_modifier_used_up(slots: Slots, slot: int, pressed: bool)
    requires
        0 <= slot < slots.len(),
    ensures
        modifier_used_up(slots.take(slot + 1), pressed) == (modifier_used_up(slots.take(slot), pressed)
            || (used_up(slots[slot], pressed) && has_shape(slots[slot], StickyKeyShape::PureMod))),
{
    let before = slots.take(slot);
    let with = slots.take(slot + 1);
    assert forall|i: int| 0 <= i < slot implies #[trigger] with[i] == before[i] by {}
    assert(with[slot] == slots[slot]);
    if modifier_used_up(before, pressed) {
        let i = choose|i: int|
            0 <= i < before.len() && used_up(#[trigger] before[i], pressed) && has_shape(
                before[i],
                StickyKeyShape::PureMod,
            );
        assert(with[i] == before[i]);
    }
    if modifier_used_up(with, pressed) {
        let i = choose|i: int|
            0 <= i < with.len() && used_up(#[trigger] with[i], pressed) && has_shape(
                with[i],
                StickyKeyShape::PureMod,
            );
        assert(i < slot ==> before[i] == with[i]);
    }
}

} // verus!
