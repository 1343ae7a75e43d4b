//! What the held actions together add to a report, when they are next to be looked at, and where a
//! new one goes, in terms of what can be seen of each.

use vstd::prelude::*;

use crate::action::Action;
use crate::config::{StickyKeyReleaseMode, StickyKeyShape};
use crate::entry::{Entry, StickyEffectState, StickyPhase};
use crate::event::KeyboardEvent;
use crate::keyboard::Keyboard;
use crate::keyboard_laws::lemma_shape_slot;
use crate::lifecycle_laws::{law_buffered_presses_claim_latches, law_finished_claims_time_out_anew};
use crate::machine::{modifier_effect, press_modifier, ModifierPress};
use crate::modifier::ModifierCombination;
use crate::observed::{
    all_taken, changed_at, free_at, law_modifiers_are_sets, layer_at, lemma_kinds, modifiers_at,
    names, no_layer, no_modifiers, no_tap_key, span_end, tap_key_at,
};
use crate::producer_laws::{law_effective_modifiers_have_an_owner, some_producer_holds};
use crate::producers::{ModifierEffect, ModifierProducer};
use crate::search::{lemma_first_where, lemma_first_where_is, lemma_first_where_none};
use crate::state::{
    buffered, claims_can_finish, claims_finished, free_slot, has_shape, inserted, is_earliest_deadline,
    modifier_triggers_on_press, no_entries, reported_modifiers, shape_slot, slot_claim_can_finish,
    slot_modifiers, slots_valid, Slots, StickyKeyState, MAX_ACTIVE_STICKY_KEYS,
};
use crate::time::Instant;

verus! {

/// Whether the slot adds a modifier to the report of a key: a tap key adds its own to every report,
/// and held modifiers are added to that of a key that goes down whatever their phase, and to that of
/// a key that goes up only while they are held for other keys.
pub open spec fn adds_to_report(slot: Option<Entry>, pressed: bool, position: u8) -> bool {
    slot matches Some(entry) && {
        ||| entry.action matches Action::KeyWithModifier(_, modifiers)
            && modifiers.holds(position)
        ||| entry.action matches Action::Modifier(modifiers) && modifiers.holds(
            position,
        ) && (pressed || entry.phase == StickyPhase::Held)
    }
}

/// A report holds a sticky modifier exactly where some held action adds it.
pub proof fn law_reports_hold_what_is_added(slots: Slots, pressed: bool, position: u8)
    requires
        position < 8,
    ensures
        reported_modifiers(slots, pressed).holds(position) <==> exists|i: int|
            0 <= i < slots.len() && adds_to_report(#[trigger] slots[i], pressed, position),
    decreases slots.len(),
{
    law_modifiers_are_sets(ModifierCombination::none(), ModifierCombination::none(), position);
    if slots.len() > 0 {
        let rest = slots.drop_last();
        law_reports_hold_what_is_added(rest, pressed, position);
        law_modifiers_are_sets(
            reported_modifiers(rest, pressed),
            slot_modifiers(slots.last(), pressed),
            position,
        );
        assert(slot_modifiers(slots.last(), pressed).holds(position) <==> adds_to_report(
            slots.last(),
            pressed,
            position,
        ));
        assert forall|i: int| 0 <= i < rest.len() implies #[trigger] rest[i] == slots[i] by {}
        if exists|i: int| 0 <= i < rest.len() && adds_to_report(#[trigger] rest[i], pressed, position) {
            let i = choose|i: int|
                0 <= i < rest.len() && adds_to_report(#[trigger] rest[i], pressed, position);
            assert(adds_to_report(slots[i], pressed, position));
        }
        if adds_to_report(slots.last(), pressed, position) {
            assert(adds_to_report(slots[slots.len() - 1], pressed, position));
        }
        if exists|i: int| 0 <= i < slots.len() && adds_to_report(#[trigger] slots[i], pressed, position) {
            let i = choose|i: int|
                0 <= i < slots.len() && adds_to_report(#[trigger] slots[i], pressed, position);
            if i < rest.len() {
                assert(adds_to_report(rest[i], pressed, position));
            }
        }
    }
}

/// While a modifier key is down, every key that goes down is reported with its modifiers: from its
/// press on, before any other key and whatever the policy says.
pub proof fn law_modifiers_that_are_down_are_reported(
    slots: Slots,
    keys_down: bool,
    press: ModifierPress,
    slot: int,
    position: u8,
)
    requires
        slots_valid(slots),
        press.event.pressed,
        no_tap_key(slots),
        no_modifiers(slots),
        free_at(slots, slot),
        press.modifiers.holds(position),
        position < 8,
    ensures
        reported_modifiers(press_modifier(slots, press).0, true).holds(position),
        reported_modifiers(modifier_effect(slots, keys_down, press).0, true).holds(position),
{
    lemma_kinds(slots, slot);
    law_entries_go_into_the_first_free_slot(slots, press.entry(), slot);
    let after = press_modifier(slots, press).0;
    law_reports_hold_what_is_added(after, true, position);
    assert(adds_to_report(after[slot], true, position));
}

/// The same of a modifier key that joins one that is held already.
pub proof fn law_modifiers_that_join_are_reported(
    slots: Slots,
    keys_down: bool,
    press: ModifierPress,
    slot: int,
    position: u8,
)
    requires
        slots_valid(slots),
        press.event.pressed,
        no_tap_key(slots),
        modifiers_at(slots, slot),
        slots[slot]->0.phase != StickyPhase::Latched,
        slots[slot]->0.effect->0.producers.contains(None),
        press.modifiers.holds(position) || slots[slot]->0.modifiers().holds(position),
        position < 8,
    ensures
        reported_modifiers(press_modifier(slots, press).0, true).holds(position),
        reported_modifiers(modifier_effect(slots, keys_down, press).0, true).holds(position),
{
    lemma_kinds(slots, slot);
    let entry = slots[slot]->0;
    let effect = entry.effect->0;
    let producer = press.producer();
    let empty = |taken: Option<ModifierProducer>| taken is None;
    lemma_first_where(effect.producers, 0, empty);
    let some = choose|i: int|
        0 <= i < effect.producers.len() && effect.producers[i] == None::<ModifierProducer>;
    assert(empty(effect.producers[some]));
    let free = effect.free_slot()->0;
    let joined = effect.pressed(producer);
    law_effective_modifiers_have_an_owner(effect, position);
    law_effective_modifiers_have_an_owner(joined, position);
    assert(joined.producers[free] == Some(producer));
    if some_producer_holds(effect.producers, position) {
        let i = choose|i: int|
            0 <= i < effect.producers.len() && (#[trigger] effect.producers[i] matches Some(other)
                && other.modifiers.holds(position));
        assert(joined.producers[i] == effect.producers[i]);
    }
    let after = press_modifier(slots, press).0;
    law_reports_hold_what_is_added(after, true, position);
    assert(adds_to_report(after[slot], true, position));
}

/// A new entry goes into the first free slot and changes no other; where none is free it goes
/// nowhere.
pub proof fn law_entries_go_into_the_first_free_slot(slots: Slots, entry: Entry, slot: int)
    ensures
        free_at(slots, slot) ==> {
            &&& free_slot(slots) == Some(slot)
            &&& inserted(slots, entry)[slot] == Some(entry)
            &&& changed_at(slots, inserted(slots, entry), slot)
        },
        all_taken(slots) ==> free_slot(slots) is None && inserted(slots, entry) == slots,
{
    let free = |held: Option<Entry>| held is None;
    if free_at(slots, slot) {
        lemma_first_where_is(slots, 0, free, slot);
    }
    if all_taken(slots) {
        lemma_first_where_none(slots, 0, free);
    }
}

/// A state that holds nothing has all its slots free.
pub proof fn law_no_entries_are_held_at_first(i: int)
    requires
        0 <= i < MAX_ACTIVE_STICKY_KEYS,
    ensures
        no_entries().len() == MAX_ACTIVE_STICKY_KEYS,
        no_entries()[i] is None,
{
}

/// The view of a state shows every slot of it, and the view of an entry all that the entry is made
/// of.
pub proof fn law_views_show_everything(state: StickyKeyState, i: int)
    requires
        0 <= i < MAX_ACTIVE_STICKY_KEYS,
    ensures
        state@.len() == MAX_ACTIVE_STICKY_KEYS,
        state.active@[i] is None <==> state@[i] is None,
        state.active@[i] matches Some(entry) ==> state@[i] matches Some(seen) && {
            &&& seen.action == entry.action
            &&& seen.source == entry.source
            &&& seen.policy == entry.policy
            &&& seen.phase == entry.phase
            &&& seen.repeat_count == entry.repeat_count
            &&& seen.buffered_claim == entry.buffered_claim
            &&& entry.timing_marker is None <==> seen.timing_marker is None
            &&& entry.timing_marker matches Some(time) ==> seen.timing_marker == Some(
                time.ticks as int,
            )
            &&& entry.effect_state is ActionOnly <==> seen.effect is None
            &&& entry.effect_state matches StickyEffectState::Modifier(effect) ==> seen.effect == Some(
                ModifierEffect { producers: effect.producers@, retained: effect.retained },
            )
        },
{
}

/// A physical key is down from the first on, and what sticky key handling knows of the keyboard
/// besides the held actions is that number and what the host was last told.
pub proof fn law_keyboards_show_everything(keyboard: Keyboard, other: Keyboard)
    ensures
        keyboard.keys_down() <==> keyboard.physical_keys_down != 0,
        keyboard.slots() == keyboard.sticky_key_state@,
        keyboard.same_surroundings(other) <==> (keyboard.physical_keys_down
            == other.physical_keys_down && keyboard.last_modifier_report.sticky_contributed
            == other.last_modifier_report.sticky_contributed),
{
}

/// The next wakeup is the earliest time that a press before its threshold or a latch is marked with,
/// and there is none only where nothing is so marked.
pub proof fn law_wakeups_come_first(slots: Slots, deadline: Option<int>)
    requires
        is_earliest_deadline(slots, deadline),
    ensures
        forall|i: int|
            0 <= i < slots.len() ==> (#[trigger] slots[i] matches Some(entry) ==> ((entry.phase
                == StickyPhase::Pressed || entry.phase == StickyPhase::Latched) ==> (
            entry.timing_marker matches Some(ticks) ==> (deadline matches Some(earliest) && earliest
                <= ticks)))),
        deadline matches Some(earliest) ==> exists|i: int|
            0 <= i < slots.len() && (#[trigger] slots[i] matches Some(entry) && (entry.phase
                == StickyPhase::Pressed || entry.phase == StickyPhase::Latched)
                && entry.timing_marker == Some(earliest)),
{
}

/// A buffered press claims, in every slot, the latch that it is going to use, and touches no other;
/// a buffered release claims nothing.
pub proof fn law_buffered_presses_claim_slot_by_slot(slots: Slots, event: KeyboardEvent, i: int)
    requires
        0 <= i < slots.len(),
    ensures
        !event.pressed ==> buffered(slots, event) == slots,
        event.pressed ==> {
            let after = buffered(slots, event);
            &&& after.len() == slots.len()
            &&& slots[i] is None ==> after[i] is None
            &&& slots[i] matches Some(entry) ==> {
                let claims = entry.phase == StickyPhase::Latched && entry.source != event.pos && names(
                    entry.policy.release_mode,
                    StickyKeyReleaseMode::OTHER_KEY_PRESS,
                );
                &&& after[i] == Some(entry.claimed(event.pos))
                &&& claims ==> after[i]->0.buffered_claim && after[i]->0.timing_marker is None
                    && after[i]->0.phase == StickyPhase::Latched
                &&& !claims ==> after[i] == slots[i]
            }
        },
{
    if let Some(entry) = slots[i] {
        law_buffered_presses_claim_latches(entry, event.pos);
    }
}

/// The end of a buffered press gives every claimed latch, slot by slot, its whole timeout from the
/// time of its slot, where the clock has a tick for its end; what was not claimed stays as it was.
/// All is finished exactly where no claim is left.
pub proof fn law_finished_claims_slot_by_slot(slots: Slots, times: Seq<Instant>, i: int)
    requires
        0 <= i < slots.len(),
        times.len() == slots.len(),
    ensures
        ({
            let after = claims_finished(slots, times);
            &&& after.len() == slots.len()
            &&& slots[i] is None ==> after[i] is None
            &&& slots[i] matches Some(entry) ==> {
                let fits = entry.policy.timeout.ticks == u64::MAX || times[i].ticks
                    + entry.policy.timeout.ticks <= u64::MAX;
                &&& after[i] is Some
                &&& !entry.buffered_claim || !fits ==> after[i] == slots[i]
                &&& entry.buffered_claim && fits ==> {
                    &&& after[i] == Some(entry.claim_finished(times[i].ticks as int))
                    &&& !after[i]->0.buffered_claim
                    &&& after[i]->0.phase == entry.phase
                    &&& after[i]->0.timing_marker == span_end(
                        times[i].ticks as int,
                        entry.policy.timeout,
                    )
                }
            }
            &&& claims_can_finish(slots, times) <==> forall|j: int|
                0 <= j < after.len() ==> (#[trigger] after[j] matches Some(entry)
                    ==> !entry.buffered_claim)
        }),
{
    let after = claims_finished(slots, times);
    assert forall|j: int| 0 <= j < slots.len() implies (after[j] matches Some(entry)
        ==> !entry.buffered_claim) == slot_claim_can_finish(
        #[trigger] slots[j],
        times[j],
    ) by {
        if let Some(entry) = slots[j] {
            law_finished_claims_time_out_anew(entry, times[j].ticks as int);
        }
    }
    if claims_can_finish(slots, times) {
        assert forall|j: int| 0 <= j < after.len() implies (#[trigger] after[j] matches Some(entry)
            ==> !entry.buffered_claim) by {
            assert(slot_claim_can_finish(slots[j], times[j]));
        }
    }
    if let Some(entry) = slots[i] {
        law_finished_claims_time_out_anew(entry, times[i].ticks as int);
    }
}

/// The first held modifiers are released by the press of another key exactly where their policy has
/// the bit of it; where nothing holds modifiers there is nothing to release.
pub proof fn law_modifiers_released_by_a_press(slots: Slots, slot: int)
    ensures
        modifiers_at(slots, slot) ==> (modifier_triggers_on_press(slots) <==> names(
            slots[slot]->0.policy.release_mode,
            StickyKeyReleaseMode::OTHER_KEY_PRESS,
        )),
        no_modifiers(slots) ==> !modifier_triggers_on_press(slots),
{
    lemma_kinds(slots, slot);
}

/// The slots of the three kinds are told by the actions that they hold: the first that holds one of
/// a kind is its slot, and a kind without a slot is held nowhere.
pub proof fn law_kinds_are_found_by_their_actions(slots: Slots, slot: int)
    ensures
        shape_slot(slots, StickyKeyShape::PureMod) == Some(slot) <==> modifiers_at(slots, slot),
        shape_slot(slots, StickyKeyShape::PureMod) is None <==> no_modifiers(slots),
        shape_slot(slots, StickyKeyShape::Layer) == Some(slot) <==> layer_at(
            slots,
            slot,
        ),
        shape_slot(slots, StickyKeyShape::Layer) is None <==> no_layer(slots),
        shape_slot(slots, StickyKeyShape::TapKey) == Some(slot) <==> tap_key_at(
            slots,
            slot,
        ),
        shape_slot(slots, StickyKeyShape::TapKey) is None <==> no_tap_key(slots),
{
    lemma_kinds(slots, slot);
    let kinds = (StickyKeyShape::PureMod, StickyKeyShape::Layer, StickyKeyShape::TapKey);
    lemma_first_where(slots, 0, |held: Option<Entry>| has_shape(held, kinds.0));
    lemma_first_where(slots, 0, |held: Option<Entry>| has_shape(held, kinds.1));
    lemma_first_where(slots, 0, |held: Option<Entry>| has_shape(held, kinds.2));
    lemma_shape_slot(slots, StickyKeyShape::PureMod);
    lemma_shape_slot(slots, StickyKeyShape::Layer);
    lemma_shape_slot(slots, StickyKeyShape::TapKey);
}

} // verus!
