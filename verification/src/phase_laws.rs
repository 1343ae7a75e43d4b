//! What the phase of a held action tells of the keys that hold it.

use vstd::prelude::*;

use crate::action::Action;
use crate::config::{StickyKeyPolicy, StickyKeyReleaseMode, StickyKeyShape};
use crate::entry::{DeadlineDisposition, Entry, StickyPhase};
use crate::event::{KeyboardEvent, KeyboardEventPos};
use crate::keyboard_laws::{law_timeouts_end_only_what_is_due, lemma_free_slot, lemma_shape_slot};
use crate::machine::{
    accepts, action_effect, after_action, before_action, check_layer, choose_tap_key, insert_layer,
    modifier_effect, press_modifier, press_tap_key, proceed, released_any, resumed, slots_after_key,
    sweep_for_tap_key, sweep_on_layer_event, sweep_on_timeout, After, Continuation, LayerPress,
    ModifierPress, Reply, StickyKeyPostAction, TapKeyPress,
};
use crate::modifier::ModifierCombination;
use crate::producers::{any_producer, ModifierEffect, ModifierProducer, ModifierProducerSource};
use crate::search::lemma_first_where;
use crate::state::{
    claims_finished, each, has_shape, no_entries, shape_slot, slots_valid, Slots,
};
use crate::time::Instant;

verus! {

/// Whether every modifier entry is latched exactly while none of its producers is down.
pub open spec fn phases_follow_producers(slots: Slots) -> bool {
    forall|i: int|
        0 <= i < slots.len() ==> (#[trigger] slots[i] matches Some(entry)
            ==> entry.phase_follows_producers())
}

/// A producer that goes down is down.
proof fn lemma_pressed_producer(effect: ModifierEffect, producer: ModifierProducer)
    requires
        effect.free_slot() is Some,
    ensures
        any_producer(effect.pressed(producer).producers),
{
    lemma_first_where(effect.producers, 0, |slot: Option<ModifierProducer>| slot is None);
    let slot = effect.free_slot()->0;
    assert(effect.pressed(producer).producers[slot] is Some);
}

/// A new modifier entry is held down by its producer.
proof fn lemma_fresh_entry(press: ModifierPress)
    ensures
        press.entry().phase_follows_producers(),
{
    assert(press.entry().effect->0.producers[0] is Some);
}

/// A key that holds modifiers goes down.
proof fn lemma_press_modifier_phases(slots: Slots, press: ModifierPress)
    requires
        slots_valid(slots),
        phases_follow_producers(slots),
    ensures
        phases_follow_producers(press_modifier(slots, press).0),
{
    lemma_shape_slot(slots, StickyKeyShape::PureMod);
    lemma_free_slot(slots);
    lemma_fresh_entry(press);
    if let Some(slot) = shape_slot(slots, StickyKeyShape::PureMod) {
        let effect = slots[slot]->0.effect->0;
        if effect.free_slot() is Some {
            lemma_pressed_producer(effect, press.producer());
        }
    }
}

/// A key that holds modifiers goes down or up: a modifier entry is latched after it exactly where
/// no producer of it is down any more.
pub proof fn law_modifier_keys_move_phase_and_producers_together(
    slots: Slots,
    keys_down: bool,
    press: ModifierPress,
)
    requires
        slots_valid(slots),
        phases_follow_producers(slots),
    ensures
        phases_follow_producers(modifier_effect(slots, keys_down, press).0),
{
    lemma_shape_slot(slots, StickyKeyShape::TapKey);
    lemma_shape_slot(slots, StickyKeyShape::PureMod);
    if press.event.pressed {
        lemma_press_modifier_phases(slots, press);
    } else if let Some(slot) = shape_slot(slots, StickyKeyShape::PureMod) {
        let entry = slots[slot]->0;
        let effect = entry.effect->0;
        let producer = press.producer();
        lemma_first_where(
            effect.producers,
            0,
            |taken: Option<ModifierProducer>| taken == Some(producer),
        );
        if let Some(taken) = effect.slot_of(producer) {
            assert(effect.producers[taken] is Some);
            assert(entry.phase != StickyPhase::Latched);
        }
    }
}

/// A key that holds a layer went down.
proof fn lemma_check_layer_phases(slots: Slots, press: LayerPress, layers: int)
    requires
        slots_valid(slots),
        phases_follow_producers(slots),
    ensures
        phases_follow_producers(insert_layer(slots, press).0),
        phases_follow_producers(check_layer(slots, press, layers).0),
{
    lemma_shape_slot(slots, StickyKeyShape::Layer);
    lemma_free_slot(slots);
}

/// A tap key went down.
proof fn lemma_tap_key_phases(slots: Slots, press: TapKeyPress, from: int)
    requires
        slots_valid(slots),
        phases_follow_producers(slots),
        0 <= from,
    ensures
        phases_follow_producers(press_tap_key(slots, press).0),
        phases_follow_producers(choose_tap_key(slots, press).0),
        phases_follow_producers(sweep_for_tap_key(slots, press, from).0),
{
    lemma_shape_slot(slots, StickyKeyShape::TapKey);
    lemma_free_slot(slots);
    lemma_first_where(
        slots,
        from,
        |slot: Option<Entry>| slot is Some && !has_shape(slot, StickyKeyShape::TapKey),
    );
}

/// A layer event comes.
proof fn lemma_layer_event_phases(slots: Slots, event: StickyKeyReleaseMode, from: int)
    requires
        phases_follow_producers(slots),
        0 <= from,
    ensures
        phases_follow_producers(sweep_on_layer_event(slots, event, from).0),
{
    lemma_first_where(
        slots,
        from,
        |slot: Option<Entry>| slot matches Some(entry) && entry.policy.release_mode.meets(event),
    );
}

/// The clock is looked at.
proof fn lemma_timeout_phases(slots: Slots, now: Instant, from: int)
    requires
        phases_follow_producers(slots),
        0 <= from,
    ensures
        phases_follow_producers(sweep_on_timeout(slots, now, from).0),
    decreases slots.len() - from,
{
    if from < slots.len() {
        match slots[from] {
            Some(entry) => if entry.disposition(now@) != DeadlineDisposition::Release {
                lemma_timeout_phases(slots.update(from, Some(entry.polled(now@))), now, from + 1);
            },
            None => lemma_timeout_phases(slots, now, from + 1),
        }
    }
}

/// What is left to do is done.
proof fn lemma_proceed_phases(slots: Slots, after: After)
    requires
        slots_valid(slots),
        phases_follow_producers(slots),
    ensures
        phases_follow_producers(proceed(slots, after).0),
{
    match after {
        After::Return | After::CheckLayer(_) => {},
        After::PressModifier(press) => lemma_press_modifier_phases(slots, press),
        After::InsertLayer(press) => lemma_check_layer_phases(slots, press, 0),
        After::SweepForTapKey { press, index } => lemma_tap_key_phases(slots, press, index as int),
        After::PressTapKey(press) => lemma_tap_key_phases(slots, press, 0),
        After::SweepOnLayerEvent { event, index } => lemma_layer_event_phases(
            slots,
            event,
            index as int,
        ),
        After::SweepOnTimeout { now, index } => lemma_timeout_phases(slots, now, index as int),
    }
}

/// Whatever the key of a sticky key does, and whatever its policy is, a modifier entry stays latched
/// exactly while none of its producers is down.
pub proof fn law_key_events_keep_phases_and_producers_together(
    slots: Slots,
    keys_down: bool,
    action: Action,
    policy: StickyKeyPolicy,
    event: KeyboardEvent,
    event_time: Instant,
    source: ModifierProducerSource,
)
    requires
        slots_valid(slots),
        phases_follow_producers(slots),
    ensures
        phases_follow_producers(
            action_effect(slots, keys_down, action, policy, event, event_time, source).0,
        ),
{
    lemma_shape_slot(slots, StickyKeyShape::TapKey);
    lemma_shape_slot(slots, StickyKeyShape::Layer);
    match action {
        Action::Modifier(modifiers) => law_modifier_keys_move_phase_and_producers_together(
            slots,
            keys_down,
            ModifierPress { modifiers, policy, event, event_time, producer_source: source },
        ),
        Action::KeyWithModifier(key, modifiers) => lemma_tap_key_phases(
            slots,
            TapKeyPress { key, modifiers, policy, event, event_time },
            0,
        ),
        _ => {},
    }
}

/// Every decision, at every point of a conversation and for every reply, keeps a modifier entry
/// latched exactly while none of its producers is down.
pub proof fn law_conversations_keep_phases_and_producers_together(
    slots: Slots,
    keys_down: bool,
    sticky_contributed: ModifierCombination,
    then: Continuation,
    reply: Reply,
)
    requires
        slots_valid(slots),
        phases_follow_producers(slots),
        accepts(then, reply),
    ensures
        phases_follow_producers(resumed(slots, keys_down, sticky_contributed, then, reply).0),
{
    match (then, reply) {
        (
            Continuation::Policy { action, event, event_time, modifier_source },
            Reply::Policy(policy),
        ) => law_key_events_keep_phases_and_producers_together(
            slots,
            keys_down,
            action,
            policy,
            event,
            event_time,
            modifier_source,
        ),
        (Continuation::LayerCount(press), Reply::LayerCount(layers)) => lemma_check_layer_phases(
            slots,
            press,
            layers as int,
        ),
        (Continuation::ReleaseModifiers { after, .. }, Reply::NonStickyModifiers(_)) => {
            lemma_proceed_phases(slots, after);
        },
        (Continuation::Proceed(after), Reply::Done) => lemma_proceed_phases(slots, after),
        _ => {},
    }
}

/// Foreign keys, buffered presses and their end, foreign actions, layer events, timeouts and releases
/// keep a modifier entry latched exactly while none of its producers is down.
pub proof fn law_other_events_keep_phases_and_producers_together(
    slots: Slots,
    pressed: bool,
    source: KeyboardEventPos,
    times: Seq<Instant>,
    action: Action,
    event: KeyboardEvent,
    post_action: StickyKeyPostAction,
    layer_event: StickyKeyReleaseMode,
    now: Instant,
    slot: int,
)
    requires
        slots_valid(slots),
        phases_follow_producers(slots),
        0 <= slot < slots.len(),
    ensures
        phases_follow_producers(slots_after_key(slots, pressed)),
        phases_follow_producers(each(slots, |entry: Entry| entry.claimed(source))),
        phases_follow_producers(claims_finished(slots, times)),
        phases_follow_producers(before_action(slots, action, event).0),
        phases_follow_producers(after_action(slots, post_action).0),
        phases_follow_producers(sweep_on_layer_event(slots, layer_event, 0).0),
        phases_follow_producers(sweep_on_timeout(slots, now, 0).0),
        phases_follow_producers(released_any(slots, slot).0),
{
    lemma_shape_slot(slots, StickyKeyShape::TapKey);
    lemma_layer_event_phases(slots, layer_event, 0);
    lemma_timeout_phases(slots, now, 0);
    assert forall|i: int| 0 <= i < slots.len() implies (#[trigger] slots_after_key(
        slots,
        pressed,
    )[i] matches Some(entry) ==> entry.phase_follows_producers()) by {
        assert(slots[i] matches Some(entry) ==> entry.phase_follows_producers());
    }
    let claimed = each(slots, |entry: Entry| entry.claimed(source));
    assert forall|i: int| 0 <= i < slots.len() implies (#[trigger] claimed[i] matches Some(entry)
        ==> entry.phase_follows_producers()) by {
        assert(slots[i] matches Some(entry) ==> entry.phase_follows_producers());
    }
    let finished = claims_finished(slots, times);
    assert forall|i: int| 0 <= i < slots.len() implies (#[trigger] finished[i] matches Some(entry)
        ==> entry.phase_follows_producers()) by {
        assert(slots[i] matches Some(entry) ==> entry.phase_follows_producers());
    }
}

/// In a state that holds nothing every phase follows its producers.
pub proof fn law_no_entries_follow_their_producers()
    ensures
        phases_follow_producers(no_entries()),
{
}

/// A look at the clock takes out no entry with a producer that is still down: its release is still to
/// come, and completes its life.
pub proof fn law_timeouts_spare_what_is_held_down(slots: Slots, now: Instant, from: int, i: int)
    requires
        slots_valid(slots),
        phases_follow_producers(slots),
        0 <= from,
        0 <= i < slots.len(),
        slots[i] matches Some(entry) && (entry.effect matches Some(effect) && any_producer(
            effect.producers,
        )),
    ensures
        sweep_on_timeout(slots, now, from).0[i] is Some,
        sweep_on_timeout(slots, now, from).0[i]->0.effect == slots[i]->0.effect,
{
    law_timeouts_end_only_what_is_due(slots, now, from);
    assert(slots[i]->0.phase_follows_producers());
}

} // verus!
