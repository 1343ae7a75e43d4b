//! What the keys of sticky keys and foreign keys bring about, in terms of what can be seen before
//! and after and of what the rest of the keyboard is asked to do.

use vstd::prelude::*;

use crate::action::Action;
use crate::config::StickyKeyShape;
use crate::entry::{Entry, StickyPhase};
use crate::event::KeyboardEvent;
use crate::lifecycle_laws::{
    law_emptied_slots_are_told_of, law_producers_leave_their_first_slot,
    law_producers_take_the_first_free_slot, law_releases_end_or_latch,
};
use crate::machine::{
    after_action, before_action, check_layer, choose_tap_key, due_after_action, insert_layer,
    layer_effect, layers_used_up, modifier_effect, modifier_used_up, press_modifier, press_tap_key,
    producer_released, released_any, slots_after_key, sweep_for_tap_key, tap_key_effect, used_up,
    After, Continuation, LayerPress, ModifierPress, Request, Step, StickyKeyPostAction, TapKeyPress,
};
use crate::modifier::ModifierCombination;
use crate::observed::{
    all_taken, another_holds, asks_only, began, changed_at, counts_layers, ends_effect,
    ends_on_release, free_at, holds_layer, holds_modifiers, holds_tap_key, is_modifier_action,
    is_second_tap, key_is_down, law_modifiers_are_sets, layer_at, lemma_kinds, lemma_released_slot,
    lemma_the_end, modifiers_at, names, names_other_key, no_layer, no_modifiers, no_tap_key,
    pressed_anew, same_but_timing, span_end, tap_key_at, tells_host, the_end, threshold_passed,
};
use crate::producer_laws::{
    law_effective_modifiers_have_an_owner, lemma_union_of_none, some_producer_holds,
};
use crate::producers::{ModifierProducer, ModifierProducerRelease, MAX_STICKY_MODIFIER_PRODUCERS};
use crate::report_laws::law_entries_go_into_the_first_free_slot;
use crate::search::{lemma_first_where_is, lemma_first_where_none};
use crate::state::{has_shape, slots_valid, Slots};

verus! {

/// Taking an entry out of a slot ends its effect, and that is the end; an empty slot asks for
/// nothing.
pub proof fn law_released_entries_end_their_effect(slots: Slots, slot: int)
    requires
        slots_valid(slots),
        0 <= slot < slots.len(),
    ensures
        ({
            let (after, step) = released_any(slots, slot);
            &&& changed_at(slots, after, slot)
            &&& after[slot] is None
            &&& slots[slot] is None ==> step is Done
            &&& slots[slot] matches Some(entry) ==> ends_effect(entry, step, the_end())
        }),
{
    lemma_the_end();
    if slots[slot] is Some {
        lemma_released_slot(slots, slot, After::Return, the_end());
    }
}

/// Whether the host is told at once, as the policy of a press says, and that is the end.
pub open spec fn tells_at_once(step: Step, told: bool) -> bool {
    if told {
        asks_only(step, Request::SendReport { pressed: true })
    } else {
        step is Done
    }
}

/// A modifier key that goes down first makes a tap key give way, and is then held.
pub proof fn law_modifier_keys_replace_a_tap_key(
    slots: Slots,
    keys_down: bool,
    press: ModifierPress,
    slot: int,
)
    requires
        slots_valid(slots),
        press.event.pressed,
    ensures
        tap_key_at(slots, slot) ==> {
            let (after, step) = modifier_effect(slots, keys_down, press);
            &&& after[slot] is None
            &&& changed_at(slots, after, slot)
            &&& ends_effect(slots[slot]->0, step, |later: Slots| press_modifier(later, press))
        },
        no_tap_key(slots) ==> modifier_effect(slots, keys_down, press) == press_modifier(slots, press),
{
    lemma_kinds(slots, slot);
    if tap_key_at(slots, slot) {
        lemma_released_slot(
            slots,
            slot,
            After::PressModifier(press),
            |later: Slots| press_modifier(later, press),
        );
    }
}

/// A modifier key that goes down while no modifiers are held is a first press of its own, in the
/// first free slot, held by that one producer; the host is told at once exactly where the policy
/// says so. Without a free slot nothing happens.
pub proof fn law_modifier_keys_start_an_entry(slots: Slots, press: ModifierPress, slot: int)
    requires
        slots_valid(slots),
        no_modifiers(slots),
    ensures
        free_at(slots, slot) ==> {
            let (after, step) = press_modifier(slots, press);
            &&& changed_at(slots, after, slot)
            &&& tells_at_once(step, press.policy.activate_on_keypress)
            &&& after[slot] matches Some(entry) && {
                &&& pressed_anew(
                    entry,
                    press.event.pos,
                    press.policy,
                    press.event_time.ticks as int,
                    press.event_time.ticks as int,
                )
                &&& entry.action == Action::Modifier(press.modifiers)
                &&& entry.repeat_count == 1
                &&& entry.effect matches Some(effect) && {
                    &&& effect.retained.bits == 0
                    &&& effect.producers.len() == MAX_STICKY_MODIFIER_PRODUCERS
                    &&& effect.producers[0] == Some(
                        ModifierProducer {
                            source: press.producer_source,
                            modifiers: press.modifiers,
                        },
                    )
                    &&& forall|i: int|
                        0 < i < effect.producers.len() ==> #[trigger] effect.producers[i] is None
                }
            }
        },
        all_taken(slots) ==> press_modifier(slots, press) == (slots, Step::Done),
{
    lemma_kinds(slots, slot);
    lemma_the_end();
    law_entries_go_into_the_first_free_slot(slots, press.entry(), slot);
}

/// A modifier key that goes down while modifiers are held joins them: its producer takes the first
/// free place, the entry then holds a modifier exactly where it did or the key does, and the press
/// counts from the first press of the chord. A second tap that the policy names releases the entry
/// instead, and without a free place nothing happens.
pub proof fn law_modifier_keys_join_an_entry(
    slots: Slots,
    press: ModifierPress,
    slot: int,
    free: int,
    position: u8,
)
    requires
        slots_valid(slots),
        modifiers_at(slots, slot),
        position < 8,
    ensures
        ({
            let (after, step) = press_modifier(slots, press);
            let entry = slots[slot]->0;
            let producers = entry.effect->0.producers;
            let now = press.event_time.ticks as int;
            &&& changed_at(slots, after, slot)
            &&& is_second_tap(entry, press.event.pos, press.policy) ==> {
                &&& after[slot] is None
                &&& ends_effect(entry, step, the_end())
            }
            &&& !is_second_tap(entry, press.event.pos, press.policy) && (forall|i: int|
                0 <= i < producers.len() ==> #[trigger] producers[i] is Some) ==> {
                &&& after == slots
                &&& step is Done
            }
            &&& !is_second_tap(entry, press.event.pos, press.policy) && 0 <= free < producers.len()
                && producers[free] is None && (forall|i: int|
                0 <= i < free ==> #[trigger] producers[i] is Some) ==> {
                &&& tells_at_once(step, press.policy.activate_on_keypress)
                &&& after[slot] matches Some(joined) && {
                    &&& pressed_anew(
                        joined,
                        press.event.pos,
                        press.policy,
                        began(entry, now),
                        now,
                    )
                    &&& joined.repeat_count == entry.repeat_count
                    &&& joined.effect matches Some(effect) && {
                        &&& effect.retained == entry.effect->0.retained
                        &&& effect.producers == producers.update(
                            free,
                            Some(
                                ModifierProducer {
                                    source: press.producer_source,
                                    modifiers: press.modifiers,
                                },
                            ),
                        )
                    }
                    &&& joined.action matches Action::Modifier(modifiers) && (modifiers.holds(
                        position,
                    ) <==> (entry.action->Modifier_0.holds(position) || press.modifiers.holds(
                        position,
                    )))
                }
            }
        }),
{
    lemma_kinds(slots, slot);
    lemma_the_end();
    let entry = slots[slot]->0;
    let effect = entry.effect->0;
    let producer = press.producer();
    lemma_released_slot(slots, slot, After::Return, the_end());
    law_producers_take_the_first_free_slot(effect, producer, free);
    law_effective_modifiers_have_an_owner(effect, position);
    let joined = effect.pressed(producer);
    law_effective_modifiers_have_an_owner(joined, position);
    if 0 <= free < effect.producers.len() && effect.producers[free] is None && (forall|i: int|
        0 <= i < free ==> #[trigger] effect.producers[i] is Some) {
        assert(joined.producers[free] == Some(producer));
        if some_producer_holds(effect.producers, position) {
            let i = choose|i: int|
                0 <= i < effect.producers.len() && (#[trigger] effect.producers[i] matches Some(other)
                    && other.modifiers.holds(position));
            assert(joined.producers[i] == effect.producers[i]);
        }
        if some_producer_holds(joined.producers, position) {
            let i = choose|i: int|
                0 <= i < joined.producers.len() && (#[trigger] joined.producers[i] matches Some(other)
                    && other.modifiers.holds(position));
            assert(i != free ==> effect.producers[i] == joined.producers[i]);
        }
    }
}

/// A producer of a modifier entry that goes up while another one is still down leaves the entry in
/// its slot, pressed or held as it was, whether or not other physical keys are down. A modifier
/// stays in effect exactly where it is retained or another producer holds it, and the host is told
/// of the change from what was in effect to just that.
pub proof fn law_producers_go_up_one_by_one(
    slots: Slots,
    keys_down: bool,
    press: ModifierPress,
    slot: int,
    gone: int,
    other: int,
    position: u8,
)
    requires
        slots_valid(slots),
        !press.event.pressed,
        modifiers_at(slots, slot),
        0 <= gone < slots[slot]->0.effect->0.producers.len(),
        slots[slot]->0.effect->0.producers[gone] == Some(
            ModifierProducer { source: press.producer_source, modifiers: press.modifiers },
        ),
        forall|i: int|
            0 <= i < gone ==> #[trigger] slots[slot]->0.effect->0.producers[i] != Some(
                ModifierProducer { source: press.producer_source, modifiers: press.modifiers },
            ),
        0 <= other < slots[slot]->0.effect->0.producers.len(),
        other != gone,
        slots[slot]->0.effect->0.producers[other] is Some,
        position < 8,
    ensures
        ({
            let (after, step) = modifier_effect(slots, keys_down, press);
            let entry = slots[slot]->0;
            let effect = entry.effect->0;
            &&& changed_at(slots, after, slot)
            &&& after[slot] matches Some(left) && {
                &&& left.phase == entry.phase
                &&& left.timing_marker == entry.timing_marker
                &&& left.source == entry.source
                &&& left.policy == entry.policy
                &&& left.buffered_claim == entry.buffered_claim
                &&& left.repeat_count == entry.repeat_count
                &&& left.effect matches Some(owners) && owners.retained == effect.retained
                    && owners.producers == effect.producers.update(gone, None)
                &&& left.action matches Action::Modifier(modifiers) && {
                    &&& modifiers.holds(position) <==> (effect.retained.holds(position)
                        || another_holds(effect.producers, gone, position))
                    &&& tells_host(step, entry.action->Modifier_0, modifiers)
                }
            }
        }),
{
    lemma_kinds(slots, slot);
    lemma_the_end();
    let entry = slots[slot]->0;
    let effect = entry.effect->0;
    let producer = press.producer();
    law_producers_leave_their_first_slot(effect, producer, gone);
    law_emptied_slots_are_told_of(effect, gone, position);
}

/// The last producer of a modifier entry that goes up while another physical key is down ends the
/// effect, and so does its release after a use or after the threshold. Otherwise the entry latches:
/// what was retained and what the producer held stay in effect with no producer down, and the
/// timeout runs. The host is told of the change either way.
pub proof fn law_last_producers_end_or_latch(
    slots: Slots,
    keys_down: bool,
    press: ModifierPress,
    slot: int,
    gone: int,
)
    requires
        slots_valid(slots),
        !press.event.pressed,
        modifiers_at(slots, slot),
        slots[slot]->0.phase != StickyPhase::Latched,
        0 <= gone < slots[slot]->0.effect->0.producers.len(),
        slots[slot]->0.effect->0.producers[gone] == Some(
            ModifierProducer { source: press.producer_source, modifiers: press.modifiers },
        ),
        forall|i: int|
            0 <= i < slots[slot]->0.effect->0.producers.len() && i != gone
                ==> #[trigger] slots[slot]->0.effect->0.producers[i] is None,
    ensures
        ({
            let (after, step) = modifier_effect(slots, keys_down, press);
            let entry = slots[slot]->0;
            let effect = entry.effect->0;
            let now = press.event_time.ticks as int;
            &&& changed_at(slots, after, slot)
            &&& if keys_down || ends_on_release(entry, now) {
                &&& after[slot] is None
                &&& tells_host(
                    step,
                    entry.action->Modifier_0,
                    ModifierCombination { bits: 0 },
                )
            } else {
                after[slot] matches Some(latched) && {
                    &&& latched.phase == StickyPhase::Latched
                    &&& latched.timing_marker == span_end(now, entry.policy.timeout)
                    &&& latched.source == entry.source
                    &&& latched.policy == entry.policy
                    &&& latched.buffered_claim == entry.buffered_claim
                    &&& latched.repeat_count == entry.repeat_count
                    &&& latched.effect matches Some(owners) && {
                        &&& owners.retained.bits == effect.retained.bits | press.modifiers.bits
                        &&& forall|i: int|
                            0 <= i < owners.producers.len() ==> #[trigger] owners.producers[i] is None
                        &&& latched.action == Action::Modifier(owners.retained)
                        &&& tells_host(step, entry.action->Modifier_0, owners.retained)
                    }
                }
            }
        }),
{
    lemma_kinds(slots, slot);
    lemma_the_end();
    let entry = slots[slot]->0;
    let effect = entry.effect->0;
    let producer = press.producer();
    law_producers_leave_their_first_slot(effect, producer, gone);
    law_emptied_slots_are_told_of(effect, gone, 0);
    let up = entry.without_producer(producer);
    law_releases_end_or_latch(up, None, press.event_time.ticks as int);
    let empty = effect.released(producer);
    assert forall|i: int| 0 <= i < empty.producers.len() implies #[trigger] empty.producers[i] is None by {
        assert(i != gone ==> effect.producers[i] is None);
    }
    lemma_union_of_none(
        empty.producers,
        empty.retained | press.modifiers,
    );
}

/// The release of modifiers while none are held, or by a producer that is not down, does nothing.
pub proof fn law_foreign_producers_release_nothing(
    slots: Slots,
    keys_down: bool,
    press: ModifierPress,
    slot: int,
)
    requires
        slots_valid(slots),
        !press.event.pressed,
        no_modifiers(slots) || (modifiers_at(slots, slot) && forall|i: int|
            0 <= i < slots[slot]->0.effect->0.producers.len()
                ==> #[trigger] slots[slot]->0.effect->0.producers[i] != Some(
                ModifierProducer { source: press.producer_source, modifiers: press.modifiers },
            )),
    ensures
        modifier_effect(slots, keys_down, press) == (slots, Step::Done),
{
    lemma_kinds(slots, slot);
    if modifiers_at(slots, slot) {
        let producer = press.producer();
        lemma_first_where_none(
            slots[slot]->0.effect->0.producers,
            0,
            |taken: Option<ModifierProducer>| taken == Some(producer),
        );
        assert(slots.update(slot, Some(slots[slot]->0)) =~= slots);
    }
}

/// What comes of a producer that was taken out: while others remain the slots stay as they are and
/// the host is told just what changed, whatever else is down. Of a release that found no producer
/// nothing comes.
pub proof fn law_taken_out_producers_are_told_of(
    slots: Slots,
    keys_down: bool,
    slot: int,
    removed: ModifierProducer,
    old_effective: ModifierCombination,
    new_effective: ModifierCombination,
    now: int,
    position: u8,
)
    requires
        slots_valid(slots),
        position < 8,
    ensures
        producer_released(slots, keys_down, slot, ModifierProducerRelease::Unmatched, now) == (
            slots,
            Step::Done,
        ),
        ({
            let (after, step) = producer_released(
                slots,
                keys_down,
                slot,
                ModifierProducerRelease::Released {
                    removed,
                    old_effective,
                    new_effective,
                    producers_remain: true,
                },
                now,
            );
            &&& after == slots
            &&& tells_host(step, old_effective, new_effective)
        }),
        0 <= slot < slots.len() && holds_modifiers(slots[slot]) && slots[slot]->0.phase
            != StickyPhase::Latched ==> {
            let (after, step) = producer_released(
                slots,
                keys_down,
                slot,
                ModifierProducerRelease::Released {
                    removed,
                    old_effective,
                    new_effective,
                    producers_remain: false,
                },
                now,
            );
            let entry = slots[slot]->0;
            &&& changed_at(slots, after, slot)
            &&& if keys_down || ends_on_release(entry, now) {
                &&& after[slot] is None
                &&& tells_host(step, old_effective, ModifierCombination { bits: 0 })
            } else {
                after[slot] matches Some(latched) && {
                    &&& latched.phase == StickyPhase::Latched
                    &&& latched.timing_marker == span_end(now, entry.policy.timeout)
                    &&& latched.source == entry.source
                    &&& latched.policy == entry.policy
                    &&& latched.buffered_claim == entry.buffered_claim
                    &&& latched.repeat_count == entry.repeat_count
                    &&& latched.effect matches Some(owners) && owners.producers
                        == entry.effect->0.producers && owners.retained.bits
                        == entry.effect->0.retained.bits | removed.modifiers.bits
                    &&& latched.action matches Action::Modifier(modifiers) && {
                        &&& tells_host(step, old_effective, modifiers)
                        &&& modifiers.holds(position) <==> (entry.effect->0.retained.holds(position)
                            || removed.modifiers.holds(position) || some_producer_holds(
                            entry.effect->0.producers,
                            position,
                        ))
                    }
                }
            }
        },
{
    lemma_the_end();
    if 0 <= slot < slots.len() && slots[slot] is Some {
        let entry = slots[slot]->0;
        law_releases_end_or_latch(entry, None, now);
        law_effective_modifiers_have_an_owner(
            entry.effect->0.retaining(removed.modifiers),
            position,
        );
        law_modifiers_are_sets(entry.effect->0.retained, removed.modifiers, position);
    }
}

/// A layer key that goes down first makes a tap key give way, and then asks how many layers there
/// are.
pub proof fn law_layer_keys_replace_a_tap_key(slots: Slots, press: LayerPress, slot: int)
    requires
        slots_valid(slots),
        press.event.pressed,
    ensures
        tap_key_at(slots, slot) ==> {
            let (after, step) = layer_effect(slots, press);
            &&& after[slot] is None
            &&& changed_at(slots, after, slot)
            &&& exists|asks: Step| #[trigger]
                counts_layers(asks, press) && ends_effect(
                    slots[slot]->0,
                    step,
                    |later: Slots| (later, asks),
                )
        },
        no_tap_key(slots) ==> {
            let (after, step) = layer_effect(slots, press);
            &&& after == slots
            &&& counts_layers(step, press)
        },
{
    lemma_kinds(slots, slot);
    let asks = Step::Call {
        request: Request::LayerCount,
        then: Continuation::LayerCount(press),
    };
    assert(counts_layers(asks, press));
    if tap_key_at(slots, slot) {
        lemma_released_slot(
            slots,
            slot,
            After::CheckLayer(press),
            |later: Slots| (later, asks),
        );
    }
}

/// A new layer is held in the first free slot as a first press of its key, and activated. Without a
/// free slot nothing happens.
pub proof fn law_layer_keys_start_an_entry(slots: Slots, press: LayerPress, slot: int)
    ensures
        free_at(slots, slot) ==> {
            let (after, step) = insert_layer(slots, press);
            &&& changed_at(slots, after, slot)
            &&& asks_only(step, Request::ActivateLayer { layer: press.layer })
            &&& after[slot] matches Some(entry) && {
                &&& pressed_anew(
                    entry,
                    press.event.pos,
                    press.policy,
                    press.event_time.ticks as int,
                    press.event_time.ticks as int,
                )
                &&& entry.action == Action::LayerOn(press.layer)
                &&& entry.repeat_count == 1
                &&& entry.effect is None
            }
        },
        all_taken(slots) ==> insert_layer(slots, press) == (slots, Step::Done),
{
    lemma_the_end();
    law_entries_go_into_the_first_free_slot(slots, press.entry(), slot);
}

/// A layer key that goes down, with the number of layers known. A layer that does not exist is only
/// complained about. While no layer is held the layer is held anew. A second tap, which is a press
/// of the same key while the layer is latched and under a policy that has the bit of it, releases
/// the layer that is held; any other press of that layer holds it on, pressed anew and activated
/// again. Another layer makes way, and the new one is then held.
pub proof fn law_layer_keys_hold_replace_or_release(
    slots: Slots,
    press: LayerPress,
    layers: int,
    slot: int,
)
    requires
        slots_valid(slots),
    ensures
        press.layer >= layers ==> {
            &&& check_layer(slots, press, layers).0 == slots
            &&& asks_only(
                check_layer(slots, press, layers).1,
                Request::ActivateLayer { layer: press.layer },
            )
        },
        press.layer < layers && no_layer(slots) ==> check_layer(slots, press, layers) == insert_layer(
            slots,
            press,
        ),
        press.layer < layers && layer_at(slots, slot) ==> {
            let (after, step) = check_layer(slots, press, layers);
            let entry = slots[slot]->0;
            &&& changed_at(slots, after, slot)
            &&& if is_second_tap(entry, press.event.pos, press.policy) {
                &&& after[slot] is None
                &&& ends_effect(entry, step, the_end())
            } else if entry.action == Action::LayerOn(press.layer) {
                &&& asks_only(step, Request::ActivateLayer { layer: press.layer })
                &&& after[slot] matches Some(pressed) && {
                    &&& pressed_anew(
                        pressed,
                        press.event.pos,
                        press.policy,
                        press.event_time.ticks as int,
                        press.event_time.ticks as int,
                    )
                    &&& pressed.action == entry.action
                    &&& pressed.effect == entry.effect
                    &&& pressed.repeat_count == entry.repeat_count
                }
            } else {
                &&& after[slot] is None
                &&& ends_effect(entry, step, |later: Slots| insert_layer(later, press))
            }
        },
{
    lemma_kinds(slots, slot);
    lemma_the_end();
    if layer_at(slots, slot) {
        lemma_released_slot(slots, slot, After::Return, the_end());
        lemma_released_slot(
            slots,
            slot,
            After::InsertLayer(press),
            |later: Slots| insert_layer(later, press),
        );
    }
}

/// A layer key that goes up: the layer of another key, and one that is latched, stay as they are. A
/// press that was used, or whose threshold has passed, ends with it and the layer is deactivated.
/// Any other press latches, its timeout runs, and nothing is asked for.
pub proof fn law_layer_keys_end_or_latch(slots: Slots, press: LayerPress, slot: int)
    requires
        slots_valid(slots),
        !press.event.pressed,
    ensures
        no_layer(slots) ==> layer_effect(slots, press) == (slots, Step::Done),
        layer_at(slots, slot) ==> {
            let (after, step) = layer_effect(slots, press);
            let entry = slots[slot]->0;
            let now = press.event_time.ticks as int;
            &&& changed_at(slots, after, slot)
            &&& if entry.source != press.event.pos || entry.phase == StickyPhase::Latched {
                &&& after[slot] == slots[slot]
                &&& step is Done
            } else if ends_on_release(entry, now) {
                &&& after[slot] is None
                &&& ends_effect(entry, step, the_end())
            } else {
                &&& step is Done
                &&& after[slot] matches Some(latched) && {
                    &&& same_but_timing(entry, latched)
                    &&& latched.phase == StickyPhase::Latched
                    &&& latched.timing_marker == span_end(now, entry.policy.timeout)
                }
            }
        },
{
    lemma_kinds(slots, slot);
    lemma_the_end();
    if layer_at(slots, slot) {
        lemma_released_slot(slots, slot, After::Return, the_end());
        law_releases_end_or_latch(
            slots[slot]->0,
            Some(press.event.pos),
            press.event_time.ticks as int,
        );
    }
}

/// A tap key that goes down makes everything else give way, one slot after the other, before it
/// looks for a tap key.
pub proof fn law_tap_keys_make_others_give_way(slots: Slots, press: TapKeyPress, from: int, slot: int)
    requires
        slots_valid(slots),
        0 <= from,
    ensures
        from <= slot < slots.len() && slots[slot] is Some && !holds_tap_key(slots[slot]) && (forall|
            i: int,
        |
            from <= i < slot ==> (#[trigger] slots[i] is None || holds_tap_key(slots[i]))) ==> {
            let (after, step) = sweep_for_tap_key(slots, press, from);
            &&& after[slot] is None
            &&& changed_at(slots, after, slot)
            &&& ends_effect(
                slots[slot]->0,
                step,
                |later: Slots| sweep_for_tap_key(later, press, slot + 1),
            )
        },
        (forall|i: int|
            from <= i < slots.len() ==> (#[trigger] slots[i] is None || holds_tap_key(slots[i])))
            ==> sweep_for_tap_key(slots, press, from) == choose_tap_key(slots, press),
        press.event.pressed ==> tap_key_effect(slots, press) == sweep_for_tap_key(slots, press, 0),
{
    let other = |held: Option<Entry>|
        held is Some && !has_shape(held, StickyKeyShape::TapKey);
    assert forall|i: int| 0 <= i < slots.len() implies (other(#[trigger] slots[i]) <==> !(
    slots[i] is None || holds_tap_key(slots[i]))) by {}
    if from <= slot < slots.len() && slots[slot] is Some && !holds_tap_key(slots[slot]) && (forall|
        i: int,
    |
        from <= i < slot ==> (#[trigger] slots[i] is None || holds_tap_key(slots[i]))) {
        lemma_first_where_is(slots, from, other, slot);
        lemma_released_slot(
            slots,
            slot,
            After::SweepForTapKey { press, index: (slot + 1) as usize },
            |later: Slots| sweep_for_tap_key(later, press, slot + 1),
        );
    }
    if forall|i: int|
        from <= i < slots.len() ==> (#[trigger] slots[i] is None || holds_tap_key(slots[i])) {
        lemma_first_where_none(slots, from, other);
    }
}

/// A tap key that goes down while one is active: one of another key, or with another action, makes
/// way and the new one is then tapped; a second tap that the policy names releases it; otherwise it
/// is tapped once more.
pub proof fn law_tap_keys_repeat_replace_or_release(slots: Slots, press: TapKeyPress, slot: int)
    requires
        slots_valid(slots),
    ensures
        no_tap_key(slots) ==> choose_tap_key(slots, press) == press_tap_key(slots, press),
        tap_key_at(slots, slot) ==> {
            let (after, step) = choose_tap_key(slots, press);
            let entry = slots[slot]->0;
            &&& changed_at(slots, after, slot)
            &&& if entry.source != press.event.pos || entry.action != Action::KeyWithModifier(
                press.key,
                press.modifiers,
            ) {
                &&& after[slot] is None
                &&& ends_effect(entry, step, |later: Slots| press_tap_key(later, press))
            } else if is_second_tap(entry, press.event.pos, press.policy) {
                &&& after[slot] is None
                &&& ends_effect(entry, step, the_end())
            } else {
                (after, step) == press_tap_key(slots, press)
            }
        },
{
    lemma_kinds(slots, slot);
    lemma_the_end();
    if tap_key_at(slots, slot) {
        lemma_released_slot(slots, slot, After::Return, the_end());
        lemma_released_slot(
            slots,
            slot,
            After::PressTapKey(press),
            |later: Slots| press_tap_key(later, press),
        );
        law_taps_press_the_key_or_wear_out(slots, press, slot);
    }
}

/// A tap. Where no tap key is active it becomes active in the first free slot as a first press. An
/// active one counts the tap, as far as it can count, and is released where that is more than the
/// policy allows. Otherwise it is in the state of a press at that time under that policy. Every tap
/// that goes through presses the key.
pub proof fn law_taps_press_the_key_or_wear_out(slots: Slots, press: TapKeyPress, slot: int)
    requires
        slots_valid(slots),
    ensures
        no_tap_key(slots) && free_at(slots, slot) ==> {
            let (after, step) = press_tap_key(slots, press);
            &&& changed_at(slots, after, slot)
            &&& asks_only(step, Request::ProcessKey { key: press.key, event: press.event })
            &&& after[slot] matches Some(entry) && {
                &&& pressed_anew(
                    entry,
                    press.event.pos,
                    press.policy,
                    press.event_time.ticks as int,
                    press.event_time.ticks as int,
                )
                &&& entry.action == Action::KeyWithModifier(press.key, press.modifiers)
                &&& entry.repeat_count == 1
                &&& entry.effect is None
            }
        },
        no_tap_key(slots) && all_taken(slots) ==> press_tap_key(slots, press) == (slots, Step::Done),
        tap_key_at(slots, slot) ==> {
            let (after, step) = press_tap_key(slots, press);
            let entry = slots[slot]->0;
            let taps = if entry.repeat_count < 65535 {
                entry.repeat_count + 1
            } else {
                entry.repeat_count
            };
            &&& changed_at(slots, after, slot)
            &&& if press.policy.max_repeat != 0 && taps > press.policy.max_repeat {
                &&& after[slot] is None
                &&& ends_effect(entry, step, the_end())
            } else {
                &&& asks_only(step, Request::ProcessKey { key: press.key, event: press.event })
                &&& after[slot] matches Some(pressed) && {
                    &&& pressed_anew(
                        pressed,
                        press.event.pos,
                        press.policy,
                        press.event_time.ticks as int,
                        press.event_time.ticks as int,
                    )
                    &&& pressed.action == entry.action
                    &&& pressed.effect == entry.effect
                    &&& pressed.repeat_count == taps
                }
            }
        },
{
    lemma_kinds(slots, slot);
    lemma_the_end();
    law_entries_go_into_the_first_free_slot(slots, press.entry(), slot);
    if tap_key_at(slots, slot) {
        lemma_released_slot(slots, slot, After::Return, the_end());
    }
}

/// A tap key that goes up: where it is the key that is down, the key is released; its tap key then
/// latches and its timeout runs, or counts as held where its threshold has passed. A key that is not
/// down, and the key of another position, release nothing.
pub proof fn law_tap_keys_go_up_where_they_are_down(slots: Slots, press: TapKeyPress, slot: int)
    requires
        slots_valid(slots),
        !press.event.pressed,
    ensures
        no_tap_key(slots) ==> tap_key_effect(slots, press) == (slots, Step::Done),
        tap_key_at(slots, slot) ==> {
            let (after, step) = tap_key_effect(slots, press);
            let entry = slots[slot]->0;
            let now = press.event_time.ticks as int;
            &&& changed_at(slots, after, slot)
            &&& if entry.source == press.event.pos && key_is_down(entry) {
                &&& asks_only(step, Request::ProcessKey { key: press.key, event: press.event })
                &&& after[slot] matches Some(up) && {
                    &&& same_but_timing(entry, up)
                    &&& if threshold_passed(entry, now) {
                        up.phase == StickyPhase::HoldQualified && up.timing_marker is None
                    } else {
                        up.phase == StickyPhase::Latched && up.timing_marker == span_end(
                            now,
                            entry.policy.timeout,
                        )
                    }
                }
            } else {
                &&& after[slot] == slots[slot]
                &&& step is Done
            }
        },
{
    lemma_kinds(slots, slot);
    lemma_the_end();
    if tap_key_at(slots, slot) {
        law_releases_end_or_latch(
            slots[slot]->0,
            Some(press.event.pos),
            press.event_time.ticks as int,
        );
    }
}

/// Every tap that goes through is a whole tap, however often the key was tapped before: the release
/// of the same key lets the key go up, and before the threshold latches the tap key anew, with the
/// timeout counted from that release.
pub proof fn law_further_taps_are_whole_taps(
    slots: Slots,
    press: TapKeyPress,
    release: TapKeyPress,
    slot: int,
)
    requires
        slots_valid(slots),
        tap_key_at(slots, slot),
        press.event.pressed,
        press.policy.max_repeat == 0 || slots[slot]->0.repeat_count < press.policy.max_repeat,
        slots[slot]->0.repeat_count < 65535,
        press.policy.release_after_hold.threshold matches Some(threshold) ==> threshold.ticks > 0,
        press.policy.hold_fits(press.event_time@),
        !release.event.pressed,
        release.event.pos == press.event.pos,
        release.key == press.key,
    ensures
        ({
            let (down, tap) = press_tap_key(slots, press);
            let (up, untap) = tap_key_effect(down, release);
            let now = release.event_time.ticks as int;
            let late = press.policy.release_after_hold.threshold matches Some(threshold)
                && threshold.ticks < u64::MAX && press.event_time.ticks + threshold.ticks <= now;
            &&& asks_only(tap, Request::ProcessKey { key: press.key, event: press.event })
            &&& asks_only(
                untap,
                Request::ProcessKey {
                    key: press.key,
                    event: KeyboardEvent { pressed: false, pos: press.event.pos },
                },
            )
            &&& up[slot] is Some
            &&& up[slot]->0.action == slots[slot]->0.action
            &&& !late ==> up[slot]->0.phase == StickyPhase::Latched && up[slot]->0.timing_marker
                == span_end(now, press.policy.timeout)
            &&& late ==> up[slot]->0.phase == StickyPhase::HoldQualified
        }),
{
    law_taps_press_the_key_or_wear_out(slots, press, slot);
    let down = press_tap_key(slots, press).0;
    assert(tap_key_at(down, slot)) by {
        assert forall|i: int| 0 <= i < slot implies !holds_tap_key(#[trigger] down[i]) by {
            assert(down[i] == slots[i]);
        }
    }
    assert(slots_valid(down)) by {
        let entry = slots[slot]->0;
        assert(down[slot]->0.valid());
    }
    law_tap_keys_go_up_where_they_are_down(down, release, slot);
}

/// A foreign action that is no modifier, on an event that the tap key's policy has the bit of, takes
/// the tap key out in whatever phase it is: before the action of a key that goes down, and after
/// that of a key that goes up. Its own key then goes up where that is still to come, and a report
/// without its modifiers is sent otherwise. Any other action leaves it alone.
pub proof fn law_foreign_actions_release_a_tap_key(
    slots: Slots,
    action: Action,
    event: KeyboardEvent,
    slot: int,
)
    requires
        slots_valid(slots),
    ensures
        no_tap_key(slots) ==> {
            &&& before_action(slots, action, event) == (slots, Step::Done)
            &&& due_after_action(slots, action, event) == StickyKeyPostAction::Nothing
            &&& after_action(slots, StickyKeyPostAction::Release) == (slots, Step::Done)
        },
        after_action(slots, StickyKeyPostAction::Nothing) == (slots, Step::Done),
        tap_key_at(slots, slot) ==> {
            let (before, first) = before_action(slots, action, event);
            let (after, afterwards) = after_action(slots, StickyKeyPostAction::Release);
            let entry = slots[slot]->0;
            let goes = !is_modifier_action(action) && names_other_key(
                entry.policy.release_mode,
                event.pressed,
            );
            &&& if goes && event.pressed {
                &&& before[slot] is None
                &&& changed_at(slots, before, slot)
                &&& ends_effect(entry, first, the_end())
            } else {
                before == slots && first is Done
            }
            &&& due_after_action(slots, action, event) == StickyKeyPostAction::Release <==> goes
                && !event.pressed
            &&& after[slot] is None
            &&& changed_at(slots, after, slot)
            &&& ends_effect(entry, afterwards, the_end())
        },
{
    lemma_kinds(slots, slot);
    lemma_the_end();
    if tap_key_at(slots, slot) {
        lemma_released_slot(slots, slot, After::Return, the_end());
    }
}

/// A foreign key, slot by slot. A tap key stays as it is. A latch is used up exactly where its
/// policy has the bit of the event, and stays as it is otherwise. What is still down is held from
/// the press of the foreign key on, and a release leaves it as it was.
pub proof fn law_foreign_keys_slot_by_slot(slots: Slots, pressed: bool, i: int, now: int)
    requires
        slots_valid(slots),
        0 <= i < slots.len(),
    ensures
        ({
            let after = slots_after_key(slots, pressed);
            &&& after.len() == slots.len()
            &&& slots[i] is None ==> after[i] is None
            &&& slots[i] matches Some(entry) ==> if holds_tap_key(slots[i]) {
                after[i] == slots[i]
            } else if entry.phase == StickyPhase::Latched {
                if names_other_key(entry.policy.release_mode, pressed) {
                    after[i] is None
                } else {
                    after[i] == slots[i]
                }
            } else if pressed && entry.phase != StickyPhase::Held {
                after[i] matches Some(held) && {
                    &&& same_but_timing(entry, held)
                    &&& held.phase == StickyPhase::Held
                    &&& entry.timing_marker is Some ==> held.timing_marker == Some(began(entry, now))
                }
            } else {
                after[i] == slots[i]
            }
        }),
{
}

/// A foreign key says of itself what it used up: modifiers where a slot of them went, and the layer
/// of every slot of a layer that went.
pub proof fn law_foreign_keys_tell_what_they_used_up(slots: Slots, pressed: bool, i: int)
    requires
        slots_valid(slots),
        0 <= i < slots.len(),
    ensures
        modifier_used_up(slots, pressed) <==> exists|j: int|
            0 <= j < slots.len() && holds_modifiers(#[trigger] slots[j]) && slots_after_key(
                slots,
                pressed,
            )[j] is None,
        layers_used_up(slots, pressed).len() == slots.len(),
        layers_used_up(slots, pressed)[i] == if holds_layer(slots[i]) && slots_after_key(
            slots,
            pressed,
        )[i] is None {
            Some(slots[i]->0.action->LayerOn_0)
        } else {
            None
        },
{
    let after = slots_after_key(slots, pressed);
    assert forall|j: int| 0 <= j < slots.len() implies (holds_modifiers(#[trigger] slots[j])
        && after[j] is None) == (used_up(slots[j], pressed) && has_shape(
        slots[j],
        StickyKeyShape::PureMod,
    )) by {}
}

} // verus!
