//! What sticky keys are for: the whole cycle of each kind, from the press to the use.

use vstd::prelude::*;

use crate::action::Action;
use crate::config::{StickyKeyReleaseMode, StickyKeyShape};
use crate::entry::{lemma_single_effective, Entry, PhysicalRelease, StickyPhase};
use crate::entry_laws::law_modifier_tap_latches_its_modifiers;
use crate::event::KeyboardEvent;
use crate::keyboard_laws::{
    coherent, law_layer_press_takes_effect, law_modifier_press_takes_effect,
    law_tap_key_press_takes_effect, lemma_free_slot, lemma_shape_slot, none_of,
};
use crate::machine::{
    after_action, before_action, due_after_action, insert_layer, last, layer_effect, layers_used_up,
    modifier_effect, modifier_used_up, press_modifier, press_tap_key, released_any, slots_after_key,
    tap_key_effect, Continuation, LayerPress, ModifierPress, Request, Step, StickyKeyPostAction,
    TapKeyPress,
};
use crate::modifier::{lemma_union, ModifierCombination};
use crate::producer_laws::{
    law_release_removes_one_owner, lemma_union_of_none, lemma_union_with_empty_tail,
};
use crate::producers::{any_producer, ModifierEffect, ModifierProducer};
use crate::search::{lemma_first_where, lemma_first_where_is};
use crate::state::{
    free_slot, has_shape, reported_modifiers, shape_slot, slot_modifiers, slots_valid, Slots,
    MAX_ACTIVE_STICKY_KEYS,
};
use crate::time::Instant;

verus! {

/// The same key, going up at a given time.
pub open spec fn modifier_key_up(press: ModifierPress, at: Instant) -> ModifierPress {
    ModifierPress {
        event: KeyboardEvent { pressed: false, pos: press.event.pos },
        event_time: at,
        ..press
    }
}

/// The same key, going up at a given time.
pub open spec fn layer_key_up(press: LayerPress, at: Instant) -> LayerPress {
    LayerPress {
        event: KeyboardEvent { pressed: false, pos: press.event.pos },
        event_time: at,
        ..press
    }
}

/// The same key, going up at a given time.
pub open spec fn tap_key_up(press: TapKeyPress, at: Instant) -> TapKeyPress {
    TapKeyPress {
        event: KeyboardEvent { pressed: false, pos: press.event.pos },
        event_time: at,
        ..press
    }
}

/// Of two slots without a tap key, only the modifier entry adds to a report.
proof fn lemma_reported(slots: Slots, slot: int, pressed: bool)
    requires
        slots.len() == MAX_ACTIVE_STICKY_KEYS,
        0 <= slot < slots.len(),
        forall|i: int|
            0 <= i < slots.len() && i != slot ==> slot_modifiers(#[trigger] slots[i], pressed)
                == ModifierCombination::none(),
    ensures
        reported_modifiers(slots, pressed) == slot_modifiers(slots[slot], pressed),
{
    let one = slots.drop_last();
    let zero = one.drop_last();
    assert(zero.len() == 0);
    assert(one.last() == slots[0]);
    assert(slots.last() == slots[1]);
    assert(reported_modifiers(zero, pressed) == ModifierCombination::none());
    assert(reported_modifiers(one, pressed) == ModifierCombination::none() | slot_modifiers(
        slots[0],
        pressed,
    ));
    let m = slot_modifiers(slots[slot], pressed);
    lemma_union(m, m, m);
    lemma_union(ModifierCombination::none(), m, m);
    assert(slots[1 - slot] == slots[0] || slots[1 - slot] == slots[1]);
}

/// Where a new modifier entry goes, and what it is.
proof fn lemma_new_modifier_entry(slots: Slots, press: ModifierPress)
    requires
        slots_valid(slots),
        coherent(slots),
        none_of(slots, StickyKeyShape::TapKey),
        none_of(slots, StickyKeyShape::PureMod),
    ensures
        ({
            let down = press_modifier(slots, press).0;
            let slot = free_slot(slots)->0;
            &&& free_slot(slots) is Some
            &&& 0 <= slot < slots.len()
            &&& down == slots.update(slot, Some(press.entry()))
            &&& shape_slot(down, StickyKeyShape::PureMod) == Some(slot)
        }),
{
    lemma_shape_slot(slots, StickyKeyShape::PureMod);
    lemma_free_slot(slots);
    law_modifier_press_takes_effect(slots, press);
    let down = press_modifier(slots, press).0;
    lemma_shape_slot(down, StickyKeyShape::PureMod);
    if free_slot(slots) is None {
        assert(slots[0] is Some && slots[1] is Some);
    }
}

/// A modifier key that is tapped before its threshold, while no other key is down, arms its
/// modifiers for the next key: that key's press is reported with them although nothing holds them
/// down, and the event that the policy names uses them up. A layer that is held besides stays as
/// it was.
pub proof fn law_modifier_tap_arms_the_next_key(
    slots: Slots,
    press: ModifierPress,
    released_at: Instant,
    key_pressed: bool,
)
    requires
        slots_valid(slots),
        coherent(slots),
        none_of(slots, StickyKeyShape::TapKey),
        none_of(slots, StickyKeyShape::PureMod),
        press.event_time@ <= released_at@,
        press.policy.hold_deadline(press.event_time@) matches Some(deadline) ==> released_at@ < deadline,
    ensures
        ({
            let down = press_modifier(slots, press).0;
            let (up, step) = modifier_effect(down, false, modifier_key_up(press, released_at));
            let slot = free_slot(slots)->0;
            &&& down[slot]->0.modifiers() == press.modifiers
            &&& up[slot] is Some
            &&& up[slot]->0.phase == StickyPhase::Latched
            &&& up[slot]->0.modifiers() == press.modifiers
            &&& up[slot]->0.deadline() == press.policy.latch_deadline(released_at@)
            &&& !any_producer(up[slot]->0.effect->0.producers)
            &&& forall|i: int| 0 <= i < slots.len() && i != slot ==> #[trigger] up[i] == slots[i]
            &&& reported_modifiers(up, true) == press.modifiers
            &&& reported_modifiers(up, false) == ModifierCombination::none()
            &&& step == (Step::Call {
                request: Request::NonStickyModifiers,
                then: Continuation::LiveRelease {
                    old_effective: press.modifiers,
                    new_effective: press.modifiers,
                },
            })
            &&& slots_after_key(up, key_pressed)[slot] is None <==> press.policy.release_mode.meets(
                StickyKeyReleaseMode::of_other_key(key_pressed),
            )
            &&& modifier_used_up(up, key_pressed) <==> press.policy.release_mode.meets(
                StickyKeyReleaseMode::of_other_key(key_pressed),
            )
        }),
{
    lemma_new_modifier_entry(slots, press);
    let slot = free_slot(slots)->0;
    let down = press_modifier(slots, press).0;
    law_modifier_tap_latches_its_modifiers(
        press.modifiers,
        press.event.pos,
        press.policy,
        press.producer_source,
        press.event_time@,
        released_at@,
    );
    let entry = press.entry();
    let producer = press.producer();
    let effect = entry.effect->0;
    assert(effect.producers[0] == Some(producer));
    law_release_removes_one_owner(effect, producer);
    let empty = effect.released(producer);
    assert forall|i: int| 0 <= i < empty.producers.len() implies #[trigger] empty.producers[i] is None by {
        assert(i > 0 ==> empty.producers[i] == effect.producers[i]);
    }
    lemma_single_effective(producer);
    let (up, step) = modifier_effect(down, false, modifier_key_up(press, released_at));
    assert(modifier_key_up(press, released_at).producer() == producer);
    assert(effect.slot_of(producer) is Some) by {
        lemma_first_where_is(
            effect.producers,
            0,
            |taken: Option<ModifierProducer>| taken == Some(producer),
            0,
        );
    }
    let latched = entry.without_producer(producer).released(None, released_at@).retaining(
        press.modifiers,
    );
    assert(up[slot] == Some(latched));
    assert forall|i: int| 0 <= i < up.len() && i != slot implies slot_modifiers(
        #[trigger] up[i],
        true,
    ) == ModifierCombination::none() && slot_modifiers(up[i], false) == ModifierCombination::none() by {
        assert(up[i] == slots[i]);
    }
    lemma_reported(up, slot, true);
    lemma_reported(up, slot, false);
    assert(has_shape(up[slot], StickyKeyShape::PureMod));
    assert forall|i: int| 0 <= i < up.len() && i != slot implies !has_shape(
        #[trigger] up[i],
        StickyKeyShape::PureMod,
    ) by {
        assert(up[i] == slots[i]);
    }
}

/// The last producer of an unused chord that goes up before the threshold, while no other key is
/// down, latches what it held itself, on top of what was latched before; what other producers of
/// the chord held is gone.
pub proof fn law_last_release_latches_what_it_held(slots: Slots, press: ModifierPress, slot: int)
    requires
        slots_valid(slots),
        !press.event.pressed,
        shape_slot(slots, StickyKeyShape::PureMod) == Some(slot),
        slots[slot]->0.effect->0.producers.contains(Some(press.producer())),
        !any_producer(slots[slot]->0.effect->0.released(press.producer()).producers),
        slots[slot]->0.release_outcome(None, press.event_time@) == PhysicalRelease::Latched,
    ensures
        ({
            let entry = slots[slot]->0;
            let (up, step) = modifier_effect(slots, false, press);
            let latched = entry.effect->0.retained | press.modifiers;
            &&& up[slot] is Some
            &&& up[slot]->0.phase == StickyPhase::Latched
            &&& up[slot]->0.modifiers() == latched
            &&& up[slot]->0.deadline() == entry.policy.latch_deadline(press.event_time@)
            &&& !any_producer(up[slot]->0.effect->0.producers)
            &&& forall|i: int| 0 <= i < slots.len() && i != slot ==> #[trigger] up[i] == slots[i]
            &&& step == (Step::Call {
                request: Request::NonStickyModifiers,
                then: Continuation::LiveRelease {
                    old_effective: entry.modifiers(),
                    new_effective: latched,
                },
            })
        }),
{
    lemma_shape_slot(slots, StickyKeyShape::PureMod);
    let entry = slots[slot]->0;
    let effect = entry.effect->0;
    let producer = press.producer();
    law_release_removes_one_owner(effect, producer);
    let empty = effect.released(producer);
    lemma_union_of_none(empty.producers, empty.retained | press.modifiers);
    lemma_taken_slot(effect, producer);
}

/// A producer that is down has a slot.
proof fn lemma_taken_slot(effect: ModifierEffect, producer: ModifierProducer)
    requires
        effect.producers.contains(Some(producer)),
    ensures
        effect.slot_of(producer) is Some,
{
    let taken = |slot: Option<ModifierProducer>| slot == Some(producer);
    lemma_first_where(effect.producers, 0, taken);
    let i = choose|i: int|
        0 <= i < effect.producers.len() && effect.producers[i] == Some(producer);
    assert(taken(effect.producers[i]));
}

/// Modifier keys that are tapped one after the other add up: a tap on top of latched modifiers
/// leaves both latched.
pub proof fn law_modifier_taps_add_up(
    slots: Slots,
    press: ModifierPress,
    slot: int,
    released_at: Instant,
)
    requires
        slots_valid(slots),
        shape_slot(slots, StickyKeyShape::PureMod) == Some(slot),
        slots[slot]->0.phase == StickyPhase::Latched,
        slots[slot]->0.effect->0.producers.len() > 0,
        !any_producer(slots[slot]->0.effect->0.producers),
        !slots[slot]->0.double_tapped(press.event.pos, press.policy),
        press.event_time@ <= released_at@,
        press.policy.hold_deadline(press.event_time@) matches Some(deadline) ==> released_at@ < deadline,
    ensures
        ({
            let down = press_modifier(slots, press).0;
            let up = modifier_effect(down, false, modifier_key_up(press, released_at)).0;
            &&& down[slot]->0.modifiers() == slots[slot]->0.modifiers() | press.modifiers
            &&& up[slot] is Some
            &&& up[slot]->0.phase == StickyPhase::Latched
            &&& up[slot]->0.modifiers() == slots[slot]->0.modifiers() | press.modifiers
            &&& up[slot]->0.deadline() == press.policy.latch_deadline(released_at@)
        }),
{
    lemma_shape_slot(slots, StickyKeyShape::PureMod);
    let entry = slots[slot]->0;
    let effect = entry.effect->0;
    let producer = press.producer();
    assert(effect.producers[0] is None);
    lemma_first_where_is(
        effect.producers,
        0,
        |free: Option<ModifierProducer>| free is None,
        0,
    );
    let pressed = effect.pressed(producer);
    lemma_union_of_none(effect.producers, effect.retained);
    assert forall|i: int| 0 < i < pressed.producers.len() implies #[trigger] pressed.producers[i] is None by {
        assert(effect.producers[i] is None);
    }
    lemma_union_with_empty_tail(pressed.producers, pressed.retained);
    let down = press_modifier(slots, press).0;
    assert(has_shape(down[slot], StickyKeyShape::PureMod));
    assert forall|i: int| 0 <= i < slot implies !has_shape(#[trigger] down[i], StickyKeyShape::PureMod) by {
        lemma_first_where(
            slots,
            0,
            |held: Option<Entry>| has_shape(held, StickyKeyShape::PureMod),
        );
        assert(!has_shape(slots[i], StickyKeyShape::PureMod));
    }
    lemma_first_where_is(
        down,
        0,
        |held: Option<Entry>| has_shape(held, StickyKeyShape::PureMod),
        slot,
    );
    assert(pressed.producers[0] == Some(producer));
    lemma_first_where_is(
        pressed.producers,
        0,
        |taken: Option<ModifierProducer>| taken == Some(producer),
        0,
    );
    law_release_removes_one_owner(pressed, producer);
    let empty = pressed.released(producer);
    assert forall|i: int| 0 <= i < empty.producers.len() implies #[trigger] empty.producers[i] is None by {
        assert(i > 0 ==> empty.producers[i] == pressed.producers[i]);
    }
    assert(modifier_key_up(press, released_at).producer() == producer);
    assert(down[slot]->0.effect->0 == pressed);
    lemma_union_of_none(empty.producers, empty.retained | press.modifiers);
}

/// The release of a key that was down before the modifier key leaves the tap as it is: the modifier
/// key latches as though that key had never been down.
pub proof fn law_rolling_off_a_key_leaves_the_tap(
    slots: Slots,
    press: ModifierPress,
    released_at: Instant,
)
    requires
        slots_valid(slots),
        coherent(slots),
        none_of(slots, StickyKeyShape::TapKey),
        none_of(slots, StickyKeyShape::PureMod),
        press.event_time@ <= released_at@,
        press.policy.hold_deadline(press.event_time@) matches Some(deadline) ==> released_at@ < deadline,
    ensures
        ({
            let down = press_modifier(slots, press).0;
            let rolled = slots_after_key(down, false);
            let up = modifier_effect(rolled, false, modifier_key_up(press, released_at)).0;
            let slot = free_slot(slots)->0;
            &&& rolled[slot] == down[slot]
            &&& up[slot] is Some
            &&& up[slot] == modifier_effect(down, false, modifier_key_up(press, released_at)).0[slot]
            &&& up[slot]->0.phase == StickyPhase::Latched
            &&& up[slot]->0.modifiers() == press.modifiers
            &&& up[slot]->0.deadline() == press.policy.latch_deadline(released_at@)
        }),
{
    lemma_new_modifier_entry(slots, press);
    law_modifier_tap_arms_the_next_key(slots, press, released_at, false);
    let slot = free_slot(slots)->0;
    let down = press_modifier(slots, press).0;
    let rolled = slots_after_key(down, false);
    assert forall|i: int| 0 <= i < rolled.len() && i != slot implies !has_shape(
        #[trigger] rolled[i],
        StickyKeyShape::PureMod,
    ) by {
        assert(down[i] == slots[i]);
    }
    lemma_shape_slot(rolled, StickyKeyShape::PureMod);
    assert(shape_slot(rolled, StickyKeyShape::PureMod) == Some(slot));
}

/// A modifier key that is held while another key is pressed acts like an ordinary modifier: that
/// use does not end it, and its own release does, without leaving a latch.
pub proof fn law_modifier_hold_acts_like_a_modifier(
    slots: Slots,
    press: ModifierPress,
    released_at: Instant,
)
    requires
        slots_valid(slots),
        coherent(slots),
        none_of(slots, StickyKeyShape::TapKey),
        none_of(slots, StickyKeyShape::PureMod),
    ensures
        ({
            let used = slots_after_key(press_modifier(slots, press).0, true);
            let (up, step) = modifier_effect(used, false, modifier_key_up(press, released_at));
            let slot = free_slot(slots)->0;
            &&& used[slot] is Some
            &&& used[slot]->0.phase == StickyPhase::Held
            &&& used[slot]->0.modifiers() == press.modifiers
            &&& used[slot]->0.deadline() is None
            &&& slot_modifiers(used[slot], true) == press.modifiers
            &&& slot_modifiers(used[slot], false) == press.modifiers
            &&& up[slot] is None
            &&& step == (Step::Call {
                request: Request::NonStickyModifiers,
                then: Continuation::LiveRelease {
                    old_effective: press.modifiers,
                    new_effective: ModifierCombination::none(),
                },
            })
        }),
{
    lemma_new_modifier_entry(slots, press);
    let slot = free_slot(slots)->0;
    let down = press_modifier(slots, press).0;
    let used = slots_after_key(down, true);
    let producer = press.producer();
    lemma_single_effective(producer);
    let effect = press.entry().effect->0;
    assert(effect.producers[0] == Some(producer));
    law_release_removes_one_owner(effect, producer);
    let empty = effect.released(producer);
    assert forall|i: int| 0 <= i < empty.producers.len() implies #[trigger] empty.producers[i] is None by {
        assert(i > 0 ==> empty.producers[i] == effect.producers[i]);
    }
    lemma_first_where_is(
        effect.producers,
        0,
        |taken: Option<ModifierProducer>| taken == Some(producer),
        0,
    );
    assert(used[slot] == Some(press.entry().foreign_marked()));
    assert forall|i: int| 0 <= i < used.len() && i != slot implies !has_shape(
        #[trigger] used[i],
        StickyKeyShape::PureMod,
    ) by {
        assert(down[i] == slots[i]);
    }
    lemma_shape_slot(used, StickyKeyShape::PureMod);
    assert(shape_slot(used, StickyKeyShape::PureMod) == Some(slot));
    assert(modifier_key_up(press, released_at).producer() == producer);
}

/// A layer key that is tapped before its threshold keeps its layer for the next key: the layer is
/// activated on the press, stays held after the release, and the event that the policy names uses
/// it up and has it deactivated.
pub proof fn law_layer_tap_arms_the_next_key(
    slots: Slots,
    press: LayerPress,
    released_at: Instant,
    key_pressed: bool,
)
    requires
        slots_valid(slots),
        coherent(slots),
        none_of(slots, StickyKeyShape::TapKey),
        none_of(slots, StickyKeyShape::Layer),
        press.event_time@ <= released_at@,
        press.policy.hold_deadline(press.event_time@) matches Some(deadline) ==> released_at@ < deadline,
    ensures
        ({
            let (down, activate) = insert_layer(slots, press);
            let (up, step) = layer_effect(down, layer_key_up(press, released_at));
            let slot = free_slot(slots)->0;
            &&& activate == last(Request::ActivateLayer { layer: press.layer })
            &&& step == Step::Done
            &&& up[slot] is Some
            &&& up[slot]->0.phase == StickyPhase::Latched
            &&& up[slot]->0.layer() == Some(press.layer)
            &&& up[slot]->0.deadline() == press.policy.latch_deadline(released_at@)
            &&& if press.policy.release_mode.meets(StickyKeyReleaseMode::of_other_key(key_pressed)) {
                &&& slots_after_key(up, key_pressed)[slot] is None
                &&& layers_used_up(up, key_pressed)[slot] == Some(press.layer)
            } else {
                &&& slots_after_key(up, key_pressed)[slot] == up[slot]
                &&& layers_used_up(up, key_pressed)[slot] is None
            }
        }),
{
    law_layer_press_takes_effect(slots, press);
    lemma_free_slot(slots);
    let down = insert_layer(slots, press).0;
    lemma_shape_slot(down, StickyKeyShape::Layer);
}

/// A tap key keeps its modifiers in every report after its key is up, whether that comes before its
/// threshold or after it, until a foreign action that is no modifier comes with an event that the
/// policy names. Then the tap key goes and the host is told that its modifiers are gone: before the
/// action of a key that goes down, and after that of a key that goes up.
pub proof fn law_tap_key_keeps_its_modifiers(
    slots: Slots,
    press: TapKeyPress,
    released_at: Instant,
    action: Action,
    event: KeyboardEvent,
    pressed: bool,
)
    requires
        slots_valid(slots),
        forall|i: int| 0 <= i < slots.len() ==> #[trigger] slots[i] is None,
        press.event.pressed,
        press.policy.hold_deadline(press.event_time@) matches Some(deadline) ==> press.event_time@
            < deadline,
    ensures
        ({
            let (down, tap) = press_tap_key(slots, press);
            let (up, release) = tap_key_effect(down, tap_key_up(press, released_at));
            let gone = (slots, last(Request::SendReport { pressed: false }));
            let goes = !action.preserves_tap_key() && press.policy.release_mode.meets(
                StickyKeyReleaseMode::of_other_key(event.pressed),
            );
            &&& tap == last(Request::ProcessKey { key: press.key, event: press.event })
            &&& release == last(
                Request::ProcessKey {
                    key: press.key,
                    event: KeyboardEvent { pressed: false, pos: press.event.pos },
                },
            )
            &&& up[0] is Some
            &&& up[0]->0.phase == if press.policy.hold_deadline(press.event_time@) matches Some(
                deadline,
            ) && deadline <= released_at@ {
                StickyPhase::HoldQualified
            } else {
                StickyPhase::Latched
            }
            &&& reported_modifiers(up, pressed) == press.modifiers
            &&& before_action(up, action, event) == if event.pressed && goes {
                gone
            } else {
                (up, Step::Done)
            }
            &&& due_after_action(up, action, event) == if !event.pressed && goes {
                StickyKeyPostAction::Release
            } else {
                StickyKeyPostAction::Nothing
            }
            &&& after_action(up, StickyKeyPostAction::Release) == gone
            &&& after_action(up, StickyKeyPostAction::Nothing) == (up, Step::Done)
        }),
{
    law_tap_key_press_takes_effect(slots, press);
    let down = press_tap_key(slots, press).0;
    lemma_shape_slot(down, StickyKeyShape::TapKey);
    let up = tap_key_effect(down, tap_key_up(press, released_at)).0;
    assert(has_shape(down[0], StickyKeyShape::TapKey));
    assert(shape_slot(down, StickyKeyShape::TapKey) == Some(0int));
    assert(has_shape(up[0], StickyKeyShape::TapKey));
    assert(shape_slot(up, StickyKeyShape::TapKey) == Some(0int));
    assert(up[1] is None);
    assert(up.update(0, None) =~= slots);
    lemma_reported(up, 0, pressed);
}

/// The release of a layer entry deactivates the layer that its press activated, and nothing else
/// is left of it.
pub proof fn law_release_undoes_a_layer_press(slots: Slots, press: LayerPress)
    requires
        slots_valid(slots),
        free_slot(slots) is Some,
    ensures
        insert_layer(slots, press).1 == last(Request::ActivateLayer { layer: press.layer }),
        released_any(insert_layer(slots, press).0, free_slot(slots)->0) == (
            slots,
            last(Request::DeactivateLayer { layer: press.layer }),
        ),
{
    lemma_free_slot(slots);
    let slot = free_slot(slots)->0;
    assert(slots.update(slot, Some(press.entry())).update(slot, None) =~= slots);
}

/// The release of a tap key whose key is still down lets that very key go up, and nothing else is
/// left of it.
pub proof fn law_release_undoes_a_tap(slots: Slots, press: TapKeyPress)
    requires
        slots_valid(slots),
        free_slot(slots) is Some,
        none_of(slots, StickyKeyShape::TapKey),
        press.policy.hold_deadline(press.event_time@) matches Some(deadline) ==> press.event_time@
            < deadline,
    ensures
        press_tap_key(slots, press).1 == last(
            Request::ProcessKey { key: press.key, event: press.event },
        ),
        released_any(press_tap_key(slots, press).0, free_slot(slots)->0) == (
            slots,
            last(
                Request::ProcessKey {
                    key: press.key,
                    event: KeyboardEvent { pressed: false, pos: press.event.pos },
                },
            ),
        ),
{
    lemma_free_slot(slots);
    lemma_shape_slot(slots, StickyKeyShape::TapKey);
    let slot = free_slot(slots)->0;
    assert(slots.update(slot, Some(press.entry())).update(slot, None) =~= slots);
}

} // verus!
