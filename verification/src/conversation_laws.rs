//! How conversations begin, go on and end, in terms of what is asked for and of what is replied.

use vstd::prelude::*;

use crate::action::Action;
use crate::config::{StickyKeyPolicy, StickyKeyReleaseMode, StickyKeyShape};
use crate::decision_laws::law_foreign_keys_tell_what_they_used_up;
use crate::entry::{DeadlineDisposition, Entry, StickyPhase};
use crate::event::KeyboardEvent;
use crate::keyboard_laws::{
    coherent, lemma_free_slot, lemma_shape_slot, none_of, prepared, prepared_for,
};
use crate::lifecycle_laws::law_deadlines_are_kept;
use crate::machine::{
    accepts, action_effect, action_effect_fits, after_action, before_action, check_layer,
    check_layer_fits, insert_layer, layer_effect, modifier_effect, opening, other_slot,
    press_modifier, press_modifier_fits, press_tap_key, press_tap_key_fits, proceed, proceed_fits,
    released_any, report_owed, resumed, resumed_fits, slots_after_key, sweep_for_tap_key,
    sweep_for_tap_key_fits, sweep_on_layer_event, sweep_on_timeout, tap_key_effect, After,
    Continuation, LayerPress, ModifierPress, Reply, Request, Step, StickyKeyPostAction, TapKeyPress,
};
use crate::modifier::ModifierCombination;
use crate::observed::{
    changed_at, ends_effect, holds_modifiers, lemma_kinds, lemma_released_slot, modifiers_at, names,
    no_modifiers, same_but_timing, threshold_passed,
};
use crate::producers::ModifierProducerSource;
use crate::search::{lemma_first_where, lemma_first_where_is, lemma_first_where_none};
use crate::state::{free_slot, has_shape, shape_slot, slots_valid, Slots};
use crate::time::Instant;

verus! {

/// An event of a sticky key's own key begins by asking for the policy of its profile and kind, and
/// goes on, under whatever policy is replied, as an event of a modifier key, of a layer key or of a
/// tap key. An action that no sticky key holds is ignored.
pub proof fn law_key_events_go_by_their_policy(
    action: Action,
    profile: u8,
    event: KeyboardEvent,
    event_time: Instant,
    producer_source: ModifierProducerSource,
    slots: Slots,
    keys_down: bool,
    sticky_contributed: ModifierCombination,
    policy: StickyKeyPolicy,
)
    ensures
        ({
            let step = opening(action, profile, event, event_time, producer_source);
            let shape = match action {
                Action::Modifier(_) => StickyKeyShape::PureMod,
                Action::LayerOn(_) => StickyKeyShape::Layer,
                _ => StickyKeyShape::TapKey,
            };
            if action is Modifier || action is LayerOn || action is KeyWithModifier {
                step matches Step::Call { request, then } && request == (Request::Policy {
                    profile,
                    shape,
                }) && {
                    let outcome = resumed(
                        slots,
                        keys_down,
                        sticky_contributed,
                        then,
                        Reply::Policy(policy),
                    );
                    &&& action matches Action::Modifier(modifiers) ==> outcome == modifier_effect(
                        slots,
                        keys_down,
                        ModifierPress { modifiers, policy, event, event_time, producer_source },
                    )
                    &&& action matches Action::LayerOn(layer) ==> outcome == layer_effect(
                        slots,
                        LayerPress { layer, policy, event, event_time },
                    )
                    &&& action matches Action::KeyWithModifier(key, modifiers) ==> outcome
                        == tap_key_effect(
                        slots,
                        TapKeyPress { key, modifiers, policy, event, event_time },
                    )
                }
            } else {
                step is Done
            }
        }),
{
}

/// A layer event releases, one slot after the other, every entry whose policy has a bit of it, and
/// no other.
pub proof fn law_layer_events_release_what_names_them(
    slots: Slots,
    event: StickyKeyReleaseMode,
    from: int,
    slot: int,
)
    requires
        slots_valid(slots),
        0 <= from,
    ensures
        from <= slot < slots.len() && (slots[slot] matches Some(entry) && names(
            entry.policy.release_mode,
            event.bits,
        )) && (forall|i: int|
            from <= i < slot ==> (#[trigger] slots[i] matches Some(entry) ==> !names(
                entry.policy.release_mode,
                event.bits,
            ))) ==> {
            let (after, step) = sweep_on_layer_event(slots, event, from);
            &&& after[slot] is None
            &&& changed_at(slots, after, slot)
            &&& ends_effect(
                slots[slot]->0,
                step,
                |later: Slots| sweep_on_layer_event(later, event, slot + 1),
            )
        },
        (forall|i: int|
            from <= i < slots.len() ==> (#[trigger] slots[i] matches Some(entry) ==> !names(
                entry.policy.release_mode,
                event.bits,
            ))) ==> sweep_on_layer_event(slots, event, from) == (slots, Step::Done),
{
    let due = |held: Option<Entry>|
        held matches Some(entry) && entry.policy.release_mode.meets(event);
    assert forall|i: int| 0 <= i < slots.len() implies (due(#[trigger] slots[i]) <==> (
    slots[i] matches Some(entry) && names(entry.policy.release_mode, event.bits))) by {}
    if from <= slot < slots.len() && due(slots[slot]) && (forall|i: int|
        from <= i < slot ==> !due(#[trigger] slots[i])) {
        lemma_first_where_is(slots, from, due, slot);
        lemma_released_slot(
            slots,
            slot,
            After::SweepOnLayerEvent { event, index: (slot + 1) as usize },
            |later: Slots| sweep_on_layer_event(later, event, slot + 1),
        );
    }
    if forall|i: int| from <= i < slots.len() ==> !due(#[trigger] slots[i]) {
        lemma_first_where_none(slots, from, due);
    }
}

/// Whether the slot holds a latch that has timed out by a time.
pub open spec fn timed_out(slot: Option<Entry>, now: Instant) -> bool {
    slot matches Some(entry) && entry.phase == StickyPhase::Latched && (
    entry.timing_marker matches Some(deadline) && deadline <= now.ticks)
}

/// Whether a slot is after a look at the clock what it was before, but for a press whose threshold
/// has passed, which counts as held since it began.
pub open spec fn looked_at(before: Option<Entry>, after: Option<Entry>, now: Instant) -> bool {
    match before {
        Some(entry) => if threshold_passed(entry, now.ticks as int) {
            after matches Some(held) && {
                &&& same_but_timing(entry, held)
                &&& held.phase == StickyPhase::HoldQualified
                &&& entry.policy.release_after_hold.threshold matches Some(threshold)
                    ==> held.timing_marker == Some(entry.timing_marker->0 - threshold.ticks)
            }
        } else {
            after == before
        },
        None => after is None,
    }
}

/// A look at the clock goes from slot to slot: the first latch that has timed out is released, the
/// slots before it are looked at, those after it wait until that is done. Where none has timed out
/// all slots are looked at, and that is the end.
pub proof fn law_looks_at_the_clock_go_slot_by_slot(slots: Slots, now: Instant, from: int, due: int)
    requires
        slots_valid(slots),
        0 <= from <= due <= slots.len(),
        forall|i: int| from <= i < due ==> !timed_out(#[trigger] slots[i], now),
        due < slots.len() ==> timed_out(slots[due], now),
    ensures
        ({
            let (after, step) = sweep_on_timeout(slots, now, from);
            &&& after.len() == slots.len()
            &&& forall|i: int|
                from <= i < due ==> looked_at(slots[i], #[trigger] after[i], now)
            &&& forall|i: int|
                0 <= i < slots.len() && (i < from || i > due) ==> #[trigger] after[i] == slots[i]
            &&& due == slots.len() ==> step is Done
            &&& due < slots.len() ==> {
                &&& after[due] is None
                &&& ends_effect(
                    slots[due]->0,
                    step,
                    |later: Slots| sweep_on_timeout(later, now, due + 1),
                )
            }
        }),
    decreases due - from,
{
    if from < due {
        match slots[from] {
            Some(entry) => {
                law_deadlines_are_kept(entry, now.ticks as int);
                let polled = slots.update(from, Some(entry.polled(now@)));
                assert(polled[from]->0.valid());
                assert forall|i: int| from + 1 <= i < due implies !timed_out(#[trigger] polled[i], now) by {
                    assert(polled[i] == slots[i]);
                }
                law_looks_at_the_clock_go_slot_by_slot(polled, now, from + 1, due);
                let after = sweep_on_timeout(polled, now, from + 1).0;
                assert(after[from] == polled[from]);
                assert forall|i: int| from <= i < due implies looked_at(
                    slots[i],
                    #[trigger] after[i],
                    now,
                ) by {
                    if i > from {
                        assert(polled[i] == slots[i]);
                    }
                }
            },
            None => {
                law_looks_at_the_clock_go_slot_by_slot(slots, now, from + 1, due);
                let after = sweep_on_timeout(slots, now, from + 1).0;
                assert(after[from] == slots[from]);
            },
        }
    } else if due < slots.len() {
        law_deadlines_are_kept(slots[due]->0, now.ticks as int);
        lemma_released_slot(
            slots,
            due,
            After::SweepOnTimeout { now, index: (due + 1) as usize },
            |later: Slots| sweep_on_timeout(later, now, due + 1),
        );
    }
}

/// A balancing report is owed after a foreign key exactly where it made held modifiers go, and for
/// a basic key its press did so under a policy with the bit of it, for any other key the host was
/// told of a modifier on account of sticky keys.
pub proof fn law_reports_are_balanced(
    slots: Slots,
    sticky_contributed: ModifierCombination,
    pressed: bool,
    slot: int,
)
    requires
        slots_valid(slots),
        modifiers_at(slots, slot),
        forall|i: int| slot < i < slots.len() ==> !holds_modifiers(#[trigger] slots[i]),
    ensures
        ({
            let gone = slots_after_key(slots, pressed)[slot] is None;
            &&& report_owed(slots, sticky_contributed, pressed, true) <==> gone && pressed && names(
                slots[slot]->0.policy.release_mode,
                StickyKeyReleaseMode::OTHER_KEY_PRESS,
            )
            &&& report_owed(slots, sticky_contributed, pressed, false) <==> gone
                && sticky_contributed.bits != 0
        }),
{
    lemma_kinds(slots, slot);
    law_foreign_keys_tell_what_they_used_up(slots, pressed, slot);
    if exists|j: int|
        0 <= j < slots.len() && holds_modifiers(#[trigger] slots[j]) && slots_after_key(
            slots,
            pressed,
        )[j] is None {
        let j = choose|j: int|
            0 <= j < slots.len() && holds_modifiers(#[trigger] slots[j]) && slots_after_key(
                slots,
                pressed,
            )[j] is None;
        assert(j == slot);
    }
}

/// No balancing report is owed where no modifiers are held.
pub proof fn law_without_modifiers_no_report_is_owed(
    slots: Slots,
    sticky_contributed: ModifierCombination,
    pressed: bool,
    is_basic_keyboard_key: bool,
)
    requires
        slots_valid(slots),
        no_modifiers(slots),
    ensures
        !report_owed(slots, sticky_contributed, pressed, is_basic_keyboard_key),
{
    law_foreign_keys_tell_what_they_used_up(slots, pressed, 0);
}

/// Whether a reply is one to a request: the policy, the number of layers, the modifiers of other
/// sources, or that something is done.
pub open spec fn answers(request: Request, reply: Reply) -> bool {
    match request {
        Request::Policy { .. } => reply is Policy,
        Request::LayerCount => reply is LayerCount,
        Request::NonStickyModifiers => reply is NonStickyModifiers,
        _ => reply is Done,
    }
}

/// Whether a step waits for just the replies to what it asks for.
pub open spec fn waits_for_answers(step: Step, reply: Reply) -> bool {
    step matches Step::Call { request, then } ==> (accepts(then, reply) <==> answers(request, reply))
}

/// A look at the clock waits for what it asks for.
proof fn lemma_timeout_waits(slots: Slots, now: Instant, from: int, reply: Reply)
    ensures
        waits_for_answers(sweep_on_timeout(slots, now, from).1, reply),
    decreases slots.len() - from,
{
    if 0 <= from < slots.len() {
        match slots[from] {
            Some(entry) => lemma_timeout_waits(
                slots.update(from, Some(entry.polled(now@))),
                now,
                from + 1,
                reply,
            ),
            None => lemma_timeout_waits(slots, now, from + 1, reply),
        }
    }
}

/// What is left to do waits for what it asks for.
proof fn lemma_proceed_waits(slots: Slots, after: After, reply: Reply)
    ensures
        waits_for_answers(proceed(slots, after).1, reply),
{
    match after {
        After::PressModifier(press) => {
            assert(waits_for_answers(press_modifier(slots, press).1, reply));
        },
        After::SweepForTapKey { press, index } => {
            assert(waits_for_answers(sweep_for_tap_key(slots, press, index as int).1, reply)) by {
                assert(waits_for_answers(press_tap_key(slots, press).1, reply));
            }
        },
        After::PressTapKey(press) => {
            assert(waits_for_answers(press_tap_key(slots, press).1, reply));
        },
        After::SweepOnTimeout { now, index } => lemma_timeout_waits(
            slots,
            now,
            index as int,
            reply,
        ),
        _ => {},
    }
}

/// An event of a sticky key's own key waits for what it asks for.
proof fn lemma_action_waits(
    slots: Slots,
    keys_down: bool,
    action: Action,
    policy: StickyKeyPolicy,
    event: KeyboardEvent,
    event_time: Instant,
    producer_source: ModifierProducerSource,
    reply: Reply,
)
    ensures
        waits_for_answers(
            action_effect(slots, keys_down, action, policy, event, event_time, producer_source).1,
            reply,
        ),
{
    match action {
        Action::Modifier(modifiers) => {
            let press = ModifierPress { modifiers, policy, event, event_time, producer_source };
            assert(waits_for_answers(press_modifier(slots, press).1, reply));
            assert(waits_for_answers(modifier_effect(slots, keys_down, press).1, reply));
        },
        Action::LayerOn(layer) => {
            let press = LayerPress { layer, policy, event, event_time };
            assert(waits_for_answers(layer_effect(slots, press).1, reply));
        },
        Action::KeyWithModifier(key, modifiers) => {
            let press = TapKeyPress { key, modifiers, policy, event, event_time };
            assert(waits_for_answers(press_tap_key(slots, press).1, reply));
            assert(waits_for_answers(sweep_for_tap_key(slots, press, 0).1, reply));
            assert(waits_for_answers(tap_key_effect(slots, press).1, reply));
        },
        _ => {},
    }
}

/// At every point of a conversation just the replies to what was asked for are accepted.
pub proof fn law_conversations_wait_for_what_they_asked(
    slots: Slots,
    keys_down: bool,
    sticky_contributed: ModifierCombination,
    then: Continuation,
    earlier: Reply,
    reply: Reply,
)
    ensures
        waits_for_answers(
            resumed(slots, keys_down, sticky_contributed, then, earlier).1,
            reply,
        ),
{
    match (then, earlier) {
        (
            Continuation::Policy { action, event, event_time, modifier_source },
            Reply::Policy(policy),
        ) => lemma_action_waits(
            slots,
            keys_down,
            action,
            policy,
            event,
            event_time,
            modifier_source,
            reply,
        ),
        (Continuation::LayerCount(press), Reply::LayerCount(layers)) => {
            assert(waits_for_answers(check_layer(slots, press, layers as int).1, reply));
        },
        (Continuation::ReleaseModifiers { after, .. }, Reply::NonStickyModifiers(_)) => {
            lemma_proceed_waits(slots, after, reply);
        },
        (Continuation::Proceed(after), Reply::Done) => lemma_proceed_waits(slots, after, reply),
        _ => {},
    }
}

/// At the beginning of every conversation just the replies to what was asked for are accepted.
pub proof fn law_first_steps_wait_for_what_they_asked(
    slots: Slots,
    action: Action,
    profile: u8,
    event: KeyboardEvent,
    event_time: Instant,
    modifier_source: ModifierProducerSource,
    post_action: StickyKeyPostAction,
    layer_event: StickyKeyReleaseMode,
    slot: int,
    reply: Reply,
)
    ensures
        waits_for_answers(opening(action, profile, event, event_time, modifier_source), reply),
        waits_for_answers(before_action(slots, action, event).1, reply),
        waits_for_answers(after_action(slots, post_action).1, reply),
        waits_for_answers(sweep_on_layer_event(slots, layer_event, 0).1, reply),
        waits_for_answers(sweep_on_timeout(slots, event_time, 0).1, reply),
        waits_for_answers(released_any(slots, slot).1, reply),
{
    lemma_timeout_waits(slots, event_time, 0, reply);
}

/// Whether the clock can show every time that an entry is marked with.
pub open spec fn times_on_clock(slots: Slots) -> bool {
    forall|i: int|
        0 <= i < slots.len() ==> (#[trigger] slots[i] matches Some(entry) ==> (
        entry.timing_marker matches Some(ticks) ==> 0 <= ticks <= u64::MAX))
}

/// A modifier press fits on the clock exactly where all times do after it.
proof fn lemma_press_modifier_fits(slots: Slots, press: ModifierPress)
    requires
        slots_valid(slots),
        coherent(slots),
        none_of(slots, StickyKeyShape::TapKey),
    ensures
        press_modifier_fits(slots, press) <==> times_on_clock(press_modifier(slots, press).0),
{
    lemma_shape_slot(slots, StickyKeyShape::PureMod);
    lemma_free_slot(slots);
    let after = press_modifier(slots, press).0;
    match shape_slot(slots, StickyKeyShape::PureMod) {
        Some(slot) => {
            assert(after[slot] is Some || after[slot] is None);
        },
        None => {
            if free_slot(slots) is None {
                assert(slots[0] is Some && slots[1] is Some);
            }
            let slot = free_slot(slots)->0;
            assert(after[slot] == Some(press.entry()));
        },
    }
}

/// A layer press fits on the clock exactly where all times do after it.
proof fn lemma_layer_fits(slots: Slots, press: LayerPress, layers: int)
    requires
        slots_valid(slots),
        coherent(slots),
        none_of(slots, StickyKeyShape::TapKey),
    ensures
        check_layer_fits(slots, press, layers) <==> times_on_clock(
            check_layer(slots, press, layers).0,
        ),
        none_of(slots, StickyKeyShape::Layer) ==> (press.policy.hold_fits(
            press.event_time@,
        ) <==> times_on_clock(insert_layer(slots, press).0)),
{
    lemma_shape_slot(slots, StickyKeyShape::Layer);
    lemma_free_slot(slots);
    let after = check_layer(slots, press, layers).0;
    let inserted = insert_layer(slots, press).0;
    match shape_slot(slots, StickyKeyShape::Layer) {
        Some(slot) => {
            assert(after[slot] is Some || after[slot] is None);
        },
        None => {
            if free_slot(slots) is None {
                assert(slots[0] is Some && slots[1] is Some);
            }
            let slot = free_slot(slots)->0;
            assert(inserted[slot] == Some(press.entry()));
        },
    }
}

/// A tap fits on the clock exactly where all times do after it.
proof fn lemma_tap_fits(slots: Slots, press: TapKeyPress, from: int)
    requires
        slots_valid(slots),
        coherent(slots),
        0 <= from,
        forall|i: int|
            0 <= i < slots.len() && i < from ==> (#[trigger] slots[i] is None || has_shape(
                slots[i],
                StickyKeyShape::TapKey,
            )),
    ensures
        (forall|i: int|
            0 <= i < slots.len() ==> (#[trigger] slots[i] is None || has_shape(
                slots[i],
                StickyKeyShape::TapKey,
            ))) ==> (press_tap_key_fits(slots, press) <==> times_on_clock(
            press_tap_key(slots, press).0,
        )),
        sweep_for_tap_key_fits(slots, press, from) <==> times_on_clock(
            sweep_for_tap_key(slots, press, from).0,
        ),
{
    let other = |slot: Option<Entry>| slot is Some && !has_shape(slot, StickyKeyShape::TapKey);
    lemma_first_where(slots, from, other);
    lemma_shape_slot(slots, StickyKeyShape::TapKey);
    lemma_free_slot(slots);
    let pressed = press_tap_key(slots, press).0;
    match shape_slot(slots, StickyKeyShape::TapKey) {
        Some(slot) => {
            assert(pressed[slot] is Some || pressed[slot] is None);
        },
        None => {
            if let Some(slot) = free_slot(slots) {
                assert(pressed[slot] == Some(press.entry()));
            } else {
                assert(slots[0] is Some && slots[1] is Some);
            }
        },
    }
    if other_slot(slots, from) is None {
        assert forall|i: int| 0 <= i < slots.len() implies (#[trigger] slots[i] is None || has_shape(
            slots[i],
            StickyKeyShape::TapKey,
        )) by {
            if i >= from {
                assert(!other(slots[i]));
            }
        }
    }
}

/// A look at the clock keeps all times on it.
proof fn lemma_timeout_fits(slots: Slots, now: Instant, from: int)
    requires
        slots_valid(slots),
        0 <= from,
    ensures
        times_on_clock(sweep_on_timeout(slots, now, from).0),
    decreases slots.len() - from,
{
    assert(times_on_clock(slots));
    if from < slots.len() {
        match slots[from] {
            Some(entry) => if entry.disposition(now@) != DeadlineDisposition::Release {
                let polled = slots.update(from, Some(entry.polled(now@)));
                assert(polled[from]->0.valid());
                lemma_timeout_fits(polled, now, from + 1);
            },
            None => lemma_timeout_fits(slots, now, from + 1),
        }
    }
}

/// What is left to do fits on the clock exactly where all times do after it.
proof fn lemma_proceed_fits(slots: Slots, after: After)
    requires
        slots_valid(slots),
        coherent(slots),
        prepared_for(slots, after),
    ensures
        proceed_fits(slots, after) <==> times_on_clock(proceed(slots, after).0),
{
    assert(times_on_clock(slots));
    match after {
        After::Return | After::CheckLayer(_) => {},
        After::PressModifier(press) => lemma_press_modifier_fits(slots, press),
        After::InsertLayer(press) => lemma_layer_fits(slots, press, 0),
        After::SweepForTapKey { press, index } => lemma_tap_fits(slots, press, index as int),
        After::PressTapKey(press) => lemma_tap_fits(slots, press, 0),
        After::SweepOnLayerEvent { event, index } => {
            lemma_first_where(
                slots,
                index as int,
                |slot: Option<Entry>| slot matches Some(entry) && entry.policy.release_mode.meets(event),
            );
        },
        After::SweepOnTimeout { now, index } => lemma_timeout_fits(slots, now, index as int),
    }
}

/// An event of a sticky key's own key fits on the clock exactly where all times do after it.
proof fn lemma_action_fits(
    slots: Slots,
    keys_down: bool,
    action: Action,
    policy: StickyKeyPolicy,
    event: KeyboardEvent,
    event_time: Instant,
    producer_source: ModifierProducerSource,
)
    requires
        slots_valid(slots),
        coherent(slots),
    ensures
        action_effect_fits(slots, keys_down, action, policy, event, event_time, producer_source)
            <==> times_on_clock(
            action_effect(slots, keys_down, action, policy, event, event_time, producer_source).0,
        ),
{
    assert(times_on_clock(slots));
    lemma_shape_slot(slots, StickyKeyShape::TapKey);
    lemma_shape_slot(slots, StickyKeyShape::PureMod);
    lemma_shape_slot(slots, StickyKeyShape::Layer);
    let after = action_effect(
        slots,
        keys_down,
        action,
        policy,
        event,
        event_time,
        producer_source,
    ).0;
    match action {
        Action::Modifier(modifiers) => {
            let press = ModifierPress { modifiers, policy, event, event_time, producer_source };
            if event.pressed {
                if shape_slot(slots, StickyKeyShape::TapKey) is None {
                    lemma_press_modifier_fits(slots, press);
                }
            } else if let Some(slot) = shape_slot(slots, StickyKeyShape::PureMod) {
                assert(after[slot] is Some || after[slot] is None);
                assert(slots[slot]->0.valid());
            }
        },
        Action::LayerOn(layer) => {
            if let Some(slot) = shape_slot(slots, StickyKeyShape::Layer) {
                assert(after[slot] is Some || after[slot] is None);
                assert(slots[slot]->0.valid());
            }
        },
        Action::KeyWithModifier(key, modifiers) => {
            let press = TapKeyPress { key, modifiers, policy, event, event_time };
            if event.pressed {
                lemma_tap_fits(slots, press, 0);
            } else if let Some(slot) = shape_slot(slots, StickyKeyShape::TapKey) {
                assert(after[slot] is Some || after[slot] is None);
                assert(slots[slot]->0.valid());
            }
        },
        _ => {},
    }
}

/// A conversation can go on with a reply exactly where the clock can show every time that an entry
/// is marked with after it: nothing else keeps it from going on.
pub proof fn law_conversations_go_on_while_the_clock_does(
    slots: Slots,
    keys_down: bool,
    sticky_contributed: ModifierCombination,
    then: Continuation,
    reply: Reply,
)
    requires
        slots_valid(slots),
        coherent(slots),
        prepared(slots, then),
        accepts(then, reply),
    ensures
        resumed_fits(slots, keys_down, sticky_contributed, then, reply) <==> times_on_clock(
            resumed(slots, keys_down, sticky_contributed, then, reply).0,
        ),
{
    assert(times_on_clock(slots));
    match (then, reply) {
        (
            Continuation::Policy { action, event, event_time, modifier_source },
            Reply::Policy(policy),
        ) => lemma_action_fits(
            slots,
            keys_down,
            action,
            policy,
            event,
            event_time,
            modifier_source,
        ),
        (Continuation::LayerCount(press), Reply::LayerCount(layers)) => lemma_layer_fits(
            slots,
            press,
            layers as int,
        ),
        (Continuation::ReleaseModifiers { after, .. }, Reply::NonStickyModifiers(_)) => {
            lemma_proceed_fits(slots, after);
        },
        (Continuation::Proceed(after), Reply::Done) => lemma_proceed_fits(slots, after),
        _ => {},
    }
}

} // verus!
