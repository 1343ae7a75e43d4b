//! What holds of sticky key handling as a whole.

use vstd::prelude::*;

use crate::action::Action;
use crate::config::{StickyKeyPolicy, StickyKeyReleaseMode, StickyKeyShape};
use crate::entry::{DeadlineDisposition, Entry, StickyPhase};
use crate::entry_laws::law_polling_settles_what_is_due;
use crate::event::{KeyboardEvent, KeyboardEventPos};
use crate::machine::{
    accepts, action_effect, after_action, before_action, check_layer, insert_layer, last,
    modifier_effect, other_slot, press_modifier, press_tap_key, proceed, release_step, released_any,
    released_slot, resumed, slot_after_key, slots_after_key, sweep_for_tap_key,
    sweep_on_layer_event, sweep_on_timeout, used_up, After, Continuation, LayerPress, ModifierPress,
    Reply, Request, Step, StickyKeyPostAction, TapKeyPress,
};
use crate::modifier::{lemma_holds, ModifierCombination};
use crate::producer_laws::{law_release_removes_one_owner, law_stale_release_changes_nothing};
use crate::producers::{any_producer, ModifierProducer, ModifierProducerSource};
use crate::search::{lemma_first_where, lemma_first_where_none};
use crate::state::{
    claims_finished, each, free_slot, has_shape, is_earliest_deadline, no_entries,
    reported_modifiers, shape_slot, slot_deadline, slot_modifiers, slots_valid, Slots,
    MAX_ACTIVE_STICKY_KEYS,
};
use crate::time::Instant;

verus! {

/// Whether no slot holds a sticky key of the given kind.
pub open spec fn none_of(slots: Slots, shape: StickyKeyShape) -> bool {
    forall|i: int| 0 <= i < slots.len() ==> !has_shape(#[trigger] slots[i], shape)
}

/// Whether the held actions can be held together: two of them are of different kinds, and none of
/// the two is a tap key.
pub open spec fn coherent(slots: Slots) -> bool {
    forall|i: int, j: int|
        0 <= i < j < slots.len() && #[trigger] slots[i] is Some && #[trigger] slots[j] is Some ==> {
            &&& slots[i]->0.shape() != slots[j]->0.shape()
            &&& !has_shape(slots[i], StickyKeyShape::TapKey)
            &&& !has_shape(slots[j], StickyKeyShape::TapKey)
        }
}

/// What has been made sure of before what is left to do.
pub open spec fn prepared_for(slots: Slots, after: After) -> bool {
    match after {
        After::PressModifier(_) | After::CheckLayer(_) => none_of(slots, StickyKeyShape::TapKey),
        After::InsertLayer(_) => none_of(slots, StickyKeyShape::TapKey) && none_of(
            slots,
            StickyKeyShape::Layer,
        ),
        After::SweepForTapKey { index, .. } => forall|i: int|
            0 <= i < slots.len() && i < index ==> (#[trigger] slots[i] is None || has_shape(
                slots[i],
                StickyKeyShape::TapKey,
            )),
        After::PressTapKey(_) => forall|i: int| 0 <= i < slots.len() ==> #[trigger] slots[i] is None,
        _ => true,
    }
}

/// What has been made sure of where the handling of an event waits.
pub open spec fn prepared(slots: Slots, then: Continuation) -> bool {
    match then {
        Continuation::Policy { .. } | Continuation::LiveRelease { .. } => true,
        Continuation::LayerCount(_) => none_of(slots, StickyKeyShape::TapKey),
        Continuation::ReleaseModifiers { after, .. } => prepared_for(slots, after),
        Continuation::Proceed(after) => prepared_for(slots, after),
    }
}

/// Whether a decision has left the held actions coherent, and prepared for what comes next.
pub open spec fn sound(outcome: (Slots, Step)) -> bool {
    &&& coherent(outcome.0)
    &&& outcome.1 matches Step::Call { then, .. } ==> prepared(outcome.0, then)
}

/// Whether entries have at most gone or changed within their kind.
pub open spec fn thinned(before: Slots, after: Slots) -> bool {
    &&& before.len() == after.len()
    &&& forall|i: int|
        0 <= i < after.len() ==> (#[trigger] after[i] matches Some(entry) ==> (
        before[i] matches Some(former) && former.shape() == entry.shape()))
}

/// Where a kind has a slot it is the first that holds one, and where it has none no slot holds one.
pub proof fn lemma_shape_slot(slots: Slots, shape: StickyKeyShape)
    ensures
        match shape_slot(slots, shape) {
            Some(slot) => 0 <= slot < slots.len() && has_shape(slots[slot], shape),
            None => none_of(slots, shape),
        },
{
    lemma_first_where(slots, 0, |slot: Option<Entry>| has_shape(slot, shape));
    if shape_slot(slots, shape) is None {
        assert forall|i: int| 0 <= i < slots.len() implies !has_shape(#[trigger] slots[i], shape) by {}
    }
}

/// The free slot holds nothing, and where there is none every slot holds something.
pub proof fn lemma_free_slot(slots: Slots)
    ensures
        match free_slot(slots) {
            Some(slot) => 0 <= slot < slots.len() && slots[slot] is None,
            None => forall|i: int| 0 <= i < slots.len() ==> #[trigger] slots[i] is Some,
        },
{
    lemma_first_where(slots, 0, |slot: Option<Entry>| slot is None);
}

/// A modifier press leaves the held actions coherent.
proof fn lemma_press_modifier_sound(slots: Slots, press: ModifierPress)
    requires
        slots_valid(slots),
        coherent(slots),
        none_of(slots, StickyKeyShape::TapKey),
    ensures
        sound(press_modifier(slots, press)),
{
    lemma_shape_slot(slots, StickyKeyShape::PureMod);
    lemma_free_slot(slots);
}

/// A new layer leaves the held actions coherent.
proof fn lemma_insert_layer_sound(slots: Slots, press: LayerPress)
    requires
        slots_valid(slots),
        coherent(slots),
        none_of(slots, StickyKeyShape::TapKey),
        none_of(slots, StickyKeyShape::Layer),
    ensures
        sound(insert_layer(slots, press)),
{
    lemma_free_slot(slots);
}

/// A layer press leaves the held actions coherent.
proof fn lemma_check_layer_sound(slots: Slots, press: LayerPress, layers: int)
    requires
        slots_valid(slots),
        coherent(slots),
        none_of(slots, StickyKeyShape::TapKey),
    ensures
        sound(check_layer(slots, press, layers)),
{
    lemma_shape_slot(slots, StickyKeyShape::Layer);
    if none_of(slots, StickyKeyShape::Layer) {
        lemma_insert_layer_sound(slots, press);
    }
}

/// A tap leaves the held actions coherent, where nothing but tap keys is held.
proof fn lemma_press_tap_key_sound(slots: Slots, press: TapKeyPress)
    requires
        slots_valid(slots),
        coherent(slots),
        forall|i: int|
            0 <= i < slots.len() ==> (#[trigger] slots[i] is None || has_shape(
                slots[i],
                StickyKeyShape::TapKey,
            )),
    ensures
        sound(press_tap_key(slots, press)),
{
    lemma_shape_slot(slots, StickyKeyShape::TapKey);
    lemma_free_slot(slots);
}

/// What makes way for a tap key leaves the held actions coherent.
proof fn lemma_sweep_for_tap_key_sound(slots: Slots, press: TapKeyPress, from: int)
    requires
        slots_valid(slots),
        coherent(slots),
        0 <= from,
        forall|i: int|
            0 <= i < slots.len() && i < from ==> (#[trigger] slots[i] is None || has_shape(
                slots[i],
                StickyKeyShape::TapKey,
            )),
    ensures
        sound(sweep_for_tap_key(slots, press, from)),
{
    let other = |slot: Option<Entry>| slot is Some && !has_shape(slot, StickyKeyShape::TapKey);
    lemma_first_where(slots, from, other);
    lemma_shape_slot(slots, StickyKeyShape::TapKey);
    if other_slot(slots, from) is None {
        assert forall|i: int| 0 <= i < slots.len() implies (#[trigger] slots[i] is None || has_shape(
            slots[i],
            StickyKeyShape::TapKey,
        )) by {
            if i >= from {
                assert(!other(slots[i]));
            }
        }
        lemma_press_tap_key_sound(slots, press);
    }
}

/// A layer event leaves the held actions coherent.
proof fn lemma_sweep_on_layer_event_sound(slots: Slots, event: StickyKeyReleaseMode, from: int)
    requires
        slots_valid(slots),
        coherent(slots),
        0 <= from,
    ensures
        sound(sweep_on_layer_event(slots, event, from)),
{
    lemma_first_where(
        slots,
        from,
        |slot: Option<Entry>| slot matches Some(entry) && entry.policy.release_mode.meets(event),
    );
}

/// A look at the clock leaves the held actions coherent.
proof fn lemma_sweep_on_timeout_sound(slots: Slots, now: Instant, from: int)
    requires
        slots_valid(slots),
        coherent(slots),
        0 <= from,
    ensures
        sound(sweep_on_timeout(slots, now, from)),
    decreases slots.len() - from,
{
    if from < slots.len() {
        match slots[from] {
            Some(entry) => if entry.disposition(now@) != DeadlineDisposition::Release {
                lemma_sweep_on_timeout_sound(
                    slots.update(from, Some(entry.polled(now@))),
                    now,
                    from + 1,
                );
            },
            None => lemma_sweep_on_timeout_sound(slots, now, from + 1),
        }
    }
}

/// What is left to do leaves the held actions coherent, where it was prepared for.
proof fn lemma_proceed_sound(slots: Slots, after: After)
    requires
        slots_valid(slots),
        coherent(slots),
        prepared_for(slots, after),
    ensures
        sound(proceed(slots, after)),
{
    match after {
        After::Return => {},
        After::PressModifier(press) => lemma_press_modifier_sound(slots, press),
        After::CheckLayer(press) => {},
        After::InsertLayer(press) => lemma_insert_layer_sound(slots, press),
        After::SweepForTapKey { press, index } => lemma_sweep_for_tap_key_sound(
            slots,
            press,
            index as int,
        ),
        After::PressTapKey(press) => lemma_press_tap_key_sound(slots, press),
        After::SweepOnLayerEvent { event, index } => lemma_sweep_on_layer_event_sound(
            slots,
            event,
            index as int,
        ),
        After::SweepOnTimeout { now, index } => lemma_sweep_on_timeout_sound(slots, now, index as int),
    }
}

/// Whatever the key of a sticky key does, and whatever its policy is, the held actions stay
/// coherent: at most one modifier entry and one layer entry, or a tap key alone.
pub proof fn law_key_events_keep_the_entries_coherent(
    slots: Slots,
    keys_down: bool,
    action: Action,
    policy: StickyKeyPolicy,
    event: KeyboardEvent,
    event_time: Instant,
    source: ModifierProducerSource,
)
    requires
        slots_valid(slots),
        coherent(slots),
    ensures
        sound(action_effect(slots, keys_down, action, policy, event, event_time, source)),
{
    lemma_shape_slot(slots, StickyKeyShape::TapKey);
    lemma_shape_slot(slots, StickyKeyShape::PureMod);
    lemma_shape_slot(slots, StickyKeyShape::Layer);
    match action {
        Action::Modifier(modifiers) => {
            let press = ModifierPress {
                modifiers,
                policy,
                event,
                event_time,
                producer_source: source,
            };
            if event.pressed && none_of(slots, StickyKeyShape::TapKey) {
                lemma_press_modifier_sound(slots, press);
            }
        },
        Action::LayerOn(layer) => {},
        Action::KeyWithModifier(key, modifiers) => {
            if event.pressed {
                lemma_sweep_for_tap_key_sound(
                    slots,
                    TapKeyPress { key, modifiers, policy, event, event_time },
                    0,
                );
            }
        },
        _ => {},
    }
}

/// Every decision, at every point of a conversation and for every reply, keeps the held actions
/// coherent.
pub proof fn law_conversations_keep_the_entries_coherent(
    slots: Slots,
    keys_down: bool,
    sticky_contributed: ModifierCombination,
    then: Continuation,
    reply: Reply,
)
    requires
        slots_valid(slots),
        coherent(slots),
        prepared(slots, then),
        accepts(then, reply),
    ensures
        sound(resumed(slots, keys_down, sticky_contributed, then, reply)),
{
    match (then, reply) {
        (
            Continuation::Policy { action, event, event_time, modifier_source },
            Reply::Policy(policy),
        ) => law_key_events_keep_the_entries_coherent(
            slots,
            keys_down,
            action,
            policy,
            event,
            event_time,
            modifier_source,
        ),
        (Continuation::LayerCount(press), Reply::LayerCount(layers)) => lemma_check_layer_sound(
            slots,
            press,
            layers as int,
        ),
        (Continuation::ReleaseModifiers { modifiers, after }, Reply::NonStickyModifiers(_)) => {
            lemma_proceed_sound(slots, after);
        },
        (Continuation::Proceed(after), Reply::Done) => lemma_proceed_sound(slots, after),
        _ => {},
    }
}

/// The events that start a conversation other than the sticky keys' own keys keep the held actions
/// coherent too.
pub proof fn law_other_events_keep_the_entries_coherent(
    slots: Slots,
    action: Action,
    event: KeyboardEvent,
    post_action: StickyKeyPostAction,
    layer_event: StickyKeyReleaseMode,
    now: Instant,
    slot: int,
)
    requires
        slots_valid(slots),
        coherent(slots),
        0 <= slot < slots.len(),
    ensures
        sound(before_action(slots, action, event)),
        sound(after_action(slots, post_action)),
        sound(sweep_on_layer_event(slots, layer_event, 0)),
        sound(sweep_on_timeout(slots, now, 0)),
        sound(released_any(slots, slot)),
{
    lemma_shape_slot(slots, StickyKeyShape::TapKey);
    lemma_sweep_on_layer_event_sound(slots, layer_event, 0);
    lemma_sweep_on_timeout_sound(slots, now, 0);
}

/// A state that holds nothing is coherent.
pub proof fn law_no_entries_are_coherent()
    ensures
        coherent(no_entries()),
        slots_valid(no_entries()),
{
}

/// What has been made sure of while a request is carried out is not undone by anything that only
/// takes entries out or changes them within their kind.
pub proof fn law_thinning_disturbs_no_conversation(before: Slots, after: Slots, then: Continuation)
    requires
        thinned(before, after),
    ensures
        coherent(before) ==> coherent(after),
        prepared(before, then) ==> prepared(after, then),
{
    assert forall|i: int, shape: StickyKeyShape|
        0 <= i < after.len() && has_shape(#[trigger] after[i], shape) implies #[trigger] has_shape(
        before[i],
        shape,
    ) by {}
}

/// Foreign keys, buffered presses, foreign actions, layer events, timeouts and releases only take
/// entries out or change them within their kind.
pub proof fn law_other_events_only_thin(
    slots: Slots,
    pressed: bool,
    source: KeyboardEventPos,
    action: Action,
    event: KeyboardEvent,
    post_action: StickyKeyPostAction,
    layer_event: StickyKeyReleaseMode,
    now: Instant,
    slot: int,
)
    requires
        slots_valid(slots),
        0 <= slot < slots.len(),
    ensures
        thinned(slots, slots_after_key(slots, pressed)),
        thinned(slots, each(slots, |entry: Entry| entry.claimed(source))),
        thinned(slots, before_action(slots, action, event).0),
        thinned(slots, after_action(slots, post_action).0),
        thinned(slots, sweep_on_layer_event(slots, layer_event, 0).0),
        thinned(slots, sweep_on_timeout(slots, now, 0).0),
        thinned(slots, released_any(slots, slot).0),
{
    lemma_shape_slot(slots, StickyKeyShape::TapKey);
    lemma_first_where(
        slots,
        0,
        |slot: Option<Entry>| slot matches Some(entry) && entry.policy.release_mode.meets(layer_event),
    );
    law_timeouts_end_only_what_is_due(slots, now, 0);
}

/// The end of buffered presses, whenever the clock is read for each entry, only changes entries
/// within their kind.
pub proof fn law_finished_claims_only_thin(slots: Slots, times: Seq<Instant>)
    ensures
        thinned(slots, claims_finished(slots, times)),
{
}

/// A look at the clock takes out only latches whose deadline has passed. The entries that it leaves
/// have at most become held, and where it comes to its end none of them has a deadline that is due.
pub proof fn law_timeouts_end_only_what_is_due(slots: Slots, now: Instant, from: int)
    requires
        slots_valid(slots),
        0 <= from,
    ensures
        ({
            let (after, step) = sweep_on_timeout(slots, now, from);
            &&& after.len() == slots.len()
            &&& forall|i: int|
                0 <= i < slots.len() ==> match (slots[i], #[trigger] after[i]) {
                    (Some(entry), Some(kept)) => kept == entry || kept == entry.polled(now@),
                    (Some(entry), None) => entry.phase == StickyPhase::Latched && (
                    entry.deadline() matches Some(deadline) && deadline <= now@),
                    (None, kept) => kept is None,
                }
            &&& step is Done ==> forall|i: int|
                from <= i < slots.len() ==> (slot_deadline(#[trigger] after[i]) matches Some(deadline)
                    ==> deadline > now@)
        }),
    decreases slots.len() - from,
{
    if from < slots.len() {
        match slots[from] {
            Some(entry) => if entry.disposition(now@) != DeadlineDisposition::Release {
                let polled = slots.update(from, Some(entry.polled(now@)));
                law_timeouts_end_only_what_is_due(polled, now, from + 1);
                let (after, step) = sweep_on_timeout(polled, now, from + 1);
                lemma_sweep_on_timeout_keeps(polled, now, from + 1);
                assert(after[from] == polled[from]);
                law_polling_settles_what_is_due(entry, now@);
                assert forall|i: int| 0 <= i < slots.len() implies match (
                    slots[i],
                    #[trigger] after[i],
                ) {
                    (Some(entry), Some(kept)) => kept == entry || kept == entry.polled(now@),
                    (Some(entry), None) => entry.phase == StickyPhase::Latched && (
                    entry.deadline() matches Some(deadline) && deadline <= now@),
                    (None, kept) => kept is None,
                } by {
                    if i != from {
                        assert(polled[i] == slots[i]);
                    }
                }
            },
            None => law_timeouts_end_only_what_is_due(slots, now, from + 1),
        }
        lemma_sweep_on_timeout_keeps(slots, now, from + 1);
    }
}

/// Once a look at the clock has gone through all slots, the next wakeup lies ahead.
pub proof fn law_wakeups_lie_ahead(slots: Slots, now: Instant, deadline: Option<int>)
    requires
        slots_valid(slots),
        sweep_on_timeout(slots, now, 0).1 is Done,
        is_earliest_deadline(sweep_on_timeout(slots, now, 0).0, deadline),
    ensures
        deadline matches Some(ticks) ==> ticks > now@,
{
    law_timeouts_end_only_what_is_due(slots, now, 0);
}

/// A look at the clock from a slot on leaves the slots before it alone.
proof fn lemma_sweep_on_timeout_keeps(slots: Slots, now: Instant, from: int)
    ensures
        sweep_on_timeout(slots, now, from).0.len() == slots.len(),
        forall|i: int|
            0 <= i < from && i < slots.len() ==> #[trigger] sweep_on_timeout(slots, now, from).0[i]
                == slots[i],
    decreases slots.len() - from,
{
    if 0 <= from < slots.len() {
        match slots[from] {
            Some(entry) => if entry.disposition(now@) != DeadlineDisposition::Release {
                lemma_sweep_on_timeout_keeps(
                    slots.update(from, Some(entry.polled(now@))),
                    now,
                    from + 1,
                );
            },
            None => lemma_sweep_on_timeout_keeps(slots, now, from + 1),
        }
    }
}

/// Where the handling of a layer event comes to its end, no entry that the event releases is left
/// from the slot on where it went on.
pub proof fn law_layer_event_leaves_nothing_it_releases(
    slots: Slots,
    event: StickyKeyReleaseMode,
    from: int,
)
    requires
        0 <= from,
        sweep_on_layer_event(slots, event, from).1 is Done,
        slots_valid(slots),
    ensures
        sweep_on_layer_event(slots, event, from).0 == slots,
        forall|i: int|
            from <= i < slots.len() ==> (#[trigger] slots[i] matches Some(entry)
                ==> !entry.policy.release_mode.meets(event)),
{
    let due = |slot: Option<Entry>|
        slot matches Some(entry) && entry.policy.release_mode.meets(event);
    lemma_first_where(slots, from, due);
    assert forall|i: int| from <= i < slots.len() implies (#[trigger] slots[i] matches Some(entry)
        ==> !entry.policy.release_mode.meets(event)) by {
        assert(!due(slots[i]));
    }
}

/// A foreign key uses a latch up exactly where the policy names the event, and never touches a tap
/// key. What is still down becomes held exactly where the foreign key goes down; one that goes up
/// leaves it as it was, so that it can still latch. A second event of the same kind finds nothing
/// more to use up.
pub proof fn law_foreign_keys_use_up_latches(slots: Slots, pressed: bool, i: int)
    requires
        0 <= i < slots.len(),
    ensures
        ({
            let after = slots_after_key(slots, pressed)[i];
            &&& has_shape(slots[i], StickyKeyShape::TapKey) ==> after == slots[i]
            &&& (slots[i] is Some && after is None) <==> used_up(slots[i], pressed)
            &&& slots[i] matches Some(entry) ==> (entry.awaits_release() && !has_shape(
                slots[i],
                StickyKeyShape::TapKey,
            ) ==> {
                &&& after is Some
                &&& after->0.phase == StickyPhase::Held <==> pressed
                &&& after->0.held_since() == entry.held_since()
                &&& !pressed ==> after == slots[i]
            })
            &&& !used_up(after, pressed)
            &&& slot_after_key(after, pressed) == after
        }),
{
}

/// How far what is left to do may still take a conversation.
pub open spec fn rank_after(after: After) -> int {
    match after {
        After::Return => 0,
        After::PressModifier(_) | After::InsertLayer(_) | After::PressTapKey(_) => 1,
        After::CheckLayer(_) => 3,
        After::SweepForTapKey { index, .. } => 3 + slots_from(index as int),
        After::SweepOnLayerEvent { index, .. } => 1 + slots_from(index as int),
        After::SweepOnTimeout { index, .. } => 1 + slots_from(index as int),
    }
}

/// How many slots there are from one on.
pub open spec fn slots_from(index: int) -> int {
    if index < MAX_ACTIVE_STICKY_KEYS {
        MAX_ACTIVE_STICKY_KEYS - index
    } else {
        0
    }
}

/// How far a conversation may still go from where it waits.
pub open spec fn rank(then: Continuation) -> int {
    match then {
        Continuation::Policy { .. } => 20,
        Continuation::LayerCount(_) => 4,
        Continuation::ReleaseModifiers { after, .. } => 2 * rank_after(after) + 1,
        Continuation::LiveRelease { .. } => 1,
        Continuation::Proceed(after) => 2 * rank_after(after),
    }
}

/// Whether a step ends the conversation or takes it below a bound.
spec fn below(step: Step, bound: int) -> bool {
    step matches Step::Call { then, .. } ==> 0 <= rank(then) < bound
}

/// A look at the clock goes on with fewer slots.
proof fn lemma_sweep_on_timeout_rank(slots: Slots, now: Instant, from: int)
    requires
        slots.len() == MAX_ACTIVE_STICKY_KEYS,
        0 <= from,
    ensures
        below(sweep_on_timeout(slots, now, from).1, 2 * (1 + slots_from(from))),
    decreases slots.len() - from,
{
    if from < slots.len() {
        match slots[from] {
            Some(entry) => if entry.disposition(now@) != DeadlineDisposition::Release {
                lemma_sweep_on_timeout_rank(
                    slots.update(from, Some(entry.polled(now@))),
                    now,
                    from + 1,
                );
            },
            None => lemma_sweep_on_timeout_rank(slots, now, from + 1),
        }
    }
}

/// What makes way for a tap key goes on with fewer slots.
proof fn lemma_sweep_for_tap_key_rank(slots: Slots, press: TapKeyPress, from: int)
    requires
        slots.len() == MAX_ACTIVE_STICKY_KEYS,
        0 <= from,
    ensures
        below(sweep_for_tap_key(slots, press, from).1, 2 * (3 + slots_from(from))),
{
    lemma_first_where(
        slots,
        from,
        |slot: Option<Entry>| slot is Some && !has_shape(slot, StickyKeyShape::TapKey),
    );
}

/// What is left to do leads to less.
proof fn lemma_proceed_rank(slots: Slots, after: After)
    requires
        slots.len() == MAX_ACTIVE_STICKY_KEYS,
    ensures
        below(proceed(slots, after).1, 2 * rank_after(after)),
{
    match after {
        After::SweepForTapKey { press, index } => lemma_sweep_for_tap_key_rank(
            slots,
            press,
            index as int,
        ),
        After::SweepOnLayerEvent { event, index } => lemma_first_where(
            slots,
            index as int,
            |slot: Option<Entry>| slot matches Some(entry) && entry.policy.release_mode.meets(event),
        ),
        After::SweepOnTimeout { now, index } => lemma_sweep_on_timeout_rank(slots, now, index as int),
        _ => {},
    }
}

/// Every conversation comes to its end: with each reply, whatever it is and whatever has become of
/// the held actions meanwhile, the place where it waits next has a smaller rank.
pub proof fn law_conversations_end(
    slots: Slots,
    keys_down: bool,
    sticky_contributed: ModifierCombination,
    then: Continuation,
    reply: Reply,
)
    requires
        slots_valid(slots),
    ensures
        resumed(slots, keys_down, sticky_contributed, then, reply).1 matches Step::Call {
            then: next,
            ..
        } ==> 0 <= rank(next) < rank(then),
{
    match (then, reply) {
        (
            Continuation::Policy { action, event, event_time, .. },
            Reply::Policy(policy),
        ) => {
            if let Action::KeyWithModifier(key, modifiers) = action {
                lemma_sweep_for_tap_key_rank(
                    slots,
                    TapKeyPress { key, modifiers, policy, event, event_time },
                    0,
                );
            }
        },
        (Continuation::ReleaseModifiers { after, .. }, Reply::NonStickyModifiers(_)) => {
            lemma_proceed_rank(slots, after);
        },
        (Continuation::Proceed(after), Reply::Done) => lemma_proceed_rank(slots, after),
        _ => {},
    }
}

/// The press of a modifier key always takes effect, short of a second tap that releases and of a
/// full set of producers: there is a slot for it, a modifier entry then counts its producer, and a
/// layer that is held stays as it is.
pub proof fn law_modifier_press_takes_effect(slots: Slots, press: ModifierPress)
    requires
        slots_valid(slots),
        coherent(slots),
        none_of(slots, StickyKeyShape::TapKey),
        shape_slot(slots, StickyKeyShape::PureMod) matches Some(slot)
            ==> !slots[slot]->0.double_tapped(press.event.pos, press.policy)
            && slots[slot]->0.effect->0.free_slot() is Some,
    ensures
        ({
            let after = press_modifier(slots, press).0;
            &&& shape_slot(after, StickyKeyShape::PureMod) is Some
            &&& after[shape_slot(after, StickyKeyShape::PureMod)->0]->0.effect->0.producers.contains(
                Some(press.producer()),
            )
            &&& forall|i: int|
                0 <= i < slots.len() && has_shape(slots[i], StickyKeyShape::Layer)
                    ==> #[trigger] after[i] == slots[i]
        }),
{
    let after = press_modifier(slots, press).0;
    lemma_shape_slot(slots, StickyKeyShape::PureMod);
    lemma_shape_slot(after, StickyKeyShape::PureMod);
    lemma_free_slot(slots);
    lemma_press_modifier_sound(slots, press);
    match shape_slot(slots, StickyKeyShape::PureMod) {
        Some(slot) => {
            let effect = slots[slot]->0.effect->0;
            lemma_first_where(
                effect.producers,
                0,
                |taken: Option<ModifierProducer>| taken is None,
            );
            assert(effect.pressed(press.producer()).producers[effect.free_slot()->0] == Some(
                press.producer(),
            ));
            assert(has_shape(after[slot], StickyKeyShape::PureMod));
        },
        None => {
            if free_slot(slots) is None {
                assert(slots[0] is Some && slots[1] is Some);
                assert(false);
            }
            let slot = free_slot(slots)->0;
            assert(has_shape(after[slot], StickyKeyShape::PureMod));
            assert(press.entry().effect->0.producers[0] == Some(press.producer()));
        },
    }
}

/// A new layer always finds a slot, is activated, and leaves held modifiers as they are.
pub proof fn law_layer_press_takes_effect(slots: Slots, press: LayerPress)
    requires
        slots_valid(slots),
        coherent(slots),
        none_of(slots, StickyKeyShape::TapKey),
        none_of(slots, StickyKeyShape::Layer),
    ensures
        ({
            let (after, step) = insert_layer(slots, press);
            &&& shape_slot(after, StickyKeyShape::Layer) is Some
            &&& after[shape_slot(after, StickyKeyShape::Layer)->0] == Some(press.entry())
            &&& step == last(Request::ActivateLayer { layer: press.layer })
            &&& forall|i: int|
                0 <= i < slots.len() && has_shape(slots[i], StickyKeyShape::PureMod)
                    ==> #[trigger] after[i] == slots[i]
        }),
{
    let after = insert_layer(slots, press).0;
    lemma_free_slot(slots);
    lemma_shape_slot(after, StickyKeyShape::Layer);
    if free_slot(slots) is None {
        assert(slots[0] is Some && slots[1] is Some);
        assert(false);
    }
    assert(has_shape(after[free_slot(slots)->0], StickyKeyShape::Layer));
}

/// A tap key that is tapped with nothing else held is the only entry afterwards, and its key goes
/// down.
pub proof fn law_tap_key_press_takes_effect(slots: Slots, press: TapKeyPress)
    requires
        slots_valid(slots),
        forall|i: int| 0 <= i < slots.len() ==> #[trigger] slots[i] is None,
    ensures
        ({
            let (after, step) = press_tap_key(slots, press);
            &&& after == slots.update(0, Some(press.entry()))
            &&& step == last(Request::ProcessKey { key: press.key, event: press.event })
        }),
{
    lemma_free_slot(slots);
    lemma_first_where_none(
        slots,
        0,
        |slot: Option<Entry>| has_shape(slot, StickyKeyShape::TapKey),
    );
    assert(slots[0] is None);
}

/// A layer that does not exist is never held.
pub proof fn law_missing_layer_is_not_held(slots: Slots, press: LayerPress, layers: int)
    requires
        press.layer >= layers,
    ensures
        check_layer(slots, press, layers).0 == slots,
{
}

/// The release of a modifier key whose producer is not down, be it late or of a press that was
/// rejected, changes nothing and asks for nothing.
pub proof fn law_stale_modifier_release_is_ignored(slots: Slots, keys_down: bool, press: ModifierPress)
    requires
        slots_valid(slots),
        !press.event.pressed,
        shape_slot(slots, StickyKeyShape::PureMod) matches Some(slot)
            ==> !slots[slot]->0.effect->0.producers.contains(Some(press.producer())),
    ensures
        modifier_effect(slots, keys_down, press) == (slots, Step::Done),
{
    lemma_shape_slot(slots, StickyKeyShape::PureMod);
    if let Some(slot) = shape_slot(slots, StickyKeyShape::PureMod) {
        law_stale_release_changes_nothing(
            slots[slot]->0.effect->0,
            press.producer(),
        );
        assert(slots.update(slot, Some(slots[slot]->0)) =~= slots);
    }
}

/// The release of modifiers goes by the identity of their producer, not by where the event comes
/// from: a combo is released by its slot, whichever of its keys goes up.
pub proof fn law_modifier_release_goes_by_identity(
    slots: Slots,
    keys_down: bool,
    press: ModifierPress,
    elsewhere: KeyboardEventPos,
)
    requires
        !press.event.pressed,
    ensures
        modifier_effect(
            slots,
            keys_down,
            ModifierPress { event: KeyboardEvent { pressed: false, pos: elsewhere }, ..press },
        ) == modifier_effect(slots, keys_down, press),
{
    let moved = ModifierPress { event: KeyboardEvent { pressed: false, pos: elsewhere }, ..press };
    assert(moved.producer() == press.producer());
}

/// The last producer that goes up while other physical keys are down ends the effect: nothing is
/// latched.
pub proof fn law_modifier_release_among_other_keys_ends_the_effect(
    slots: Slots,
    press: ModifierPress,
    slot: int,
)
    requires
        slots_valid(slots),
        !press.event.pressed,
        shape_slot(slots, StickyKeyShape::PureMod) == Some(slot),
        slots[slot]->0.effect->0.producers.contains(Some(press.producer())),
        !any_producer(slots[slot]->0.effect->0.released(press.producer()).producers),
    ensures
        ({
            let (after, step) = modifier_effect(slots, true, press);
            &&& after == slots.update(slot, None)
            &&& step == (Step::Call {
                request: Request::NonStickyModifiers,
                then: Continuation::LiveRelease {
                    old_effective: slots[slot]->0.modifiers(),
                    new_effective: ModifierCombination::none(),
                },
            })
        }),
{
    lemma_shape_slot(slots, StickyKeyShape::PureMod);
    law_release_removes_one_owner(slots[slot]->0.effect->0, press.producer());
    assert(modifier_effect(slots, true, press).0 =~= slots.update(slot, None));
}

/// A tap key can be tapped as often in a row as its policy says: until then each tap counts and
/// goes through, and the tap after that releases it instead.
pub proof fn law_tap_key_wears_out(slots: Slots, press: TapKeyPress, slot: int)
    requires
        slots_valid(slots),
        shape_slot(slots, StickyKeyShape::TapKey) == Some(slot),
        slots[slot]->0.repeat_count < u16::MAX || 0 < press.policy.max_repeat < u16::MAX,
    ensures
        ({
            let (after, step) = press_tap_key(slots, press);
            if press.policy.max_repeat == 0 || slots[slot]->0.repeat_count < press.policy.max_repeat {
                &&& after[slot] is Some
                &&& after[slot]->0.repeat_count == slots[slot]->0.repeat_count + 1
                &&& step == last(Request::ProcessKey { key: press.key, event: press.event })
            } else {
                &&& after[slot] is None
                &&& step == release_step(slots[slot]->0, After::Return)
            }
        }),
{
    lemma_shape_slot(slots, StickyKeyShape::TapKey);
}

/// A key that goes down sees every sticky modifier that a key going up sees.
pub proof fn law_presses_see_what_releases_see(slots: Slots, position: u8)
    requires
        position < 8,
    ensures
        reported_modifiers(slots, false).holds(position) ==> reported_modifiers(slots, true).holds(
            position,
        ),
    decreases slots.len(),
{
    lemma_holds(ModifierCombination::none(), ModifierCombination::none(), position);
    if slots.len() > 0 {
        law_presses_see_what_releases_see(slots.drop_last(), position);
        lemma_holds(
            reported_modifiers(slots.drop_last(), false),
            slot_modifiers(slots.last(), false),
            position,
        );
        lemma_holds(
            reported_modifiers(slots.drop_last(), true),
            slot_modifiers(slots.last(), true),
            position,
        );
    }
}

} // verus!
