//! What can be seen of held actions and of a conversation: which action a slot holds, when a span
//! is over, what a step asks for and how the conversation goes on after the reply.

use vstd::prelude::*;

use crate::action::{Action, KeyCode};
use crate::config::{StickyKeyPolicy, StickyKeyReleaseMode, StickyKeyShape};
use crate::entry::{Entry, StickyPhase};
use crate::event::{KeyboardEvent, KeyboardEventPos};
use crate::machine::{
    check_layer, lost_by_host, proceed, released_slot, resumed, After, Continuation, LayerPress,
    Reply, Request, Step,
};
use crate::modifier::ModifierCombination;
use crate::producers::ModifierProducer;
use crate::search::{lemma_first_where_is, lemma_first_where_none};
use crate::state::{has_shape, shape_slot, slots_valid, Slots};
use crate::time::Duration;

verus! {

/// Whether a release mode has the bit of an event.
pub open spec fn names(mode: StickyKeyReleaseMode, event: u8) -> bool {
    mode.bits & event != 0
}

/// Whether a release mode has the bit of another key that goes down (`pressed`) or up.
pub open spec fn names_other_key(mode: StickyKeyReleaseMode, pressed: bool) -> bool {
    if pressed {
        names(mode, StickyKeyReleaseMode::OTHER_KEY_PRESS)
    } else {
        names(mode, StickyKeyReleaseMode::OTHER_KEY_RELEASE)
    }
}

/// When a span that begins at tick `start` is over; the longest span never is.
pub open spec fn span_end(start: int, span: Duration) -> Option<int> {
    if span.ticks == u64::MAX {
        None
    } else {
        Some(start + span.ticks)
    }
}

/// Whether the entry is in the state of a press at tick `now`, of the key at `source` under a
/// policy, that counts from tick `start`: the key is down, no buffered press has claimed it, and
/// either the threshold lies ahead and wakes it up, or the entry remembers its start.
pub open spec fn pressed_anew(
    entry: Entry,
    source: KeyboardEventPos,
    policy: StickyKeyPolicy,
    start: int,
    now: int,
) -> bool {
    &&& entry.source == source
    &&& entry.policy == policy
    &&& !entry.buffered_claim
    &&& match policy.release_after_hold.threshold {
        Some(threshold) if threshold.ticks < u64::MAX => if now < start + threshold.ticks {
            entry.phase == StickyPhase::Pressed && entry.timing_marker == Some(
                start + threshold.ticks,
            )
        } else {
            entry.phase == StickyPhase::HoldQualified && entry.timing_marker == Some(start)
        },
        _ => entry.phase == StickyPhase::PressDeadlineInactive && entry.timing_marker == Some(start),
    }
}

/// Whether the key of the entry is down and its own release is still to come.
pub open spec fn key_is_down(entry: Entry) -> bool {
    entry.phase == StickyPhase::Pressed || entry.phase == StickyPhase::PressDeadlineInactive
}

/// Whether the threshold of a pressed entry has passed by tick `now`.
pub open spec fn threshold_passed(entry: Entry, now: int) -> bool {
    entry.phase == StickyPhase::Pressed && (entry.timing_marker matches Some(deadline) && deadline
        <= now)
}

/// Whether the release of the entry's key at tick `now` ends its effect rather than latching it.
pub open spec fn ends_on_release(entry: Entry, now: int) -> bool {
    ||| entry.phase == StickyPhase::Held
    ||| entry.phase == StickyPhase::HoldQualified
    ||| threshold_passed(entry, now)
}

/// The tick from which a press at tick `now` that joins the entry counts.
pub open spec fn began(entry: Entry, now: int) -> int {
    match (entry.phase, entry.timing_marker, entry.policy.release_after_hold.threshold) {
        (StickyPhase::Latched, _, _) => now,
        (_, None, _) => now,
        (StickyPhase::Pressed, Some(deadline), Some(threshold)) => deadline - threshold.ticks,
        (StickyPhase::Pressed, Some(_), None) => now,
        (_, Some(start), _) => start,
    }
}

/// Whether a press of the key at `source` under a policy is a second tap that releases the entry.
pub open spec fn is_second_tap(entry: Entry, source: KeyboardEventPos, policy: StickyKeyPolicy) -> bool {
    &&& entry.phase == StickyPhase::Latched
    &&& entry.source == source
    &&& names(policy.release_mode, StickyKeyReleaseMode::DOUBLE_TAP)
}

/// Whether two entries agree in all that phases and timing have no part in.
pub open spec fn same_but_timing(a: Entry, b: Entry) -> bool {
    &&& a.action == b.action
    &&& a.source == b.source
    &&& a.policy == b.policy
    &&& a.repeat_count == b.repeat_count
    &&& a.buffered_claim == b.buffered_claim
    &&& a.effect == b.effect
}

/// Whether the slot holds modifiers.
pub open spec fn holds_modifiers(slot: Option<Entry>) -> bool {
    slot matches Some(entry) && entry.action is Modifier
}

/// Whether the slot holds a layer.
pub open spec fn holds_layer(slot: Option<Entry>) -> bool {
    slot matches Some(entry) && entry.action is LayerOn
}

/// Whether the slot holds a tap key.
pub open spec fn holds_tap_key(slot: Option<Entry>) -> bool {
    slot matches Some(entry) && entry.action is KeyWithModifier
}

/// Whether the slot is the first that holds modifiers.
pub open spec fn modifiers_at(slots: Slots, slot: int) -> bool {
    &&& 0 <= slot < slots.len()
    &&& holds_modifiers(slots[slot])
    &&& forall|i: int| 0 <= i < slot ==> !holds_modifiers(#[trigger] slots[i])
}

/// Whether the slot is the first that holds a layer.
pub open spec fn layer_at(slots: Slots, slot: int) -> bool {
    &&& 0 <= slot < slots.len()
    &&& holds_layer(slots[slot])
    &&& forall|i: int| 0 <= i < slot ==> !holds_layer(#[trigger] slots[i])
}

/// Whether the slot is the first that holds a tap key.
pub open spec fn tap_key_at(slots: Slots, slot: int) -> bool {
    &&& 0 <= slot < slots.len()
    &&& holds_tap_key(slots[slot])
    &&& forall|i: int| 0 <= i < slot ==> !holds_tap_key(#[trigger] slots[i])
}

/// Whether no slot holds modifiers.
pub open spec fn no_modifiers(slots: Slots) -> bool {
    forall|i: int| 0 <= i < slots.len() ==> !holds_modifiers(#[trigger] slots[i])
}

/// Whether no slot holds a layer.
pub open spec fn no_layer(slots: Slots) -> bool {
    forall|i: int| 0 <= i < slots.len() ==> !holds_layer(#[trigger] slots[i])
}

/// Whether no slot holds a tap key.
pub open spec fn no_tap_key(slots: Slots) -> bool {
    forall|i: int| 0 <= i < slots.len() ==> !holds_tap_key(#[trigger] slots[i])
}

/// Whether the slot is the first that is free.
pub open spec fn free_at(slots: Slots, slot: int) -> bool {
    &&& 0 <= slot < slots.len()
    &&& slots[slot] is None
    &&& forall|i: int| 0 <= i < slot ==> #[trigger] slots[i] is Some
}

/// Whether no slot is free.
pub open spec fn all_taken(slots: Slots) -> bool {
    forall|i: int| 0 <= i < slots.len() ==> #[trigger] slots[i] is Some
}

/// Whether nothing but one slot may have changed.
pub open spec fn changed_at(before: Slots, after: Slots, slot: int) -> bool {
    &&& after.len() == before.len()
    &&& forall|i: int| 0 <= i < before.len() && i != slot ==> #[trigger] after[i] == before[i]
}

/// Whether an action is a modifier, be it held or the key of one.
pub open spec fn is_modifier_action(action: Action) -> bool {
    action is Modifier || (action matches Action::Key(KeyCode::Hid(key)) && 0xE0 <= key.usage <= 0xE7)
}

/// Whether some producer other than that of one slot holds a modifier.
pub open spec fn another_holds(producers: Seq<Option<ModifierProducer>>, gone: int, position: u8) -> bool {
    exists|i: int|
        0 <= i < producers.len() && i != gone && (#[trigger] producers[i] matches Some(producer)
            && producer.modifiers.holds(position))
}

/// Whether the host is told of a modifier on account of sticky keys that nothing else holds.
pub open spec fn host_loses(
    modifiers: ModifierCombination,
    sticky_contributed: ModifierCombination,
    non_sticky: ModifierCombination,
) -> bool {
    exists|position: u8|
        position < 8 && #[trigger] modifiers.holds(position) && sticky_contributed.holds(position)
            && !non_sticky.holds(position)
}

/// Whether the conversation, once what it asked for is done, goes on in a given way from whatever
/// slots there are by then.
pub open spec fn goes_on(then: Continuation, next: spec_fn(Slots) -> (Slots, Step)) -> bool {
    forall|slots: Slots, keys_down: bool, sticky_contributed: ModifierCombination| #[trigger]
        resumed(slots, keys_down, sticky_contributed, then, Reply::Done) == next(slots)
}

/// The end of a conversation.
pub open spec fn the_end() -> spec_fn(Slots) -> (Slots, Step) {
    |slots: Slots| (slots, Step::Done)
}

/// Whether a step asks for one thing to be done, and that is the end.
pub open spec fn asks_only(step: Step, request: Request) -> bool {
    step matches Step::Call { request: asked, then } && asked == request && goes_on(then, the_end())
}

/// Whether a step ends the effect of an entry, and the conversation then goes on in a given way. A
/// layer is deactivated. A tap key whose key is down lets that key go up; otherwise a report
/// without its modifiers is sent. Of modifiers the host is told exactly where it loses one.
pub open spec fn ends_effect(entry: Entry, step: Step, next: spec_fn(Slots) -> (Slots, Step)) -> bool {
    match entry.action {
        Action::LayerOn(layer) => step matches Step::Call { request, then } && request == (
        Request::DeactivateLayer { layer }) && goes_on(then, next),
        Action::KeyWithModifier(key, _) => step matches Step::Call { request, then } && request
            == if key_is_down(entry) {
            Request::ProcessKey { key, event: KeyboardEvent { pressed: false, pos: entry.source } }
        } else {
            Request::SendReport { pressed: false }
        } && goes_on(then, next),
        Action::Modifier(modifiers) => step matches Step::Call { request, then } && request
            == Request::NonStickyModifiers && forall|
            slots: Slots,
            keys_down: bool,
            sticky_contributed: ModifierCombination,
            non_sticky: ModifierCombination,
        |
            modifiers_end(
                modifiers,
                sticky_contributed,
                non_sticky,
                slots,
                #[trigger] resumed(
                    slots,
                    keys_down,
                    sticky_contributed,
                    then,
                    Reply::NonStickyModifiers(non_sticky),
                ),
                next,
            ),
        _ => false,
    }
}

/// Whether the end of modifiers, once it is known what else holds modifiers, is told to the host
/// exactly where it loses one, and the conversation then goes on in a given way.
pub open spec fn modifiers_end(
    modifiers: ModifierCombination,
    sticky_contributed: ModifierCombination,
    non_sticky: ModifierCombination,
    slots: Slots,
    outcome: (Slots, Step),
    next: spec_fn(Slots) -> (Slots, Step),
) -> bool {
    if host_loses(modifiers, sticky_contributed, non_sticky) {
        &&& outcome.0 == slots
        &&& outcome.1 matches Step::Call { request, then } && request == (Request::SendReport {
            pressed: false,
        }) && goes_on(then, next)
    } else {
        outcome == next(slots)
    }
}

/// Whether a step has the host told that sticky modifiers changed from `old` to `new`, next to
/// whatever else holds modifiers, and that is the end.
pub open spec fn tells_host(step: Step, old_effective: ModifierCombination, new_effective: ModifierCombination) -> bool {
    step matches Step::Call { request, then } && request == Request::NonStickyModifiers && forall|
        slots: Slots,
        keys_down: bool,
        sticky_contributed: ModifierCombination,
        non_sticky: ModifierCombination,
    |
        live_release(
            old_effective,
            new_effective,
            non_sticky,
            slots,
            #[trigger] resumed(
                slots,
                keys_down,
                sticky_contributed,
                then,
                Reply::NonStickyModifiers(non_sticky),
            ),
        )
}

/// Whether the host is told of a change of sticky modifiers, and that is the end.
pub open spec fn live_release(
    old_effective: ModifierCombination,
    new_effective: ModifierCombination,
    non_sticky: ModifierCombination,
    slots: Slots,
    outcome: (Slots, Step),
) -> bool {
    &&& outcome.0 == slots
    &&& asks_only(
        outcome.1,
        Request::SendLiveRelease { old_effective, new_effective, non_sticky },
    )
}

/// Whether a step asks how many layers there are, and the press of a layer key goes on from there.
pub open spec fn counts_layers(step: Step, press: LayerPress) -> bool {
    step matches Step::Call { request, then } && request == Request::LayerCount && forall|
        slots: Slots,
        keys_down: bool,
        sticky_contributed: ModifierCombination,
        layers: usize,
    | #[trigger]
        resumed(slots, keys_down, sticky_contributed, then, Reply::LayerCount(layers)) == check_layer(
            slots,
            press,
            layers as int,
        )
}

/// A number other than zero has a bit.
proof fn lemma_some_bit(x: u8)
    ensures
        x != 0 <==> exists|position: u8| position < 8 && #[trigger] (x & (1u8 << position)) != 0,
{
    if x != 0 {
        assert(x & (1u8 << 0u8) != 0 || x & (1u8 << 1u8) != 0 || x & (1u8 << 2u8) != 0 || x & (1u8
            << 3u8) != 0 || x & (1u8 << 4u8) != 0 || x & (1u8 << 5u8) != 0 || x & (1u8 << 6u8) != 0
            || x & (1u8 << 7u8) != 0) by (bit_vector)
            requires
                x != 0,
        ;
    }
    if exists|position: u8| position < 8 && #[trigger] (x & (1u8 << position)) != 0 {
        let position = choose|position: u8| position < 8 && #[trigger] (x & (1u8 << position)) != 0;
        assert(x != 0) by (bit_vector)
            requires
                x & (1u8 << position) != 0,
        ;
    }
}

/// What both of two combinations hold, and what one does not hold, bit by bit.
pub proof fn law_modifiers_are_sets(a: ModifierCombination, b: ModifierCombination, position: u8)
    requires
        position < 8,
    ensures
        (a | b).holds(position) <==> a.holds(position) || b.holds(position),
        (a & b).holds(position) <==> a.holds(position) && b.holds(position),
        a.others().holds(position) <==> !a.holds(position),
        !ModifierCombination::none().holds(position),
{
    let (x, y) = (a.bits, b.bits);
    assert((x | y) & (1u8 << position) != 0 <==> (x & (1u8 << position) != 0 || y & (1u8 << position)
        != 0)) by (bit_vector);
    assert((x & y) & (1u8 << position) != 0 <==> (x & (1u8 << position) != 0 && y & (1u8 << position)
        != 0)) by (bit_vector);
    assert(!x & (1u8 << position) != 0 <==> x & (1u8 << position) == 0) by (bit_vector)
        requires
            position < 8,
    ;
    assert(0u8 & (1u8 << position) == 0) by (bit_vector);
}

/// Each of the eight modifiers has a bit position of its own.
pub proof fn law_modifiers_have_their_bits(position: u8)
    requires
        position < 8,
    ensures
        (ModifierCombination { bits: ModifierCombination::LCTRL }).holds(position) <==> position == 0,
        (ModifierCombination { bits: ModifierCombination::LSHIFT }).holds(position) <==> position == 1,
        (ModifierCombination { bits: ModifierCombination::LALT }).holds(position) <==> position == 2,
        (ModifierCombination { bits: ModifierCombination::LGUI }).holds(position) <==> position == 3,
        (ModifierCombination { bits: ModifierCombination::RCTRL }).holds(position) <==> position == 4,
        (ModifierCombination { bits: ModifierCombination::RSHIFT }).holds(position) <==> position == 5,
        (ModifierCombination { bits: ModifierCombination::RALT }).holds(position) <==> position == 6,
        (ModifierCombination { bits: ModifierCombination::RGUI }).holds(position) <==> position == 7,
{
    assert((0x01u8 & (1u8 << position) != 0 <==> position == 0) && (0x02u8 & (1u8 << position) != 0
        <==> position == 1) && (0x04u8 & (1u8 << position) != 0 <==> position == 2) && (0x08u8 & (1u8
        << position) != 0 <==> position == 3) && (0x10u8 & (1u8 << position) != 0 <==> position == 4)
        && (0x20u8 & (1u8 << position) != 0 <==> position == 5) && (0x40u8 & (1u8 << position) != 0
        <==> position == 6) && (0x80u8 & (1u8 << position) != 0 <==> position == 7)) by (bit_vector)
        requires
            position < 8,
    ;
}

/// The host loses a modifier exactly where what is lost by it is not empty.
proof fn lemma_host_loses(
    modifiers: ModifierCombination,
    sticky_contributed: ModifierCombination,
    non_sticky: ModifierCombination,
)
    ensures
        lost_by_host(modifiers, sticky_contributed, non_sticky) != ModifierCombination::none()
            <==> host_loses(modifiers, sticky_contributed, non_sticky),
{
    let both = modifiers & sticky_contributed;
    let lost = lost_by_host(modifiers, sticky_contributed, non_sticky);
    assert forall|position: u8| position < 8 implies (#[trigger] lost.holds(position) <==> (
    modifiers.holds(position) && sticky_contributed.holds(position) && !non_sticky.holds(position))) by {
        law_modifiers_are_sets(modifiers, sticky_contributed, position);
        law_modifiers_are_sets(both, non_sticky.others(), position);
        law_modifiers_are_sets(non_sticky, non_sticky, position);
    }
    lemma_some_bit(lost.bits);
    if host_loses(modifiers, sticky_contributed, non_sticky) {
        let position = choose|position: u8|
            position < 8 && #[trigger] modifiers.holds(position) && sticky_contributed.holds(position)
                && !non_sticky.holds(position);
        assert(lost.holds(position));
    }
    if lost != ModifierCombination::none() {
        let position = choose|position: u8|
            position < 8 && #[trigger] (lost.bits & (1u8 << position)) != 0;
        assert(lost.holds(position));
        assert(modifiers.holds(position));
    }
}

/// The step of an entry that is taken out ends its effect, and the conversation goes on with what
/// was left to do.
pub proof fn lemma_released_slot(
    slots: Slots,
    slot: int,
    after: After,
    next: spec_fn(Slots) -> (Slots, Step),
)
    requires
        slots_valid(slots),
        0 <= slot < slots.len(),
        slots[slot] is Some,
        forall|later: Slots| #[trigger] proceed(later, after) == next(later),
    ensures
        released_slot(slots, slot, after).0[slot] is None,
        changed_at(slots, released_slot(slots, slot, after).0, slot),
        ends_effect(slots[slot]->0, released_slot(slots, slot, after).1, next),
{
    assert forall|
        modifiers: ModifierCombination,
        sticky_contributed: ModifierCombination,
        non_sticky: ModifierCombination,
    | (#[trigger] lost_by_host(modifiers, sticky_contributed, non_sticky)
        != ModifierCombination::none()) == host_loses(modifiers, sticky_contributed, non_sticky) by {
        lemma_host_loses(modifiers, sticky_contributed, non_sticky);
    }
}

/// Nothing is left to do at the end.
pub proof fn lemma_the_end()
    ensures
        forall|later: Slots| #[trigger] proceed(later, After::Return) == the_end()(later),
{
}

/// The slot of a kind is the first that holds an action of that kind.
pub proof fn lemma_kinds(slots: Slots, slot: int)
    ensures
        modifiers_at(slots, slot) ==> shape_slot(slots, StickyKeyShape::PureMod) == Some(slot),
        layer_at(slots, slot) ==> shape_slot(slots, StickyKeyShape::Layer) == Some(slot),
        tap_key_at(slots, slot) ==> shape_slot(slots, StickyKeyShape::TapKey) == Some(slot),
        no_modifiers(slots) ==> shape_slot(slots, StickyKeyShape::PureMod) is None,
        no_layer(slots) ==> shape_slot(slots, StickyKeyShape::Layer) is None,
        no_tap_key(slots) ==> shape_slot(slots, StickyKeyShape::TapKey) is None,
{
    assert forall|i: int| 0 <= i < slots.len() implies {
        &&& has_shape(#[trigger] slots[i], StickyKeyShape::PureMod) <==> holds_modifiers(slots[i])
        &&& has_shape(slots[i], StickyKeyShape::Layer) <==> holds_layer(slots[i])
        &&& has_shape(slots[i], StickyKeyShape::TapKey) <==> holds_tap_key(slots[i])
    } by {}
    let modifier = |held: Option<Entry>| has_shape(held, StickyKeyShape::PureMod);
    let layer = |held: Option<Entry>| has_shape(held, StickyKeyShape::Layer);
    let tap_key = |held: Option<Entry>| has_shape(held, StickyKeyShape::TapKey);
    if modifiers_at(slots, slot) {
        lemma_first_where_is(slots, 0, modifier, slot);
    }
    if layer_at(slots, slot) {
        lemma_first_where_is(slots, 0, layer, slot);
    }
    if tap_key_at(slots, slot) {
        lemma_first_where_is(slots, 0, tap_key, slot);
    }
    if no_modifiers(slots) {
        lemma_first_where_none(slots, 0, modifier);
    }
    if no_layer(slots) {
        lemma_first_where_none(slots, 0, layer);
    }
    if no_tap_key(slots) {
        lemma_first_where_none(slots, 0, tap_key);
    }
}

} // verus!
