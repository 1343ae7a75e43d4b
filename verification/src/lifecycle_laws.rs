//! What each event does to one held action, in terms of what can be seen of it.

use vstd::prelude::*;

use crate::action::Action;
use crate::config::{StickyKeyPolicy, StickyKeyReleaseMode, StickyKeyShape};
use crate::entry::{DeadlineDisposition, Entry, PhysicalRelease, StickyPhase};
use crate::event::KeyboardEventPos;
use crate::modifier::ModifierCombination;
use crate::observed::{
    another_holds, began, ends_on_release, is_modifier_action, is_second_tap, key_is_down,
    law_modifiers_are_sets, names, names_other_key, pressed_anew, same_but_timing, span_end,
    threshold_passed,
};
use crate::producer_laws::{law_effective_modifiers_have_an_owner, some_producer_holds};
use crate::producers::{
    ModifierEffect, ModifierProducer, ModifierProducerInsert, ModifierProducerRelease,
    ModifierProducerSource, MAX_STICKY_MODIFIER_PRODUCERS,
};
use crate::search::{lemma_first_where, lemma_first_where_is};
use crate::time::{deadline_fits, deadline_ticks, Duration};

verus! {

/// A span is over as many ticks after its start as it is long, so a longer one is over later, and
/// the longest never is. The clock can show that exactly where it does not lie past its last tick.
pub proof fn law_spans_last_as_long_as_they_say(start: int, span: Duration, longer: Duration)
    requires
        span.ticks < longer.ticks,
        start >= 0,
    ensures
        deadline_ticks(start, span) matches Some(end) && end - start == span.ticks,
        deadline_ticks(start, longer) matches Some(end) ==> end > deadline_ticks(start, span)->0,
        deadline_ticks(start, longer) is None <==> longer.ticks == u64::MAX,
        deadline_fits(start, span) <==> start + span.ticks <= u64::MAX,
        longer.ticks == u64::MAX ==> deadline_fits(start, longer),
{
}

/// A press counts as held once the threshold of its policy has passed, a latch times out once the
/// timeout has, and a policy without a threshold has no press count as held.
pub proof fn law_policies_set_threshold_and_timeout(policy: StickyKeyPolicy, start: int)
    requires
        start >= 0,
    ensures
        policy.latch_deadline(start) == span_end(start, policy.timeout),
        policy.release_after_hold.threshold matches Some(threshold) ==> policy.hold_deadline(start)
            == span_end(start, threshold),
        policy.release_after_hold.threshold is None ==> policy.hold_deadline(start) is None,
        policy.latch_fits(start) <==> (policy.timeout.ticks == u64::MAX || start
            + policy.timeout.ticks <= u64::MAX),
        policy.hold_fits(start) <==> (policy.release_after_hold.threshold matches Some(threshold)
            ==> (threshold.ticks == u64::MAX || start + threshold.ticks <= u64::MAX)),
{
}

/// Two release modes meet exactly where they have a bit in common, and each event has a bit of its
/// own.
pub proof fn law_release_modes_are_sets(mode: StickyKeyReleaseMode, other: StickyKeyReleaseMode)
    ensures
        mode.meets(other) <==> names(mode, other.bits),
        mode.meets(other) <==> other.meets(mode),
        mode.meets(StickyKeyReleaseMode::of_other_key(true)) <==> names(
            mode,
            StickyKeyReleaseMode::OTHER_KEY_PRESS,
        ),
        mode.meets(StickyKeyReleaseMode::of_other_key(false)) <==> names(
            mode,
            StickyKeyReleaseMode::OTHER_KEY_RELEASE,
        ),
        mode.meets(StickyKeyReleaseMode::of_double_tap()) <==> names(
            mode,
            StickyKeyReleaseMode::DOUBLE_TAP,
        ),
        StickyKeyReleaseMode::OTHER_KEY_PRESS & StickyKeyReleaseMode::OTHER_KEY_RELEASE == 0,
        (StickyKeyReleaseMode::OTHER_KEY_PRESS | StickyKeyReleaseMode::OTHER_KEY_RELEASE)
            & StickyKeyReleaseMode::DOUBLE_TAP == 0,
        (StickyKeyReleaseMode::OTHER_KEY_PRESS | StickyKeyReleaseMode::OTHER_KEY_RELEASE
            | StickyKeyReleaseMode::DOUBLE_TAP) & StickyKeyReleaseMode::LAYER_EXIT == 0,
{
    let (x, y) = (mode.bits, other.bits);
    assert(x & y == y & x) by (bit_vector);
    assert(0x01u8 & 0x02u8 == 0) by (bit_vector);
    assert((0x01u8 | 0x02u8) & 0x04u8 == 0) by (bit_vector);
    assert((0x01u8 | 0x02u8 | 0x04u8) & 0x08u8 == 0) by (bit_vector);
}

/// Sticky keys hold modifiers, layers and keys with modifiers, each as a kind of its own, and no
/// other action. Only modifiers, held or as keys, leave a tap key alone.
pub proof fn law_actions_have_their_kinds(action: Action)
    ensures
        action.shape() == Some(StickyKeyShape::PureMod) <==> action is Modifier,
        action.shape() == Some(StickyKeyShape::Layer) <==> action is LayerOn,
        action.shape() == Some(StickyKeyShape::TapKey) <==> action is KeyWithModifier,
        action.shape() is None <==> (action is Key || action is Other),
        action.preserves_tap_key() <==> is_modifier_action(action),
{
}

/// An entry shows what its action holds: a modifier action and a tap key their modifiers, a layer
/// action its layer.
pub proof fn law_entries_show_their_action(entry: Entry)
    ensures
        entry.shape() == entry.action.shape(),
        entry.action matches Action::Modifier(modifiers) ==> entry.modifiers() == modifiers,
        entry.action matches Action::KeyWithModifier(_, modifiers) ==> entry.modifiers() == modifiers,
        !(entry.action is Modifier) && !(entry.action is KeyWithModifier) ==> entry.modifiers().bits
            == 0,
        entry.action matches Action::LayerOn(layer) ==> entry.layer() == Some(layer),
        !(entry.action is LayerOn) ==> entry.layer() is None,
{
}

/// A new entry is a first press of its key, and a modifier action is held by that one producer.
pub proof fn law_new_entries_are_first_presses(
    action: Action,
    source: KeyboardEventPos,
    policy: StickyKeyPolicy,
    pressed_at: int,
    modifier_source: ModifierProducerSource,
)
    ensures
        ({
            let entry = Entry::fresh(action, source, policy, pressed_at, modifier_source);
            &&& pressed_anew(entry, source, policy, pressed_at, pressed_at)
            &&& entry.action == action
            &&& entry.repeat_count == 1
            &&& action is Modifier <==> entry.effect is Some
            &&& action matches Action::Modifier(modifiers) ==> {
                let effect = entry.effect->0;
                &&& effect.producers.len() == MAX_STICKY_MODIFIER_PRODUCERS
                &&& effect.producers[0] == Some(
                    ModifierProducer { source: modifier_source, modifiers },
                )
                &&& forall|i: int|
                    0 < i < effect.producers.len() ==> #[trigger] effect.producers[i] is None
                &&& effect.retained.bits == 0
            }
        }),
{
}

/// A further press leaves the entry as a press at that time does, whatever it was before, and with
/// the action and the owners that it had.
pub proof fn law_presses_start_anew(
    entry: Entry,
    source: KeyboardEventPos,
    policy: StickyKeyPolicy,
    start: int,
    now: int,
)
    ensures
        ({
            let pressed = entry.begun(source, policy, start, now);
            &&& pressed_anew(pressed, source, policy, start, now)
            &&& pressed.action == entry.action
            &&& pressed.effect == entry.effect
            &&& pressed.repeat_count == entry.repeat_count
        }),
{
}

/// An entry that was pressed remembers since when, also where its threshold has passed or another
/// key has used it, and until its release; a latched one does not. A modifier press that joins
/// counts from there.
pub proof fn law_presses_remember_when_they_began(
    entry: Entry,
    source: KeyboardEventPos,
    policy: StickyKeyPolicy,
    start: int,
    now: int,
    later: int,
    joined_at: int,
)
    requires
        pressed_anew(entry, source, policy, start, now),
    ensures
        entry.held_since() == Some(start),
        entry.polled(later).held_since() == Some(start),
        entry.foreign_marked().held_since() == Some(start),
        entry.polled(later).foreign_marked().held_since() == Some(start),
        entry.chord_start(joined_at) == start,
        entry.polled(later).chord_start(joined_at) == start,
        entry.foreign_marked().chord_start(joined_at) == start,
        entry.chord_start(joined_at) == began(entry, joined_at),
{
}

/// A press counts from the start of the chord that is down, and from itself where none is.
pub proof fn law_chords_begin_with_their_first_press(entry: Entry, now: int)
    ensures
        entry.chord_start(now) == began(entry, now),
        entry.phase == StickyPhase::Latched ==> entry.chord_start(now) == now,
        entry.held_since() matches Some(start) ==> entry.chord_start(now) == start,
{
}

/// The release of another key than the entry's own does nothing, nor does any release once the
/// entry has latched. A press that was used, or whose threshold has passed, ends. Any other press
/// latches, and its timeout runs from the release. Nothing else changes.
pub proof fn law_releases_end_or_latch(entry: Entry, owner: Option<KeyboardEventPos>, now: int)
    requires
        entry.phase == StickyPhase::Pressed ==> entry.policy.release_after_hold.threshold is Some,
    ensures
        ({
            let outcome = entry.release_outcome(owner, now);
            let after = entry.released(owner, now);
            let foreign = owner matches Some(position) && position != entry.source;
            &&& same_but_timing(entry, after)
            &&& outcome == PhysicalRelease::Ignored <==> foreign || entry.phase == StickyPhase::Latched
            &&& outcome == PhysicalRelease::Released <==> !foreign && ends_on_release(entry, now)
            &&& outcome == PhysicalRelease::Ignored ==> after == entry
            &&& outcome == PhysicalRelease::Released ==> {
                &&& after.timing_marker is None
                &&& after.phase == if entry.phase == StickyPhase::Held {
                    StickyPhase::Held
                } else {
                    StickyPhase::HoldQualified
                }
            }
            &&& outcome == PhysicalRelease::Latched ==> {
                &&& after.phase == StickyPhase::Latched
                &&& after.timing_marker == span_end(now, entry.policy.timeout)
            }
        }),
{
}

/// Another key that is pressed while the entry's own key is down leaves it held, with no wakeup and
/// with its start remembered; a latch and what is held already stay as they are.
pub proof fn law_uses_hold_what_is_down(entry: Entry, now: int)
    ensures
        ({
            let after = entry.foreign_marked();
            let down = key_is_down(entry) || entry.phase == StickyPhase::HoldQualified;
            &&& same_but_timing(entry, after)
            &&& entry.awaits_release() <==> down
            &&& entry.tap_is_down() <==> key_is_down(entry)
            &&& !down ==> after == entry
            &&& down ==> after.phase == StickyPhase::Held
            &&& down && entry.timing_marker is Some && (entry.phase == StickyPhase::Pressed
                ==> entry.policy.release_after_hold.threshold is Some) ==> after.timing_marker == Some(
                began(entry, now),
            )
        }),
{
}

/// Another key releases the entry exactly where the policy has the bit of its event.
pub proof fn law_policies_name_the_events_that_release(entry: Entry, pressed: bool)
    ensures
        entry.triggers_on(pressed) <==> names_other_key(entry.policy.release_mode, pressed),
{
}

/// A second tap is a press of the same key while the entry is latched, under a policy that has the
/// bit of a second tap.
pub proof fn law_second_taps_are_named_by_the_policy(
    entry: Entry,
    source: KeyboardEventPos,
    policy: StickyKeyPolicy,
)
    ensures
        entry.double_tapped(source, policy) <==> is_second_tap(entry, source, policy),
{
}

/// A buffered press claims a latch that another key's press releases, unless it is of the latch's
/// own key, and nothing else; a claimed latch has no wakeup.
pub proof fn law_buffered_presses_claim_latches(entry: Entry, source: KeyboardEventPos)
    ensures
        ({
            let claims = entry.phase == StickyPhase::Latched && entry.source != source && names(
                entry.policy.release_mode,
                StickyKeyReleaseMode::OTHER_KEY_PRESS,
            );
            let after = entry.claimed(source);
            &&& !claims ==> after == entry
            &&& claims ==> after.buffered_claim && after.timing_marker is None
            &&& after.action == entry.action
            &&& after.source == entry.source
            &&& after.policy == entry.policy
            &&& after.phase == entry.phase
            &&& after.repeat_count == entry.repeat_count
            &&& after.effect == entry.effect
        }),
{
}

/// The end of a buffered press gives a claimed latch its whole timeout again, counted from there,
/// and leaves what was not claimed alone. It can be carried out unless the clock has no tick for
/// the end of that timeout.
pub proof fn law_finished_claims_time_out_anew(entry: Entry, now: int)
    requires
        now >= 0,
    ensures
        ({
            let after = entry.claim_finished(now);
            &&& !entry.buffered_claim ==> after == entry
            &&& !after.buffered_claim
            &&& entry.buffered_claim ==> after.timing_marker == span_end(now, entry.policy.timeout)
            &&& after.action == entry.action
            &&& after.source == entry.source
            &&& after.policy == entry.policy
            &&& after.phase == entry.phase
            &&& after.repeat_count == entry.repeat_count
            &&& after.effect == entry.effect
            &&& entry.claim_can_finish(now) <==> (!entry.buffered_claim
                || entry.policy.timeout.ticks == u64::MAX || now + entry.policy.timeout.ticks
                <= u64::MAX)
        }),
{
}

/// Only presses before their threshold and latches wake anything up, at the time that they are
/// marked with. From that tick on a look at the clock ends a latch, and makes a press count as held
/// since it began; before it, and for any other entry, it does nothing.
pub proof fn law_deadlines_are_kept(entry: Entry, now: int)
    ensures
        ({
            let waits = entry.phase == StickyPhase::Pressed || entry.phase == StickyPhase::Latched;
            let due = waits && (entry.timing_marker matches Some(deadline) && deadline <= now);
            let after = entry.polled(now);
            &&& waits ==> entry.deadline() == entry.timing_marker
            &&& !waits ==> entry.deadline() is None
            &&& !due <==> entry.disposition(now) == DeadlineDisposition::Pending
            &&& due && entry.phase == StickyPhase::Latched <==> entry.disposition(now)
                == DeadlineDisposition::Release
            &&& threshold_passed(entry, now) <==> entry.disposition(now)
                == DeadlineDisposition::Deferred
            &&& !threshold_passed(entry, now) ==> after == entry
            &&& threshold_passed(entry, now) ==> {
                &&& same_but_timing(entry, after)
                &&& after.phase == StickyPhase::HoldQualified
                &&& entry.policy.release_after_hold.threshold matches Some(threshold)
                    ==> after.timing_marker == Some(entry.timing_marker->0 - threshold.ticks)
            }
        }),
{
}

/// The owners of a modifier entry change together with its action, which holds a modifier exactly
/// where an owner does; the rest of the entry has no part in it.
pub proof fn law_owners_make_the_action(
    entry: Entry,
    producer: ModifierProducer,
    modifiers: ModifierCombination,
    position: u8,
)
    requires
        entry.valid(),
        entry.effect is Some,
        position < 8,
    ensures
        forall|after: Entry|
            after == entry.with_producer(producer) || after == entry.without_producer(producer)
                || after == #[trigger] entry.retaining(modifiers) || after == entry ==> {
                &&& after.action is Modifier
                &&& after.effect is Some
                &&& after.modifiers().holds(position) <==> (after.effect->0.retained.holds(position)
                    || some_producer_holds(after.effect->0.producers, position))
                &&& after.source == entry.source
                &&& after.policy == entry.policy
                &&& after.phase == entry.phase
                &&& after.timing_marker == entry.timing_marker
                &&& after.buffered_claim == entry.buffered_claim
                &&& after.repeat_count == entry.repeat_count
            },
        entry.with_producer(producer).effect == Some(entry.effect->0.pressed(producer)),
        entry.without_producer(producer).effect == Some(entry.effect->0.released(producer)),
        entry.retaining(modifiers).effect->0.producers == entry.effect->0.producers,
        entry.retaining(modifiers).effect->0.retained.holds(position) <==> (
        entry.effect->0.retained.holds(position) || modifiers.holds(position)),
{
    law_effective_modifiers_have_an_owner(entry.effect->0, position);
    law_effective_modifiers_have_an_owner(entry.with_producer(producer).effect->0, position);
    law_effective_modifiers_have_an_owner(entry.without_producer(producer).effect->0, position);
    law_effective_modifiers_have_an_owner(entry.retaining(modifiers).effect->0, position);
    law_modifiers_are_sets(entry.effect->0.retained, modifiers, position);
}

/// A producer that goes down takes the first free slot and nothing else, and there is none only
/// where all slots are taken.
pub proof fn law_producers_take_the_first_free_slot(
    effect: ModifierEffect,
    producer: ModifierProducer,
    free: int,
)
    ensures
        0 <= free < effect.producers.len() && effect.producers[free] is None && (forall|i: int|
            0 <= i < free ==> #[trigger] effect.producers[i] is Some) ==> {
            &&& effect.free_slot() == Some(free)
            &&& effect.press_outcome() == ModifierProducerInsert::Added
            &&& effect.pressed(producer).producers == effect.producers.update(free, Some(producer))
            &&& effect.pressed(producer).retained == effect.retained
        },
        (forall|i: int| 0 <= i < effect.producers.len() ==> #[trigger] effect.producers[i] is Some) ==> {
            &&& effect.free_slot() is None
            &&& effect.press_outcome() == ModifierProducerInsert::Full
            &&& effect.pressed(producer) == effect
        },
{
    let empty = |slot: Option<ModifierProducer>| slot is None;
    lemma_first_where(effect.producers, 0, empty);
    if 0 <= free < effect.producers.len() && effect.producers[free] is None && (forall|i: int|
        0 <= i < free ==> #[trigger] effect.producers[i] is Some) {
        lemma_first_where_is(effect.producers, 0, empty, free);
    }
}

/// Emptying a slot is answered with the producer that was in it, with what was in effect before and
/// what the other owners keep in effect, and with whether another producer is down.
pub proof fn law_emptied_slots_are_told_of(effect: ModifierEffect, slot: int, position: u8)
    requires
        0 <= slot < effect.producers.len(),
        effect.producers[slot] is Some,
        position < 8,
    ensures
        effect.without_slot(slot).producers == effect.producers.update(slot, None),
        effect.without_slot(slot).retained == effect.retained,
        effect.slot_release(slot) matches ModifierProducerRelease::Released {
            removed,
            old_effective,
            new_effective,
            producers_remain,
        } && {
            &&& removed == effect.producers[slot]->0
            &&& old_effective.holds(position) <==> (effect.retained.holds(position)
                || some_producer_holds(effect.producers, position))
            &&& new_effective.holds(position) <==> (effect.retained.holds(position)
                || another_holds(effect.producers, slot, position))
            &&& producers_remain <==> exists|i: int|
                0 <= i < effect.producers.len() && i != slot && #[trigger] effect.producers[i] is Some
        },
{
    law_effective_modifiers_have_an_owner(effect, position);
    let emptied = effect.without_slot(slot);
    law_effective_modifiers_have_an_owner(emptied, position);
    lemma_others_hold(effect.producers, slot, position);
    assert forall|i: int| 0 <= i < effect.producers.len() && i != slot implies effect.producers[i]
        == #[trigger] emptied.producers[i] by {}
    if exists|i: int| 0 <= i < effect.producers.len() && i != slot && #[trigger] effect.producers[i] is Some {
        let i = choose|i: int|
            0 <= i < effect.producers.len() && i != slot && #[trigger] effect.producers[i] is Some;
        assert(emptied.producers[i] is Some);
    }
}

/// With one slot emptied, what some producer holds is what another one than that of the slot held.
pub proof fn lemma_others_hold(producers: Seq<Option<ModifierProducer>>, gone: int, position: u8)
    requires
        0 <= gone < producers.len(),
    ensures
        some_producer_holds(producers.update(gone, None), position) == another_holds(
            producers,
            gone,
            position,
        ),
{
    let left = producers.update(gone, None);
    if some_producer_holds(left, position) {
        let i = choose|i: int|
            0 <= i < left.len() && (#[trigger] left[i] matches Some(producer)
                && producer.modifiers.holds(position));
        assert(producers[i] == left[i]);
    }
    if another_holds(producers, gone, position) {
        let i = choose|i: int|
            0 <= i < producers.len() && i != gone && (#[trigger] producers[i] matches Some(producer)
                && producer.modifiers.holds(position));
        assert(left[i] == producers[i]);
    }
}

/// The release of a producer empties the first slot that it has taken, and no other.
pub proof fn law_producers_leave_their_first_slot(
    effect: ModifierEffect,
    producer: ModifierProducer,
    gone: int,
)
    requires
        0 <= gone < effect.producers.len(),
        effect.producers[gone] == Some(producer),
        forall|i: int| 0 <= i < gone ==> #[trigger] effect.producers[i] != Some(producer),
    ensures
        effect.slot_of(producer) == Some(gone),
        effect.released(producer).producers == effect.producers.update(gone, None),
        effect.released(producer).retained == effect.retained,
        effect.release(producer) == effect.slot_release(gone),
{
    lemma_first_where_is(
        effect.producers,
        0,
        |slot: Option<ModifierProducer>| slot == Some(producer),
        gone,
    );
}

} // verus!
