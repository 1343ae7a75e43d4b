//! What holds of the lifecycle of a held action as a whole.

use vstd::prelude::*;

use crate::action::Action;
use crate::config::StickyKeyPolicy;
use crate::entry::{
    lemma_single_effective, DeadlineDisposition, Entry, PhysicalRelease, StickyPhase,
};
use crate::event::KeyboardEventPos;
use crate::modifier::{lemma_union, ModifierCombination};
use crate::producer_laws::{law_release_removes_one_owner, lemma_union_of_none};
use crate::producers::{any_producer, ModifierEffect, ModifierProducer, ModifierProducerSource};
use crate::time::on_clock;

verus! {

/// A producer that joins a chord does not restart it: the chord still counts from its first press,
/// whether or not another key has used it meanwhile.
pub proof fn law_joining_keeps_the_chord_start(
    entry: Entry,
    source: KeyboardEventPos,
    policy: StickyKeyPolicy,
    pressed_at: int,
    first_press: int,
)
    requires
        entry.valid(),
        entry.held_since() == Some(first_press),
    ensures
        entry.begun(source, policy, entry.chord_start(pressed_at), pressed_at).held_since() == Some(
            first_press,
        ),
        entry.foreign_marked().begun(
            source,
            policy,
            entry.foreign_marked().chord_start(pressed_at),
            pressed_at,
        ) == entry.begun(source, policy, entry.chord_start(pressed_at), pressed_at),
{
}

/// The use of a press by another key stops its deadline, and keeps the time since which it has been
/// held.
pub proof fn law_use_keeps_the_chord_start(entry: Entry)
    requires
        entry.awaits_release(),
    ensures
        entry.foreign_marked().phase == StickyPhase::Held,
        entry.foreign_marked().deadline() is None,
        entry.foreign_marked().held_since() == entry.held_since(),
{
}

/// The threshold of the latest press is measured from the first press of the chord, and is
/// inclusive: the release of the last producer ends the effect exactly where that much time has
/// passed by then, and latches it otherwise.
pub proof fn law_threshold_counts_from_the_chord_start(
    entry: Entry,
    source: KeyboardEventPos,
    policy: StickyKeyPolicy,
    pressed_at: int,
    released_at: int,
)
    requires
        entry.valid(),
        pressed_at <= released_at,
    ensures
        ({
            let start = entry.chord_start(pressed_at);
            let pressed = entry.begun(source, policy, start, pressed_at);
            pressed.release_outcome(None, released_at) == if policy.hold_deadline(start) matches Some(
                deadline,
            ) && deadline <= released_at {
                PhysicalRelease::Released
            } else {
                PhysicalRelease::Latched
            }
        }),
{
}

/// The same of a press that starts anew, with no chord to join.
pub proof fn law_threshold_counts_from_the_press(
    action: Action,
    source: KeyboardEventPos,
    policy: StickyKeyPolicy,
    modifier_source: ModifierProducerSource,
    pressed_at: int,
    released_at: int,
)
    requires
        pressed_at <= released_at,
    ensures
        ({
            let pressed = Entry::fresh(action, source, policy, pressed_at, modifier_source);
            pressed.release_outcome(None, released_at) == if policy.hold_deadline(pressed_at) matches Some(
                deadline,
            ) && deadline <= released_at {
                PhysicalRelease::Released
            } else {
                PhysicalRelease::Latched
            }
        }),
{
}

/// Without a threshold a press has no deadline, and however long it lasts it latches.
pub proof fn law_without_threshold_a_press_latches(
    action: Action,
    source: KeyboardEventPos,
    policy: StickyKeyPolicy,
    modifier_source: ModifierProducerSource,
    pressed_at: int,
    released_at: int,
)
    requires
        policy.release_after_hold.threshold is None,
    ensures
        ({
            let pressed = Entry::fresh(action, source, policy, pressed_at, modifier_source);
            &&& pressed.deadline() is None
            &&& pressed.held_since() == Some(pressed_at)
            &&& pressed.release_outcome(None, released_at) == PhysicalRelease::Latched
        }),
{
}

/// It makes no difference whether the clock was looked at before the next press: the entry after
/// that press is the same.
pub proof fn law_polling_does_not_affect_a_press(
    entry: Entry,
    source: KeyboardEventPos,
    policy: StickyKeyPolicy,
    polled_at: int,
    pressed_at: int,
)
    requires
        entry.valid(),
    ensures
        entry.polled(polled_at).begun(
            source,
            policy,
            entry.polled(polled_at).chord_start(pressed_at),
            pressed_at,
        ) == entry.begun(source, policy, entry.chord_start(pressed_at), pressed_at),
{
}

/// It makes no difference whether the clock was looked at before the next release: the outcome is
/// the same, and so is the entry where the release has an effect.
pub proof fn law_polling_does_not_affect_a_release(
    entry: Entry,
    owner: Option<KeyboardEventPos>,
    polled_at: int,
    released_at: int,
)
    requires
        entry.valid(),
        polled_at <= released_at,
    ensures
        entry.polled(polled_at).release_outcome(owner, released_at) == entry.release_outcome(
            owner,
            released_at,
        ),
        entry.release_outcome(owner, released_at) != PhysicalRelease::Ignored ==> entry.polled(
            polled_at,
        ).released(owner, released_at) == entry.released(owner, released_at),
{
}

/// It makes no difference whether the clock was looked at before another key was used.
pub proof fn law_polling_does_not_affect_a_use(entry: Entry, polled_at: int)
    ensures
        entry.polled(polled_at).foreign_marked() == entry.foreign_marked(),
{
}

/// A timeout ends only a latch: never an entry whose key is down, and never one that a buffered
/// press has claimed. Where the phase follows the producers, all of them are up.
pub proof fn law_timeout_ends_only_latches(entry: Entry, now: int)
    requires
        entry.valid(),
        entry.disposition(now) == DeadlineDisposition::Release,
    ensures
        entry.phase == StickyPhase::Latched,
        !entry.buffered_claim,
        entry.phase_follows_producers() ==> (entry.effect matches Some(effect) ==> !any_producer(
            effect.producers,
        )),
{
}

/// After a look at the clock that left the entry in place, no deadline of it is due.
pub proof fn law_polling_settles_what_is_due(entry: Entry, now: int)
    requires
        entry.disposition(now) != DeadlineDisposition::Release,
    ensures
        entry.polled(now).deadline() matches Some(deadline) ==> deadline > now,
{
}

/// A latch times out exactly when its timeout has passed since the release that latched it, and
/// never where the timeout is the longest span.
pub proof fn law_latch_times_out(
    entry: Entry,
    owner: Option<KeyboardEventPos>,
    released_at: int,
    now: int,
)
    requires
        entry.release_outcome(owner, released_at) == PhysicalRelease::Latched,
    ensures
        entry.released(owner, released_at).disposition(now) == if entry.policy.latch_deadline(
            released_at,
        ) matches Some(deadline) && deadline <= now {
            DeadlineDisposition::Release
        } else {
            DeadlineDisposition::Pending
        },
{
}

/// A press during which another key was used ends with the release of its last producer, whenever
/// that comes.
pub proof fn law_used_press_ends_on_release(entry: Entry, released_at: int)
    requires
        entry.awaits_release(),
    ensures
        entry.foreign_marked().release_outcome(None, released_at) == PhysicalRelease::Released,
{
}

/// A release that ends the effect leaves no timing behind, and a release of another key than the
/// entry's own leaves everything as it was.
pub proof fn law_release_clears_timing(entry: Entry, owner: Option<KeyboardEventPos>, released_at: int)
    ensures
        entry.release_outcome(owner, released_at) == PhysicalRelease::Released ==> entry.released(
            owner,
            released_at,
        ).timing_marker is None,
        owner is Some && owner != Some(entry.source) ==> entry.released(owner, released_at) == entry,
{
}

/// From the moment a buffered press claims a latch until that press is resolved, the latch cannot
/// time out; then its whole timeout starts anew, and nothing else has changed.
pub proof fn law_claim_suspends_the_timeout(
    entry: Entry,
    source: KeyboardEventPos,
    waiting: int,
    resolved_at: int,
)
    requires
        entry.claimable_by(source),
    ensures
        entry.claimed(source).disposition(waiting) == DeadlineDisposition::Pending,
        entry.claimed(source).claim_finished(resolved_at) == (Entry {
            timing_marker: entry.policy.latch_deadline(resolved_at),
            buffered_claim: false,
            ..entry
        }),
        entry.claimed(source).claim_finished(resolved_at).deadline() == entry.policy.latch_deadline(
            resolved_at,
        ),
{
}

/// A modifier key that goes down and up before its threshold leaves its modifiers latched: they
/// are in effect with no producer down, and the timeout runs.
pub proof fn law_modifier_tap_latches_its_modifiers(
    modifiers: ModifierCombination,
    source: KeyboardEventPos,
    policy: StickyKeyPolicy,
    modifier_source: ModifierProducerSource,
    pressed_at: int,
    released_at: int,
)
    requires
        pressed_at <= released_at,
        policy.hold_deadline(pressed_at) matches Some(deadline) ==> released_at < deadline,
    ensures
        ({
            let producer = ModifierProducer { source: modifier_source, modifiers };
            let pressed = Entry::fresh(
                Action::Modifier(modifiers),
                source,
                policy,
                pressed_at,
                modifier_source,
            );
            let up = pressed.without_producer(producer);
            let latched = up.released(None, released_at).retaining(modifiers);
            &&& pressed.modifiers() == modifiers
            &&& up.modifiers() == ModifierCombination::none()
            &&& up.release_outcome(None, released_at) == PhysicalRelease::Latched
            &&& latched.phase == StickyPhase::Latched
            &&& latched.modifiers() == modifiers
            &&& !any_producer(latched.effect->0.producers)
            &&& latched.deadline() == policy.latch_deadline(released_at)
        }),
{
    let producer = ModifierProducer { source: modifier_source, modifiers };
    let effect = ModifierEffect::single(producer);
    lemma_single_effective(producer);
    assert(effect.producers[0] == Some(producer));
    law_release_removes_one_owner(effect, producer);
    let empty = effect.released(producer);
    assert(empty.producers[0] is None);
    assert forall|i: int| 0 <= i < empty.producers.len() implies #[trigger] empty.producers[i] is None by {
        assert(i > 0 ==> empty.producers[i] == effect.producers[i]);
    }
    lemma_union_of_none(empty.producers, empty.retained);
    lemma_union_of_none(empty.producers, empty.retained | modifiers);
    lemma_union(modifiers, modifiers, modifiers);
}

/// Every operation on an entry keeps it valid, whatever the order in which they come. (Presses and
/// releases are given clock times, and the deadlines that they set are clock times.)
pub proof fn law_operations_keep_entries_valid(
    entry: Entry,
    source: KeyboardEventPos,
    owner: Option<KeyboardEventPos>,
    policy: StickyKeyPolicy,
    producer: ModifierProducer,
    modifiers: ModifierCombination,
    now: int,
)
    requires
        entry.valid(),
        on_clock(now),
        policy.hold_fits(now),
        policy.hold_fits(entry.chord_start(now)),
        entry.policy.latch_fits(now),
    ensures
        entry.begun(source, policy, now, now).valid(),
        entry.begun(source, policy, entry.chord_start(now), now).valid(),
        entry.released(owner, now).valid(),
        entry.foreign_marked().valid(),
        entry.claimed(source).valid(),
        entry.claim_finished(now).valid(),
        entry.polled(now).valid(),
        entry.effect is Some ==> {
            &&& entry.with_producer(producer).valid()
            &&& entry.without_producer(producer).valid()
            &&& entry.retaining(modifiers).valid()
        },
{
}

} // verus!
