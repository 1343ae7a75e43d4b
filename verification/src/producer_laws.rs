//! What holds of the ownership of sticky modifiers as a whole.

use vstd::prelude::*;

use vstd::seq_lib::to_multiset_update;

use crate::modifier::{lemma_holds, ModifierCombination};
use crate::producers::{
    any_producer, union_of, ModifierEffect, ModifierProducer, ModifierProducerRelease,
};
use crate::search::lemma_first_where;

verus! {

/// Whether some producer in the slots holds the modifier of a bit position.
pub open spec fn some_producer_holds(producers: Seq<Option<ModifierProducer>>, position: u8) -> bool {
    exists|i: int|
        0 <= i < producers.len() && (#[trigger] producers[i] matches Some(producer)
            && producer.modifiers.holds(position))
}

/// Two combinations that hold the same modifiers are the same.
proof fn lemma_same_modifiers(a: ModifierCombination, b: ModifierCombination)
    requires
        forall|position: u8| position < 8 ==> a.holds(position) == #[trigger] b.holds(position),
    ensures
        a == b,
{
    let (x, y) = (a.bits, b.bits);
    assert(a.holds(0) == b.holds(0));
    assert(a.holds(1) == b.holds(1));
    assert(a.holds(2) == b.holds(2));
    assert(a.holds(3) == b.holds(3));
    assert(a.holds(4) == b.holds(4));
    assert(a.holds(5) == b.holds(5));
    assert(a.holds(6) == b.holds(6));
    assert(a.holds(7) == b.holds(7));
    assert(x == y) by (bit_vector)
        requires
            (x & (1u8 << 0u8) != 0) == (y & (1u8 << 0u8) != 0),
            (x & (1u8 << 1u8) != 0) == (y & (1u8 << 1u8) != 0),
            (x & (1u8 << 2u8) != 0) == (y & (1u8 << 2u8) != 0),
            (x & (1u8 << 3u8) != 0) == (y & (1u8 << 3u8) != 0),
            (x & (1u8 << 4u8) != 0) == (y & (1u8 << 4u8) != 0),
            (x & (1u8 << 5u8) != 0) == (y & (1u8 << 5u8) != 0),
            (x & (1u8 << 6u8) != 0) == (y & (1u8 << 6u8) != 0),
            (x & (1u8 << 7u8) != 0) == (y & (1u8 << 7u8) != 0),
    ;
}

/// A union holds a modifier exactly where its start or one of its producers does.
proof fn lemma_union_of(
    producers: Seq<Option<ModifierProducer>>,
    start: ModifierCombination,
    position: u8,
)
    requires
        position < 8,
    ensures
        union_of(producers, start).holds(position) == (start.holds(position)
            || some_producer_holds(producers, position)),
    decreases producers.len(),
{
    if producers.len() > 0 {
        let rest = producers.drop_last();
        lemma_union_of(rest, start, position);
        match producers.last() {
            Some(producer) => lemma_holds(union_of(rest, start), producer.modifiers, position),
            None => {},
        }
        if some_producer_holds(rest, position) {
            let i = choose|i: int|
                0 <= i < rest.len() && (#[trigger] rest[i] matches Some(producer)
                    && producer.modifiers.holds(position));
            assert(producers[i] == rest[i]);
        }
        if some_producer_holds(producers, position) {
            let i = choose|i: int|
                0 <= i < producers.len() && (#[trigger] producers[i] matches Some(producer)
                    && producer.modifiers.holds(position));
            assert(i < rest.len() ==> rest[i] == producers[i]);
        }
        assert(producers[producers.len() - 1] == producers.last());
    }
}

/// A modifier is in effect exactly while it is retained or some producer that is down holds it: a
/// release takes away no bit that another owner shares, and leaves none without an owner.
pub proof fn law_effective_modifiers_have_an_owner(effect: ModifierEffect, position: u8)
    requires
        position < 8,
    ensures
        effect.effective().holds(position) == (effect.retained.holds(position)
            || some_producer_holds(effect.producers, position)),
{
    lemma_union_of(effect.producers, effect.retained, position);
}

/// Effects whose slots hold the same producers in any order, with the same modifiers retained, have
/// the same modifiers in effect.
pub proof fn law_slot_order_does_not_matter(a: ModifierEffect, b: ModifierEffect)
    requires
        a.retained == b.retained,
        a.producers.to_multiset() == b.producers.to_multiset(),
    ensures
        a.effective() == b.effective(),
{
    assert forall|position: u8| position < 8 implies a.effective().holds(position)
        == #[trigger] b.effective().holds(position) by {
        law_effective_modifiers_have_an_owner(a, position);
        law_effective_modifiers_have_an_owner(b, position);
        lemma_same_owners_hold(a.producers, b.producers, position);
        lemma_same_owners_hold(b.producers, a.producers, position);
    }
    lemma_same_modifiers(a.effective(), b.effective());
}

/// What some producer of `a` holds, some producer of `b` holds, where the two have the same
/// producers.
proof fn lemma_same_owners_hold(
    a: Seq<Option<ModifierProducer>>,
    b: Seq<Option<ModifierProducer>>,
    position: u8,
)
    requires
        a.to_multiset() == b.to_multiset(),
    ensures
        some_producer_holds(a, position) ==> some_producer_holds(b, position),
{
    if some_producer_holds(a, position) {
        let i = choose|i: int|
            0 <= i < a.len() && (#[trigger] a[i] matches Some(producer) && producer.modifiers.holds(
                position,
            ));
        a.to_multiset_ensures();
        b.to_multiset_ensures();
        assert(a.contains(a[i]));
        assert(b.to_multiset().count(a[i]) > 0);
        assert(b.contains(a[i]));
        let j = choose|j: int| 0 <= j < b.len() && b[j] == a[i];
        assert(b[j] is Some);
    }
}

/// A press that finds a free slot adds one owner and changes no other.
pub proof fn law_press_adds_one_owner(effect: ModifierEffect, producer: ModifierProducer)
    requires
        effect.producers.contains(None),
    ensures
        effect.pressed(producer).producers.to_multiset() == effect.producers.to_multiset().insert(
            Some(producer),
        ).remove(None),
        effect.pressed(producer).retained == effect.retained,
        forall|i: int|
            0 <= i < effect.producers.len() && effect.producers[i] is Some
                ==> #[trigger] effect.pressed(producer).producers[i] == effect.producers[i],
{
    let free = |slot: Option<ModifierProducer>| slot is None;
    lemma_first_where(effect.producers, 0, free);
    let i = choose|i: int| 0 <= i < effect.producers.len() && effect.producers[i] == None::<ModifierProducer>;
    assert(free(effect.producers[i]));
    to_multiset_update(effect.producers, effect.free_slot()->0, Some(producer));
}

/// A press that finds no free slot changes nothing at all.
pub proof fn law_press_at_capacity_changes_nothing(effect: ModifierEffect, producer: ModifierProducer)
    requires
        !effect.producers.contains(None),
    ensures
        effect.free_slot() is None,
        effect.pressed(producer) == effect,
{
    let free = |slot: Option<ModifierProducer>| slot is None;
    lemma_first_where(effect.producers, 0, free);
    if let Some(i) = effect.free_slot() {
        assert(effect.producers[i] == None::<ModifierProducer>);
    }
}

/// The release of a producer that is down takes out that one owner, says so, and leaves every
/// other slot as it was, whether or not other owners hold the same modifiers.
pub proof fn law_release_removes_one_owner(effect: ModifierEffect, producer: ModifierProducer)
    requires
        effect.producers.contains(Some(producer)),
    ensures
        effect.released(producer).producers.to_multiset() == effect.producers.to_multiset().insert(
            None,
        ).remove(Some(producer)),
        effect.released(producer).retained == effect.retained,
        forall|i: int|
            0 <= i < effect.producers.len() && effect.producers[i] != Some(producer)
                ==> #[trigger] effect.released(producer).producers[i] == effect.producers[i],
        effect.release(producer) == (ModifierProducerRelease::Released {
            removed: producer,
            old_effective: effect.effective(),
            new_effective: effect.released(producer).effective(),
            producers_remain: any_producer(effect.released(producer).producers),
        }),
{
    let taken = |slot: Option<ModifierProducer>| slot == Some(producer);
    lemma_first_where(effect.producers, 0, taken);
    let i = choose|i: int| 0 <= i < effect.producers.len() && effect.producers[i] == Some(producer);
    assert(taken(effect.producers[i]));
    to_multiset_update(effect.producers, effect.slot_of(producer)->0, None);
}

/// The release of a producer that is not down, be it late or of a press that was rejected, changes
/// nothing and is answered `Unmatched`.
pub proof fn law_stale_release_changes_nothing(effect: ModifierEffect, producer: ModifierProducer)
    requires
        !effect.producers.contains(Some(producer)),
    ensures
        effect.released(producer) == effect,
        effect.release(producer) == ModifierProducerRelease::Unmatched,
{
    let taken = |slot: Option<ModifierProducer>| slot == Some(producer);
    lemma_first_where(effect.producers, 0, taken);
    if let Some(i) = effect.slot_of(producer) {
        assert(effect.producers[i] == Some(producer));
    }
}

/// An accepted press and the release of the same producer cancel out: the same owners are down
/// before and after, so the same modifiers are in effect.
pub proof fn law_release_undoes_press(effect: ModifierEffect, producer: ModifierProducer)
    requires
        effect.producers.contains(None),
    ensures
        effect.pressed(producer).released(producer).producers.to_multiset()
            == effect.producers.to_multiset(),
        effect.pressed(producer).released(producer).effective() == effect.effective(),
{
    let pressed = effect.pressed(producer);
    let free = |slot: Option<ModifierProducer>| slot is None;
    lemma_first_where(effect.producers, 0, free);
    let i = choose|i: int| 0 <= i < effect.producers.len() && effect.producers[i] == None::<ModifierProducer>;
    assert(free(effect.producers[i]));
    assert(pressed.producers[effect.free_slot()->0] == Some(producer));
    law_press_adds_one_owner(effect, producer);
    law_release_removes_one_owner(pressed, producer);
    effect.producers.to_multiset_ensures();
    assert(effect.producers.to_multiset().count(None) > 0);
    assert(pressed.released(producer).producers.to_multiset() =~= effect.producers.to_multiset());
    law_slot_order_does_not_matter(pressed.released(producer), effect);
}

/// Once the last producer has gone up, exactly the retained modifiers are in effect.
pub proof fn law_without_producers_only_the_retained_stay(effect: ModifierEffect)
    requires
        !any_producer(effect.producers),
    ensures
        effect.effective() == effect.retained,
{
    lemma_union_of_none(effect.producers, effect.retained);
}

/// Empty slots add nothing to a union.
pub proof fn lemma_union_of_none(producers: Seq<Option<ModifierProducer>>, start: ModifierCombination)
    requires
        !any_producer(producers),
    ensures
        union_of(producers, start) == start,
    decreases producers.len(),
{
    if producers.len() > 0 {
        let rest = producers.drop_last();
        assert(!any_producer(rest)) by {
            assert forall|i: int| 0 <= i < rest.len() implies #[trigger] rest[i] is None by {
                assert(rest[i] == producers[i]);
            }
        }
        assert(producers[producers.len() - 1] is None);
        lemma_union_of_none(rest, start);
    }
}

/// A union over slots of which only the first may be taken is that of the first slot.
pub proof fn lemma_union_with_empty_tail(
    producers: Seq<Option<ModifierProducer>>,
    start: ModifierCombination,
)
    requires
        producers.len() > 0,
        forall|i: int| 0 < i < producers.len() ==> #[trigger] producers[i] is None,
    ensures
        union_of(producers, start) == match producers[0] {
            Some(producer) => start | producer.modifiers,
            None => start,
        },
    decreases producers.len(),
{
    let rest = producers.drop_last();
    if rest.len() > 0 {
        assert(producers[producers.len() - 1] is None);
        lemma_union_with_empty_tail(rest, start);
    } else {
        assert(union_of(rest, start) == start);
    }
}

} // verus!
