//! Who holds the modifiers of a sticky key: the physical producers that are down, and what stays
//! latched after the last of them has gone up.

use vstd::prelude::*;

use crate::event::KeyboardEventPos;
use crate::modifier::ModifierCombination;
use crate::search::{first_where, lemma_first_where_is, lemma_first_where_none};

verus! {

/// How many producers can hold the modifiers of one sticky key at a time.
pub const MAX_STICKY_MODIFIER_PRODUCERS: usize = 8;

/// What identifies a producer.
#[derive(Clone, Copy, Debug, PartialEq, Eq, Structural)]
pub enum ModifierProducerSource {
    /// A physical key, matched by its matrix position.
    Direct(KeyboardEventPos),
    /// A combo output, matched by its stable slot in the combo table.
    Combo(u16),
}

/// One producer that is down, and the modifiers that it holds.
#[derive(Clone, Copy, Debug, PartialEq, Eq, Structural)]
pub struct ModifierProducer {
    pub source: ModifierProducerSource,
    pub modifiers: ModifierCombination,
}

/// What became of a new producer.
#[derive(Clone, Copy, Debug, PartialEq, Eq, Structural)]
pub enum ModifierProducerInsert {
    /// It was given a slot.
    Added,
    /// Every slot was taken; nothing changed.
    Full,
}

/// What became of the release of a producer.
#[derive(Clone, Copy, Debug, PartialEq, Eq, Structural)]
pub enum ModifierProducerRelease {
    /// No such producer is down; nothing changed.
    Unmatched,
    /// The producer was taken out.
    Released {
        removed: ModifierProducer,
        old_effective: ModifierCombination,
        new_effective: ModifierCombination,
        producers_remain: bool,
    },
}

/// Physical and retained ownership of accumulated sticky modifiers.
///
/// Producer identities keep late or rejected releases from removing another owner with the same
/// modifier mask. Combo slots provide a stable identity even when different constituent positions
/// trigger press and release.
#[derive(Clone, Copy, Debug)]
pub struct StickyModifierEffect {
    pub producers: [Option<ModifierProducer>; MAX_STICKY_MODIFIER_PRODUCERS],
    pub retained: ModifierCombination,
}

/// What a `StickyModifierEffect` holds: its slots in order, and what is retained.
#[verifier::ext_equal]
pub struct ModifierEffect {
    pub producers: Seq<Option<ModifierProducer>>,
    pub retained: ModifierCombination,
}

/// The modifiers of `start` and of all producers in the slots.
pub open spec fn union_of(
    producers: Seq<Option<ModifierProducer>>,
    start: ModifierCombination,
) -> ModifierCombination
    decreases producers.len(),
{
    if producers.len() == 0 {
        start
    } else {
        let rest = union_of(producers.drop_last(), start);
        match producers.last() {
            Some(producer) => rest | producer.modifiers,
            None => rest,
        }
    }
}

/// Whether any slot is taken.
pub open spec fn any_producer(producers: Seq<Option<ModifierProducer>>) -> bool {
    exists|i: int| 0 <= i < producers.len() && #[trigger] producers[i] is Some
}

impl ModifierEffect {
    /// The effect of one producer that has just gone down.
    pub open spec fn single(producer: ModifierProducer) -> ModifierEffect {
        ModifierEffect {
            producers: Seq::new(
                MAX_STICKY_MODIFIER_PRODUCERS as nat,
                |i: int|
                    if i == 0 {
                        Some(producer)
                    } else {
                        None
                    },
            ),
            retained: ModifierCombination::none(),
        }
    }

    /// The modifiers that are in effect: those of every producer that is down, and the retained
    /// ones.
    pub open spec fn effective(self) -> ModifierCombination {
        union_of(self.producers, self.retained)
    }

    /// The first slot that is not taken.
    pub open spec fn free_slot(self) -> Option<int> {
        first_where(self.producers, 0, |slot: Option<ModifierProducer>| slot is None)
    }

    /// The first slot that the producer has taken.
    pub open spec fn slot_of(self, producer: ModifierProducer) -> Option<int> {
        first_where(self.producers, 0, |slot: Option<ModifierProducer>| slot == Some(producer))
    }

    /// The effect with one slot emptied.
    pub open spec fn without_slot(self, slot: int) -> ModifierEffect {
        ModifierEffect { producers: self.producers.update(slot, None), ..self }
    }

    /// The effect after a producer has gone down: it takes the first free slot, if there is one.
    pub open spec fn pressed(self, producer: ModifierProducer) -> ModifierEffect {
        match self.free_slot() {
            Some(slot) => ModifierEffect {
                producers: self.producers.update(slot, Some(producer)),
                ..self
            },
            None => self,
        }
    }

    /// What becomes of a producer that goes down: it is given a slot, or every slot is taken.
    pub open spec fn press_outcome(self) -> ModifierProducerInsert {
        if self.free_slot() is Some {
            ModifierProducerInsert::Added
        } else {
            ModifierProducerInsert::Full
        }
    }

    /// The effect after a producer has gone up: its slot is emptied, if it had one.
    pub open spec fn released(self, producer: ModifierProducer) -> ModifierEffect {
        match self.slot_of(producer) {
            Some(slot) => self.without_slot(slot),
            None => self,
        }
    }

    /// What emptying a slot is answered.
    pub open spec fn slot_release(self, slot: int) -> ModifierProducerRelease {
        ModifierProducerRelease::Released {
            removed: self.producers[slot]->0,
            old_effective: self.effective(),
            new_effective: self.without_slot(slot).effective(),
            producers_remain: any_producer(self.without_slot(slot).producers),
        }
    }

    /// What the release of a producer is answered.
    pub open spec fn release(self, producer: ModifierProducer) -> ModifierProducerRelease {
        match self.slot_of(producer) {
            Some(slot) => self.slot_release(slot),
            None => ModifierProducerRelease::Unmatched,
        }
    }

    /// The effect that keeps modifiers whether or not a producer holds them.
    pub open spec fn retaining(self, modifiers: ModifierCombination) -> ModifierEffect {
        ModifierEffect { retained: self.retained | modifiers, ..self }
    }
}

impl View for StickyModifierEffect {
    type V = ModifierEffect;

    open spec fn view(&self) -> ModifierEffect {
        ModifierEffect { producers: self.producers@, retained: self.retained }
    }
}

impl StickyModifierEffect {
    /// The effect of one producer that has just gone down.
    pub fn new(modifiers: ModifierCombination, source: ModifierProducerSource) -> (effect: Self)
        ensures
            effect@ == ModifierEffect::single(ModifierProducer { source, modifiers }),
    {
        let mut producers: [Option<ModifierProducer>; MAX_STICKY_MODIFIER_PRODUCERS] =
            [None; MAX_STICKY_MODIFIER_PRODUCERS];
        producers[0] = Some(ModifierProducer { source, modifiers });
        StickyModifierEffect { producers, retained: ModifierCombination::new() }
    }

    /// A producer goes down: it takes the first free slot. Where there is none, nothing changes.
    pub fn begin_press(
        &mut self,
        modifiers: ModifierCombination,
        source: ModifierProducerSource,
    ) -> (inserted: ModifierProducerInsert)
        ensures
            final(self)@ == old(self)@.pressed(ModifierProducer { source, modifiers }),
            inserted == old(self)@.press_outcome(),
            inserted == if old(self)@.free_slot() is Some {
                ModifierProducerInsert::Added
            } else {
                ModifierProducerInsert::Full
            },
    {
        let producer = ModifierProducer { source, modifiers };
        let ghost free = |slot: Option<ModifierProducer>| slot is None;
        let mut index: usize = 0;
        while index < MAX_STICKY_MODIFIER_PRODUCERS
            invariant
                *self == *old(self),
                producer == (ModifierProducer { source, modifiers }),
                free == (|slot: Option<ModifierProducer>| slot is None),
                forall|i: int| 0 <= i < index ==> !free(#[trigger] self.producers@[i]),
            decreases MAX_STICKY_MODIFIER_PRODUCERS - index,
        {
            if self.producers[index].is_none() {
                proof {
                    lemma_first_where_is(self.producers@, 0, free, index as int);
                }
                self.producers[index] = Some(producer);
                return ModifierProducerInsert::Added;
            }
            index += 1;
        }
        proof {
            lemma_first_where_none(self.producers@, 0, free);
        }
        ModifierProducerInsert::Full
    }

    /// Keeps modifiers whether or not a producer holds them.
    pub fn retain(&mut self, modifiers: ModifierCombination)
        ensures
            final(self)@ == old(self)@.retaining(modifiers),
    {
        self.retained = self.retained | modifiers;
    }

    /// The modifiers that are in effect.
    pub fn effective(&self) -> (modifiers: ModifierCombination)
        ensures
            modifiers == self@.effective(),
    {
        let mut modifiers = self.retained;
        let mut index: usize = 0;
        while index < MAX_STICKY_MODIFIER_PRODUCERS
            invariant
                index <= MAX_STICKY_MODIFIER_PRODUCERS,
                modifiers == union_of(self.producers@.take(index as int), self.retained),
            decreases MAX_STICKY_MODIFIER_PRODUCERS - index,
        {
            proof {
                assert(self.producers@.take(index + 1).drop_last() =~= self.producers@.take(index as int));
            }
            if let Some(producer) = self.producers[index] {
                modifiers = modifiers | producer.modifiers;
            }
            index += 1;
        }
        proof {
            assert(self.producers@.take(index as int) =~= self.producers@);
        }
        modifiers
    }

    /// Whether any producer is down.
    fn has_producer(&self) -> (down: bool)
        ensures
            down == any_producer(self@.producers),
    {
        let mut index: usize = 0;
        while index < MAX_STICKY_MODIFIER_PRODUCERS
            invariant
                forall|i: int| 0 <= i < index ==> #[trigger] self.producers@[i] is None,
            decreases MAX_STICKY_MODIFIER_PRODUCERS - index,
        {
            if self.producers[index].is_some() {
                assert(self.producers@[index as int] is Some);
                return true;
            }
            index += 1;
        }
        false
    }

    /// Takes the producer out of a slot that is taken.
    pub fn release_at(&mut self, index: usize) -> (release: ModifierProducerRelease)
        requires
            index < MAX_STICKY_MODIFIER_PRODUCERS,
            old(self)@.producers[index as int] is Some,
        ensures
            final(self)@ == old(self)@.without_slot(index as int),
            release == old(self)@.slot_release(index as int),
    {
        let old_effective = self.effective();
        let removed = self.producers[index].unwrap();
        self.producers[index] = None;
        let new_effective = self.effective();
        ModifierProducerRelease::Released {
            removed,
            old_effective,
            new_effective,
            producers_remain: self.has_producer(),
        }
    }

    /// A producer goes up: the first slot that it has taken is emptied. Where it has none, nothing
    /// changes.
    pub fn on_exact_release(
        &mut self,
        modifiers: ModifierCombination,
        source: ModifierProducerSource,
    ) -> (release: ModifierProducerRelease)
        ensures
            final(self)@ == old(self)@.released(ModifierProducer { source, modifiers }),
            release == old(self)@.release(ModifierProducer { source, modifiers }),
    {
        let exact = ModifierProducer { source, modifiers };
        let ghost taken = |slot: Option<ModifierProducer>| slot == Some(exact);
        let mut index: usize = 0;
        while index < MAX_STICKY_MODIFIER_PRODUCERS
            invariant
                *self == *old(self),
                exact == (ModifierProducer { source, modifiers }),
                taken == (|slot: Option<ModifierProducer>| slot == Some(exact)),
                forall|i: int| 0 <= i < index ==> !taken(#[trigger] self.producers@[i]),
            decreases MAX_STICKY_MODIFIER_PRODUCERS - index,
        {
            if let Some(producer) = self.producers[index] {
                if producer == exact {
                    proof {
                        lemma_first_where_is(self.producers@, 0, taken, index as int);
                    }
                    return self.release_at(index);
                }
            }
            index += 1;
        }
        proof {
            lemma_first_where_none(self.producers@, 0, taken);
        }
        ModifierProducerRelease::Unmatched
    }
}

} // verus!
