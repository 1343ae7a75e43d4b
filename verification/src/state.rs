//! The bounded collection of held actions.

use vstd::prelude::*;

use crate::config::StickyKeyShape;
use crate::entry::{Entry, StickyEntry, StickyPhase};
use crate::event::KeyboardEvent;
use crate::modifier::{lemma_union, ModifierCombination};
use crate::search::{first_where, lemma_first_where_is, lemma_first_where_none};
use crate::time::{ticks_of, Instant};

verus! {

/// How many actions can be held at a time.
pub const MAX_ACTIVE_STICKY_KEYS: usize = 2;

/// Bounded runtime collection for held actions.
///
/// Two entries preserve the only simultaneous configuration supported by the behavior contract: one
/// accumulated modifier action plus one layer action. Modified tap keys are exclusive and therefore
/// require only one entry.
#[derive(Clone, Copy, Debug)]
pub struct StickyKeyState {
    pub active: [Option<StickyEntry>; MAX_ACTIVE_STICKY_KEYS],
}

/// What a `StickyKeyState` holds: its slots in order.
pub type Slots = Seq<Option<Entry>>;

/// What one slot holds.
pub open spec fn slot_view(slot: Option<StickyEntry>) -> Option<Entry> {
    match slot {
        Some(entry) => Some(entry@),
        None => None,
    }
}

impl View for StickyKeyState {
    type V = Slots;

    open spec fn view(&self) -> Slots {
        Seq::new(MAX_ACTIVE_STICKY_KEYS as nat, |i: int| slot_view(self.active@[i]))
    }
}

/// The slots of a state that holds nothing.
pub open spec fn no_entries() -> Slots {
    Seq::new(MAX_ACTIVE_STICKY_KEYS as nat, |i: int| None)
}

/// What holds of the slots of every state that its operations have made: each entry is valid, and
/// holds one of the actions that a sticky key can hold.
pub open spec fn slots_valid(slots: Slots) -> bool {
    &&& slots.len() == MAX_ACTIVE_STICKY_KEYS
    &&& forall|i: int|
        0 <= i < slots.len() ==> (#[trigger] slots[i] matches Some(entry) ==> entry.valid()
            && entry.shape() is Some)
}

/// Whether the slot holds a sticky key of the given kind.
pub open spec fn has_shape(slot: Option<Entry>, shape: StickyKeyShape) -> bool {
    slot matches Some(entry) && entry.shape() == Some(shape)
}

/// The first slot that holds a sticky key of the given kind.
pub open spec fn shape_slot(slots: Slots, shape: StickyKeyShape) -> Option<int> {
    first_where(slots, 0, |slot: Option<Entry>| has_shape(slot, shape))
}

/// The first slot that holds nothing.
pub open spec fn free_slot(slots: Slots) -> Option<int> {
    first_where(slots, 0, |slot: Option<Entry>| slot is None)
}

/// The slots after an entry has been put into the first free one, if there is one.
pub open spec fn inserted(slots: Slots, entry: Entry) -> Slots {
    match free_slot(slots) {
        Some(slot) => slots.update(slot, Some(entry)),
        None => slots,
    }
}

/// The slots after every entry has been changed in the same way.
pub open spec fn each(slots: Slots, change: spec_fn(Entry) -> Entry) -> Slots {
    slots.map_values(
        |slot: Option<Entry>|
            match slot {
                Some(entry) => Some(change(entry)),
                None => None,
            },
    )
}

/// The slots after an event was buffered: a press claims the latches that it is going to use.
pub open spec fn buffered(slots: Slots, event: KeyboardEvent) -> Slots {
    if event.pressed {
        each(slots, |entry: Entry| entry.claimed(event.pos))
    } else {
        slots
    }
}

/// Whether the clock can show the end of the timeout that the slot's latch starts anew at a time,
/// where it is claimed.
pub open spec fn slot_claim_can_finish(slot: Option<Entry>, now: Instant) -> bool {
    slot matches Some(entry) ==> entry.claim_can_finish(now@)
}

/// The slot after the buffered press was resolved at a time.
pub open spec fn slot_claim_finished(slot: Option<Entry>, now: Instant) -> Option<Entry> {
    match slot {
        Some(entry) => if entry.claim_can_finish(now@) {
            Some(entry.claim_finished(now@))
        } else {
            slot
        },
        None => None,
    }
}

/// Whether every claim can finish at the time of its slot.
pub open spec fn claims_can_finish(slots: Slots, times: Seq<Instant>) -> bool {
    forall|i: int| 0 <= i < slots.len() ==> slot_claim_can_finish(#[trigger] slots[i], times[i])
}

/// The slots after the buffered press was resolved, each at its own time.
pub open spec fn claims_finished(slots: Slots, times: Seq<Instant>) -> Slots {
    Seq::new(slots.len(), |i: int| slot_claim_finished(slots[i], times[i]))
}

/// The tick at which a slot is to be looked at again.
pub open spec fn slot_deadline(slot: Option<Entry>) -> Option<int> {
    match slot {
        Some(entry) => entry.deadline(),
        None => None,
    }
}

/// Whether `deadline` is the earliest deadline in the slots; `None` where there is none.
pub open spec fn is_earliest_deadline(slots: Slots, deadline: Option<int>) -> bool {
    match deadline {
        Some(ticks) => {
            &&& exists|i: int| 0 <= i < slots.len() && slot_deadline(#[trigger] slots[i]) == Some(ticks)
            &&& forall|i: int|
                0 <= i < slots.len() ==> (slot_deadline(#[trigger] slots[i]) matches Some(other)
                    ==> ticks <= other)
        },
        None => forall|i: int| 0 <= i < slots.len() ==> slot_deadline(#[trigger] slots[i]) is None,
    }
}

/// The modifiers that a slot adds to the report of a key that goes down (`pressed`) or up: a tap key
/// always adds its own; a modifier entry adds its own to a key that goes down, and to one that
/// goes up only while it is held for other keys.
pub open spec fn slot_modifiers(slot: Option<Entry>, pressed: bool) -> ModifierCombination {
    match slot {
        Some(entry) => if entry.shape() == Some(StickyKeyShape::TapKey) || (entry.shape() == Some(
            StickyKeyShape::PureMod,
        ) && (pressed || entry.phase == StickyPhase::Held)) {
            entry.modifiers()
        } else {
            ModifierCombination::none()
        },
        None => ModifierCombination::none(),
    }
}

/// The modifiers that the slots together add to the report of a key.
pub open spec fn reported_modifiers(slots: Slots, pressed: bool) -> ModifierCombination
    decreases slots.len(),
{
    if slots.len() == 0 {
        ModifierCombination::none()
    } else {
        reported_modifiers(slots.drop_last(), pressed) | slot_modifiers(slots.last(), pressed)
    }
}

/// Whether the modifier entry, if there is one, is released by the press of another key.
pub open spec fn modifier_triggers_on_press(slots: Slots) -> bool {
    shape_slot(slots, StickyKeyShape::PureMod) matches Some(slot) && slots[slot]->0.triggers_on(true)
}

impl Default for StickyKeyState {
    /// The state that holds nothing.
    fn default() -> (state: StickyKeyState)
        ensures
            state@ == no_entries(),
            slots_valid(state@),
    {
        StickyKeyState { active: [None; MAX_ACTIVE_STICKY_KEYS] }
    }
}

impl StickyKeyState {
    /// The entry in a slot that holds one.
    pub(crate) fn entry_at(&self, index: usize) -> (entry: StickyEntry)
        requires
            index < MAX_ACTIVE_STICKY_KEYS,
            self@[index as int] is Some,
        ensures
            self@[index as int] == Some(entry@),
    {
        self.active[index].unwrap()
    }

    /// Puts an entry into a slot.
    pub(crate) fn put_entry(&mut self, index: usize, entry: StickyEntry)
        requires
            index < MAX_ACTIVE_STICKY_KEYS,
        ensures
            final(self)@ == old(self)@.update(index as int, Some(entry@)),
    {
        self.active[index] = Some(entry);
        assert(self@ =~= old(self)@.update(index as int, Some(entry@)));
    }

    /// Empties a slot.
    pub(crate) fn clear_entry(&mut self, index: usize)
        requires
            index < MAX_ACTIVE_STICKY_KEYS,
        ensures
            final(self)@ == old(self)@.update(index as int, None),
    {
        self.active[index] = None;
        assert(self@ =~= old(self)@.update(index as int, None));
    }

    /// The first slot whose entry has a property.
    pub fn index_matching(&self, predicate: impl Fn(&StickyEntry) -> bool) -> (index: Option<usize>)
        requires
            forall|entry: &StickyEntry| call_requires(predicate, (entry,)),
        ensures
            match index {
                Some(found) => {
                    &&& found < MAX_ACTIVE_STICKY_KEYS
                    &&& self.active@[found as int] matches Some(entry) && call_ensures(
                        predicate,
                        (&entry,),
                        true,
                    )
                    &&& forall|i: int|
                        0 <= i < found ==> (#[trigger] self.active@[i] matches Some(entry)
                            ==> call_ensures(predicate, (&entry,), false))
                },
                None => forall|i: int|
                    0 <= i < MAX_ACTIVE_STICKY_KEYS ==> (#[trigger] self.active@[i] matches Some(entry)
                        ==> call_ensures(predicate, (&entry,), false)),
            },
    {
        let mut index: usize = 0;
        while index < MAX_ACTIVE_STICKY_KEYS
            invariant
                forall|entry: &StickyEntry| call_requires(predicate, (entry,)),
                forall|i: int|
                    0 <= i < index ==> (#[trigger] self.active@[i] matches Some(entry)
                        ==> call_ensures(predicate, (&entry,), false)),
            decreases MAX_ACTIVE_STICKY_KEYS - index,
        {
            if let Some(entry) = &self.active[index] {
                if predicate(entry) {
                    return Some(index);
                }
            }
            index += 1;
        }
        None
    }

    /// The slot of the modifier entry.
    pub fn modifier_index(&self) -> (index: Option<usize>)
        ensures
            slot_number(index) == shape_slot(self@, StickyKeyShape::PureMod),
            index matches Some(found) ==> found < MAX_ACTIVE_STICKY_KEYS && has_shape(
                self@[found as int],
                StickyKeyShape::PureMod,
            ),
    {
        let is_modifier = |entry: &StickyEntry| -> (modifier: bool)
            ensures
                modifier == has_shape(Some(entry@), StickyKeyShape::PureMod),
            {
                entry.is_modifier()
            };
        let index = self.index_matching(is_modifier);
        proof {
            self.lemma_shape_slot(StickyKeyShape::PureMod, index);
        }
        index
    }

    /// The slot of the layer entry.
    pub fn layer_index(&self) -> (index: Option<usize>)
        ensures
            slot_number(index) == shape_slot(self@, StickyKeyShape::Layer),
            index matches Some(found) ==> found < MAX_ACTIVE_STICKY_KEYS && has_shape(
                self@[found as int],
                StickyKeyShape::Layer,
            ),
    {
        let is_layer = |entry: &StickyEntry| -> (layer: bool)
            ensures
                layer == has_shape(Some(entry@), StickyKeyShape::Layer),
            {
                entry.is_layer()
            };
        let index = self.index_matching(is_layer);
        proof {
            self.lemma_shape_slot(StickyKeyShape::Layer, index);
        }
        index
    }

    /// The slot of the tap key.
    pub fn tap_key_index(&self) -> (index: Option<usize>)
        ensures
            slot_number(index) == shape_slot(self@, StickyKeyShape::TapKey),
            index matches Some(found) ==> found < MAX_ACTIVE_STICKY_KEYS && has_shape(
                self@[found as int],
                StickyKeyShape::TapKey,
            ),
    {
        let is_tap_key = |entry: &StickyEntry| -> (tap_key: bool)
            ensures
                tap_key == has_shape(Some(entry@), StickyKeyShape::TapKey),
            {
                entry.is_tap_key()
            };
        let index = self.index_matching(is_tap_key);
        proof {
            self.lemma_shape_slot(StickyKeyShape::TapKey, index);
        }
        index
    }

    /// What a search by kind has found is the slot of that kind.
    proof fn lemma_shape_slot(&self, shape: StickyKeyShape, index: Option<usize>)
        requires
            match index {
                Some(found) => {
                    &&& found < MAX_ACTIVE_STICKY_KEYS
                    &&& has_shape(slot_view(self.active@[found as int]), shape)
                    &&& forall|i: int|
                        0 <= i < found ==> !has_shape(slot_view(#[trigger] self.active@[i]), shape)
                },
                None => forall|i: int|
                    0 <= i < MAX_ACTIVE_STICKY_KEYS ==> !has_shape(
                        slot_view(#[trigger] self.active@[i]),
                        shape,
                    ),
            },
        ensures
            slot_number(index) == shape_slot(self@, shape),
            index matches Some(found) ==> has_shape(self@[found as int], shape),
    {
        let property = |slot: Option<Entry>| has_shape(slot, shape);
        assert forall|i: int| 0 <= i < MAX_ACTIVE_STICKY_KEYS implies #[trigger] self@[i] == slot_view(
            self.active@[i],
        ) by {}
        match index {
            Some(found) => lemma_first_where_is(self@, 0, property, found as int),
            None => lemma_first_where_none(self@, 0, property),
        }
    }

    /// Puts an entry into the first free slot, or gives it back where there is none.
    pub fn insert(&mut self, entry: StickyEntry) -> (result: Result<usize, StickyEntry>)
        ensures
            final(self)@ == inserted(old(self)@, entry@),
            match free_slot(old(self)@) {
                Some(slot) => result matches Ok(index) && index == slot,
                None => result == Err::<usize, StickyEntry>(entry),
            },
            slots_valid(old(self)@) && entry@.valid() && entry@.shape() is Some ==> slots_valid(
                final(self)@,
            ),
    {
        let ghost free = |slot: Option<Entry>| slot is None;
        let mut index: usize = 0;
        while index < MAX_ACTIVE_STICKY_KEYS
            invariant
                *self == *old(self),
                free == (|slot: Option<Entry>| slot is None),
                forall|i: int| 0 <= i < index ==> !free(#[trigger] self@[i]),
            decreases MAX_ACTIVE_STICKY_KEYS - index,
        {
            if self.active[index].is_none() {
                proof {
                    lemma_first_where_is(self@, 0, free, index as int);
                }
                self.active[index] = Some(entry);
                assert(self@ =~= old(self)@.update(index as int, Some(entry@)));
                return Ok(index);
            }
            index += 1;
        }
        proof {
            lemma_first_where_none(self@, 0, free);
        }
        Err(entry)
    }

    /// When the state is to be looked at again: the earliest deadline of its entries.
    pub fn deadline(&self) -> (deadline: Option<Instant>)
        ensures
            is_earliest_deadline(self@, ticks_of(deadline)),
    {
        let mut earliest: Option<Instant> = None;
        let mut index: usize = 0;
        while index < MAX_ACTIVE_STICKY_KEYS
            invariant
                index <= MAX_ACTIVE_STICKY_KEYS,
                is_earliest_deadline(self@.take(index as int), ticks_of(earliest)),
            decreases MAX_ACTIVE_STICKY_KEYS - index,
        {
            let ghost seen = self@.take(index as int);
            let ghost before = ticks_of(earliest);
            if let Some(entry) = &self.active[index] {
                if let Some(deadline) = entry.deadline() {
                    earliest = match earliest {
                        Some(other) => if other.ticks <= deadline.ticks {
                            Some(other)
                        } else {
                            Some(deadline)
                        },
                        None => Some(deadline),
                    };
                }
            }
            proof {
                lemma_earliest_deadline(seen, before, self@[index as int], ticks_of(earliest));
                assert(self@.take(index + 1) =~= seen.push(self@[index as int]));
            }
            index += 1;
        }
        assert(self@.take(index as int) =~= self@);
        earliest
    }

    /// The press of a key was buffered: the latches that it is going to use stop timing out.
    pub fn claim_buffered_press(&mut self, event: KeyboardEvent)
        ensures
            final(self)@ == if event.pressed {
                each(old(self)@, |entry: Entry| entry.claimed(event.pos))
            } else {
                old(self)@
            },
            final(self)@ == buffered(old(self)@, event),
            slots_valid(old(self)@) ==> slots_valid(final(self)@),
    {
        if !event.pressed {
            return ;
        }
        let mut index: usize = 0;
        while index < MAX_ACTIVE_STICKY_KEYS
            invariant
                index <= MAX_ACTIVE_STICKY_KEYS,
                forall|i: int|
                    0 <= i < index ==> #[trigger] self@[i] == each(
                        old(self)@,
                        |entry: Entry| entry.claimed(event.pos),
                    )[i],
                forall|i: int|
                    index <= i < MAX_ACTIVE_STICKY_KEYS ==> #[trigger] self@[i] == old(self)@[i],
                slots_valid(old(self)@) ==> slots_valid(self@),
            decreases MAX_ACTIVE_STICKY_KEYS - index,
        {
            let ghost before = self@;
            if let Some(active) = self.active[index] {
                let mut entry = active;
                entry.claim_buffered_press(event.pos);
                self.active[index] = Some(entry);
                assert(before[index as int] == Some(active@));
                assert(self@ =~= before.update(index as int, Some(entry@)));
            }
            index += 1;
        }
        assert(self@ =~= each(old(self)@, |entry: Entry| entry.claimed(event.pos)));
    }

    /// The buffered press was resolved, and the time of each slot is given: every claimed latch
    /// starts its timeout anew at the time of its slot. Only where the clock cannot show the end of
    /// such a timeout does that claim stay, and the result is `false`.
    pub fn try_finish_buffered_claim_at(&mut self, times: [Instant; MAX_ACTIVE_STICKY_KEYS]) -> (finished:
        bool)
        ensures
            final(self)@ == claims_finished(old(self)@, times@),
            finished == claims_can_finish(old(self)@, times@),
            finished <==> forall|i: int|
                0 <= i < MAX_ACTIVE_STICKY_KEYS ==> (#[trigger] final(self)@[i] matches Some(entry)
                    ==> !entry.buffered_claim),
            slots_valid(old(self)@) ==> slots_valid(final(self)@),
    {
        let mut finished = true;
        let mut index: usize = 0;
        while index < MAX_ACTIVE_STICKY_KEYS
            invariant
                index <= MAX_ACTIVE_STICKY_KEYS,
                forall|i: int|
                    0 <= i < index ==> #[trigger] self@[i] == slot_claim_finished(
                        old(self)@[i],
                        times@[i],
                    ),
                finished <==> forall|i: int|
                    0 <= i < index ==> slot_claim_can_finish(#[trigger] old(self)@[i], times@[i]),
                forall|i: int|
                    index <= i < MAX_ACTIVE_STICKY_KEYS ==> #[trigger] self@[i] == old(self)@[i],
                slots_valid(old(self)@) ==> slots_valid(self@),
            decreases MAX_ACTIVE_STICKY_KEYS - index,
        {
            let ghost before = self@;
            if let Some(active) = self.active[index] {
                let mut entry = active;
                assert(before[index as int] == Some(active@));
                let slot_finished = entry.try_finish_buffered_claim_at(times[index]);
                finished = finished && slot_finished;
                self.active[index] = Some(entry);
                assert(self@ =~= before.update(index as int, Some(entry@)));
            }
            assert(before[index as int] == old(self)@[index as int]);
            index += 1;
        }
        assert(self@ =~= claims_finished(old(self)@, times@));
        assert forall|i: int| 0 <= i < MAX_ACTIVE_STICKY_KEYS implies slot_claim_can_finish(
            #[trigger] old(self)@[i],
            times@[i],
        ) == (self@[i] matches Some(entry) ==> !entry.buffered_claim) by {
            assert(self@[i] == slot_claim_finished(old(self)@[i], times@[i]));
        }
        finished
    }

    /// The buffered press was resolved: every claimed latch starts its timeout anew, from what the
    /// clock shows. Only where the clock cannot show the end of such a timeout does that claim stay,
    /// and the result is `false`.
    pub fn finish_buffered_claim(&mut self) -> (finished: bool)
        ensures
            exists|times: Seq<Instant>|
                times.len() == MAX_ACTIVE_STICKY_KEYS && final(self)@ == #[trigger] claims_finished(
                    old(self)@,
                    times,
                ) && finished == claims_can_finish(old(self)@, times),
            finished <==> forall|i: int|
                0 <= i < MAX_ACTIVE_STICKY_KEYS ==> (#[trigger] final(self)@[i] matches Some(entry)
                    ==> !entry.buffered_claim),
            (forall|i: int|
                0 <= i < MAX_ACTIVE_STICKY_KEYS ==> (#[trigger] old(self)@[i] matches Some(entry) ==> (
                !entry.buffered_claim || entry.policy.latch_deadline(0) is None))) ==> finished,
            slots_valid(old(self)@) ==> slots_valid(final(self)@),
    {
        let times: [Instant; MAX_ACTIVE_STICKY_KEYS] = [Instant::now(), Instant::now()];
        self.try_finish_buffered_claim_at(times)
    }

    /// Whether the modifier entry, if there is one, is released by the press of another key.
    pub fn modifier_releases_on_press(&self) -> (releases: bool)
        ensures
            releases == modifier_triggers_on_press(self@),
    {
        match self.modifier_index() {
            Some(index) => {
                match &self.active[index] {
                    Some(entry) => entry.trigger_for_key(true),
                    None => false,
                }
            },
            None => false,
        }
    }

    /// The modifiers that the state adds to the report of a key that goes down (`pressed`) or up.
    pub fn modifiers(&self, pressed: bool) -> (modifiers: ModifierCombination)
        ensures
            modifiers == reported_modifiers(self@, pressed),
    {
        let mut modifiers = ModifierCombination::new();
        let mut index: usize = 0;
        while index < MAX_ACTIVE_STICKY_KEYS
            invariant
                index <= MAX_ACTIVE_STICKY_KEYS,
                modifiers == reported_modifiers(self@.take(index as int), pressed),
            decreases MAX_ACTIVE_STICKY_KEYS - index,
        {
            proof {
                assert(self@.take(index + 1).drop_last() =~= self@.take(index as int));
                assert(self@[index as int] == slot_view(self.active@[index as int]));
                lemma_union(modifiers, modifiers, modifiers);
            }
            if let Some(entry) = &self.active[index] {
                if entry.is_tap_key() || (entry.is_modifier() && (pressed || entry.phase
                    == StickyPhase::Held)) {
                    modifiers = modifiers | entry.modifiers();
                }
            }
            index += 1;
        }
        assert(self@.take(index as int) =~= self@);
        modifiers
    }
}

/// A slot number as an integer.
pub open spec fn slot_number(index: Option<usize>) -> Option<int> {
    match index {
        Some(index) => Some(index as int),
        None => None,
    }
}

/// The earliest deadline of some slots and of one more is the earlier of the two.
proof fn lemma_earliest_deadline(
    slots: Slots,
    earliest: Option<int>,
    slot: Option<Entry>,
    result: Option<int>,
)
    requires
        is_earliest_deadline(slots, earliest),
        result == match (earliest, slot_deadline(slot)) {
            (Some(a), Some(b)) => Some(
                if a <= b {
                    a
                } else {
                    b
                },
            ),
            (Some(a), None) => Some(a),
            (None, b) => b,
        },
    ensures
        is_earliest_deadline(slots.push(slot), result),
{
    let more = slots.push(slot);
    assert forall|i: int| 0 <= i < slots.len() implies #[trigger] more[i] == slots[i] by {}
    assert(more[slots.len() as int] == slot);
    if let Some(ticks) = earliest {
        let i = choose|i: int| 0 <= i < slots.len() && slot_deadline(#[trigger] slots[i]) == Some(ticks);
        assert(slot_deadline(more[i]) == Some(ticks));
    }
}

} // verus!
