//! Sticky key handling as a conversation: what it asks of the rest of the keyboard, where it waits
//! for the answer, and what it decides next.
//!
//! The functions here say what each decision is, over the slots of the held actions. `Keyboard`
//! makes the decisions.

use vstd::prelude::*;

use crate::action::{Action, HidKeyCode};
use crate::config::{StickyKeyPolicy, StickyKeyReleaseMode, StickyKeyShape};
use crate::entry::{DeadlineDisposition, Entry, PhysicalRelease, StickyPhase};
use crate::event::KeyboardEvent;
use crate::modifier::ModifierCombination;
use crate::producers::{ModifierProducer, ModifierProducerRelease, ModifierProducerSource};
use crate::search::first_where;
use crate::state::{
    free_slot, has_shape, inserted, modifier_triggers_on_press, shape_slot, Slots,
};
use crate::time::Instant;

verus! {

/// What the rest of the keyboard is asked to do or to tell.
#[derive(Clone, Copy, Debug, PartialEq, Eq)]
pub enum Request {
    /// Tell the policy of a sticky key profile for a kind of sticky key.
    Policy { profile: u8, shape: StickyKeyShape },
    /// Tell how many layers there are.
    LayerCount,
    /// Tell which modifiers other sources than sticky keys hold.
    NonStickyModifiers,
    /// Activate a layer, or complain that there is no such layer.
    ActivateLayer { layer: u8 },
    /// Deactivate a layer, if it is active.
    DeactivateLayer { layer: u8 },
    /// Press or release a key.
    ProcessKey { key: HidKeyCode, event: KeyboardEvent },
    /// Send a keyboard report with the modifiers as they are resolved for a key that goes down
    /// (`pressed`) or up.
    SendReport { pressed: bool },
    /// Send what the host is to see after sticky modifiers changed while their keys move.
    SendLiveRelease {
        old_effective: ModifierCombination,
        new_effective: ModifierCombination,
        non_sticky: ModifierCombination,
    },
}

/// What the rest of the keyboard answers.
#[derive(Clone, Copy, Debug, PartialEq, Eq)]
pub enum Reply {
    /// What was asked for is done.
    Done,
    Policy(StickyKeyPolicy),
    LayerCount(usize),
    NonStickyModifiers(ModifierCombination),
}

/// The press of a key that holds modifiers.
#[derive(Clone, Copy, Debug, PartialEq, Eq)]
pub struct ModifierPress {
    pub modifiers: ModifierCombination,
    pub policy: StickyKeyPolicy,
    pub event: KeyboardEvent,
    pub event_time: Instant,
    pub producer_source: ModifierProducerSource,
}

/// The press of a key that holds a layer.
#[derive(Clone, Copy, Debug, PartialEq, Eq)]
pub struct LayerPress {
    pub layer: u8,
    pub policy: StickyKeyPolicy,
    pub event: KeyboardEvent,
    pub event_time: Instant,
}

/// The press of a tap key.
#[derive(Clone, Copy, Debug, PartialEq, Eq)]
pub struct TapKeyPress {
    pub key: HidKeyCode,
    pub modifiers: ModifierCombination,
    pub policy: StickyKeyPolicy,
    pub event: KeyboardEvent,
    pub event_time: Instant,
}

/// What is left to do once a request has been carried out.
#[derive(Clone, Copy, Debug, PartialEq, Eq)]
pub enum After {
    /// Nothing.
    Return,
    /// Hold the modifiers.
    PressModifier(ModifierPress),
    /// Find out whether there is such a layer, then hold it.
    CheckLayer(LayerPress),
    /// Hold the layer.
    InsertLayer(LayerPress),
    /// Release what is no tap key from a slot on, then tap the key.
    SweepForTapKey { press: TapKeyPress, index: usize },
    /// Tap the key.
    PressTapKey(TapKeyPress),
    /// Release what a layer event releases, from a slot on.
    SweepOnLayerEvent { event: StickyKeyReleaseMode, index: usize },
    /// Release what has timed out, from a slot on.
    SweepOnTimeout { now: Instant, index: usize },
}

/// Where the handling of an event waits for a reply.
#[derive(Clone, Copy, Debug, PartialEq, Eq)]
pub enum Continuation {
    /// Waits for the policy of the sticky key.
    Policy {
        action: Action,
        event: KeyboardEvent,
        event_time: Instant,
        modifier_source: ModifierProducerSource,
    },
    /// Waits for the number of layers.
    LayerCount(LayerPress),
    /// Waits for the modifiers of other sources, to see whether the host loses a released one.
    ReleaseModifiers { modifiers: ModifierCombination, after: After },
    /// Waits for the modifiers of other sources, to tell the host about a producer that went up.
    LiveRelease { old_effective: ModifierCombination, new_effective: ModifierCombination },
    /// Waits for a request to be carried out.
    Proceed(After),
}

/// What the handling of an event comes to next.
#[derive(Clone, Copy, Debug, PartialEq, Eq)]
pub enum Step {
    /// It is finished.
    Done,
    /// Something is asked for; the reply goes to the continuation.
    Call { request: Request, then: Continuation },
}

/// Asks for something to be done, and for nothing after it.
pub open spec fn last(request: Request) -> Step {
    Step::Call { request, then: Continuation::Proceed(After::Return) }
}

impl ModifierPress {
    /// The producer that goes down.
    pub open spec fn producer(self) -> ModifierProducer {
        ModifierProducer { source: self.producer_source, modifiers: self.modifiers }
    }

    /// The entry that the press makes where there is none to join.
    pub open spec fn entry(self) -> Entry {
        Entry::fresh(
            Action::Modifier(self.modifiers),
            self.event.pos,
            self.policy,
            self.event_time@,
            self.producer_source,
        )
    }
}

impl LayerPress {
    /// The entry that the press makes.
    pub open spec fn entry(self) -> Entry {
        Entry::fresh(
            Action::LayerOn(self.layer),
            self.event.pos,
            self.policy,
            self.event_time@,
            ModifierProducerSource::Direct(self.event.pos),
        )
    }
}

impl TapKeyPress {
    /// The action of the tap key.
    pub open spec fn action(self) -> Action {
        Action::KeyWithModifier(self.key, self.modifiers)
    }

    /// The entry that the press makes.
    pub open spec fn entry(self) -> Entry {
        Entry::fresh(
            self.action(),
            self.event.pos,
            self.policy,
            self.event_time@,
            ModifierProducerSource::Direct(self.event.pos),
        )
    }

    /// Whether the entry is of this very key and action.
    pub open spec fn repeats(self, entry: Entry) -> bool {
        entry.source == self.event.pos && entry.action == self.action()
    }
}

/// How the effect of an entry that has been taken out is ended: modifiers after a look at who else
/// holds them, a layer by deactivating it, and a tap key by the release of its key where that is
/// still to come or else by a report without its modifiers.
pub open spec fn release_step(entry: Entry, after: After) -> Step {
    match entry.action {
        Action::Modifier(modifiers) => Step::Call {
            request: Request::NonStickyModifiers,
            then: Continuation::ReleaseModifiers { modifiers, after },
        },
        Action::LayerOn(layer) => Step::Call {
            request: Request::DeactivateLayer { layer },
            then: Continuation::Proceed(after),
        },
        Action::KeyWithModifier(key, _) => Step::Call {
            request: if entry.tap_is_down() {
                Request::ProcessKey {
                    key,
                    event: KeyboardEvent { pressed: false, pos: entry.source },
                }
            } else {
                Request::SendReport { pressed: false }
            },
            then: Continuation::Proceed(after),
        },
        _ => Step::Done,
    }
}

/// Takes the entry out of a slot and ends its effect.
pub open spec fn released_slot(slots: Slots, slot: int, after: After) -> (Slots, Step) {
    (slots.update(slot, None), release_step(slots[slot]->0, after))
}

/// Takes the entry out of a slot, if it holds one, and ends its effect.
pub open spec fn released_any(slots: Slots, slot: int) -> (Slots, Step) {
    if slots[slot] is Some {
        released_slot(slots, slot, After::Return)
    } else {
        (slots, Step::Done)
    }
}

/// A key that holds modifiers goes down, with no tap key in the way: a second tap releases the
/// modifier entry; otherwise the press joins that entry, if it has room for a producer, or makes
/// one, and the host is told at once where the policy says so.
pub open spec fn press_modifier(slots: Slots, press: ModifierPress) -> (Slots, Step) {
    let step = if press.policy.activate_on_keypress {
        last(Request::SendReport { pressed: true })
    } else {
        Step::Done
    };
    match shape_slot(slots, StickyKeyShape::PureMod) {
        Some(slot) => {
            let entry = slots[slot]->0;
            if entry.double_tapped(press.event.pos, press.policy) {
                released_slot(slots, slot, After::Return)
            } else if entry.effect->0.free_slot() is None {
                (slots, Step::Done)
            } else {
                let joined = entry.with_producer(press.producer()).begun(
                    press.event.pos,
                    press.policy,
                    entry.chord_start(press.event_time@),
                    press.event_time@,
                );
                (slots.update(slot, Some(joined)), step)
            }
        },
        None => if free_slot(slots) is Some {
            (inserted(slots, press.entry()), step)
        } else {
            (slots, Step::Done)
        },
    }
}

/// Whether the deadlines that `press_modifier` sets are times of the clock.
pub open spec fn press_modifier_fits(slots: Slots, press: ModifierPress) -> bool {
    match shape_slot(slots, StickyKeyShape::PureMod) {
        Some(slot) => {
            let entry = slots[slot]->0;
            entry.double_tapped(press.event.pos, press.policy) || entry.effect->0.free_slot() is None
                || press.policy.hold_fits(entry.chord_start(press.event_time@))
        },
        None => press.policy.hold_fits(press.event_time@),
    }
}

/// A producer of the modifier entry in a slot has gone up, and was taken out of it. While others
/// are down only the host is told. Once the last one is up the entry ends where another physical
/// key is down, and otherwise follows its lifecycle: it ends, or latches what the last producer
/// held.
pub open spec fn producer_released(
    slots: Slots,
    keys_down: bool,
    slot: int,
    transition: ModifierProducerRelease,
    now: int,
) -> (Slots, Step) {
    match transition {
        ModifierProducerRelease::Unmatched => (slots, Step::Done),
        ModifierProducerRelease::Released {
            removed,
            old_effective,
            new_effective,
            producers_remain,
        } => {
            let entry = slots[slot]->0;
            let (after, remaining) = if producers_remain {
                (slots, new_effective)
            } else if keys_down {
                (slots.update(slot, None), ModifierCombination::none())
            } else {
                match entry.release_outcome(None, now) {
                    PhysicalRelease::Latched => {
                        let latched = entry.released(None, now).retaining(removed.modifiers);
                        (slots.update(slot, Some(latched)), latched.modifiers())
                    },
                    PhysicalRelease::Released => (
                        slots.update(slot, None),
                        ModifierCombination::none(),
                    ),
                    PhysicalRelease::Ignored => (slots, new_effective),
                }
            };
            (
                after,
                Step::Call {
                    request: Request::NonStickyModifiers,
                    then: Continuation::LiveRelease { old_effective, new_effective: remaining },
                },
            )
        },
    }
}

/// Whether the deadlines that `producer_released` sets are times of the clock.
pub open spec fn producer_released_fits(
    slots: Slots,
    keys_down: bool,
    slot: int,
    transition: ModifierProducerRelease,
    now: int,
) -> bool {
    transition matches ModifierProducerRelease::Released { producers_remain, .. } ==> (
    producers_remain || keys_down || (slots[slot]->0.release_outcome(None, now)
        == PhysicalRelease::Latched ==> slots[slot]->0.policy.latch_fits(now)))
}

/// A key that holds modifiers goes down or up.
pub open spec fn modifier_effect(slots: Slots, keys_down: bool, press: ModifierPress) -> (Slots, Step) {
    if press.event.pressed {
        match shape_slot(slots, StickyKeyShape::TapKey) {
            Some(slot) => released_slot(slots, slot, After::PressModifier(press)),
            None => press_modifier(slots, press),
        }
    } else {
        match shape_slot(slots, StickyKeyShape::PureMod) {
            Some(slot) => {
                let entry = slots[slot]->0;
                producer_released(
                    slots.update(slot, Some(entry.without_producer(press.producer()))),
                    keys_down,
                    slot,
                    entry.effect->0.release(press.producer()),
                    press.event_time@,
                )
            },
            None => (slots, Step::Done),
        }
    }
}

/// Whether the deadlines that `modifier_effect` sets are times of the clock.
pub open spec fn modifier_effect_fits(slots: Slots, keys_down: bool, press: ModifierPress) -> bool {
    if press.event.pressed {
        shape_slot(slots, StickyKeyShape::TapKey) is None ==> press_modifier_fits(slots, press)
    } else {
        shape_slot(slots, StickyKeyShape::PureMod) matches Some(slot) ==> producer_released_fits(
            slots.update(slot, Some(slots[slot]->0.without_producer(press.producer()))),
            keys_down,
            slot,
            slots[slot]->0.effect->0.release(press.producer()),
            press.event_time@,
        )
    }
}

/// A new layer entry takes a free slot, if there is one, and its layer is activated.
pub open spec fn insert_layer(slots: Slots, press: LayerPress) -> (Slots, Step) {
    if free_slot(slots) is Some {
        (
            inserted(slots, press.entry()),
            last(Request::ActivateLayer { layer: press.layer }),
        )
    } else {
        (slots, Step::Done)
    }
}

/// A key that holds a layer went down, and there are `layers` layers: a layer that does not exist
/// is not held; a second tap releases the layer entry; the layer that is held already is pressed
/// again; another one makes way for the new one.
pub open spec fn check_layer(slots: Slots, press: LayerPress, layers: int) -> (Slots, Step) {
    if press.layer >= layers {
        (slots, last(Request::ActivateLayer { layer: press.layer }))
    } else {
        match shape_slot(slots, StickyKeyShape::Layer) {
            Some(slot) => {
                let entry = slots[slot]->0;
                if entry.double_tapped(press.event.pos, press.policy) {
                    released_slot(slots, slot, After::Return)
                } else if entry.layer() == Some(press.layer) {
                    let pressed = entry.begun(
                        press.event.pos,
                        press.policy,
                        press.event_time@,
                        press.event_time@,
                    );
                    (
                        slots.update(slot, Some(pressed)),
                        last(Request::ActivateLayer { layer: press.layer }),
                    )
                } else {
                    released_slot(slots, slot, After::InsertLayer(press))
                }
            },
            None => insert_layer(slots, press),
        }
    }
}

/// Whether the deadlines that `check_layer` sets are times of the clock.
pub open spec fn check_layer_fits(slots: Slots, press: LayerPress, layers: int) -> bool {
    press.layer < layers ==> match shape_slot(slots, StickyKeyShape::Layer) {
        Some(slot) => {
            let entry = slots[slot]->0;
            entry.double_tapped(press.event.pos, press.policy) || entry.layer() != Some(press.layer)
                || press.policy.hold_fits(press.event_time@)
        },
        None => press.policy.hold_fits(press.event_time@),
    }
}

/// A key that holds a layer goes down or up.
pub open spec fn layer_effect(slots: Slots, press: LayerPress) -> (Slots, Step) {
    if press.event.pressed {
        match shape_slot(slots, StickyKeyShape::TapKey) {
            Some(slot) => released_slot(slots, slot, After::CheckLayer(press)),
            None => (
                slots,
                Step::Call { request: Request::LayerCount, then: Continuation::LayerCount(press) },
            ),
        }
    } else {
        match shape_slot(slots, StickyKeyShape::Layer) {
            Some(slot) => {
                let entry = slots[slot]->0;
                let up = entry.released(Some(press.event.pos), press.event_time@);
                if entry.release_outcome(Some(press.event.pos), press.event_time@)
                    == PhysicalRelease::Released {
                    released_slot(slots, slot, After::Return)
                } else {
                    (slots.update(slot, Some(up)), Step::Done)
                }
            },
            None => (slots, Step::Done),
        }
    }
}

/// Whether the deadlines that `layer_effect` sets are times of the clock.
pub open spec fn layer_effect_fits(slots: Slots, press: LayerPress) -> bool {
    !press.event.pressed ==> (shape_slot(slots, StickyKeyShape::Layer) matches Some(slot) ==> (
    slots[slot]->0.release_outcome(Some(press.event.pos), press.event_time@)
        == PhysicalRelease::Latched ==> slots[slot]->0.policy.latch_fits(press.event_time@)))
}

/// The entry of a tap key that is tapped once more.
pub open spec fn tapped_again(entry: Entry) -> Entry {
    Entry {
        repeat_count: if entry.repeat_count < u16::MAX {
            entry.repeat_count + 1
        } else {
            entry.repeat_count
        },
        ..entry
    }
}

/// Whether a tap key has been tapped more often than its policy allows.
pub open spec fn worn_out(policy: StickyKeyPolicy, entry: Entry) -> bool {
    policy.max_repeat > 0 && entry.repeat_count > policy.max_repeat
}

/// A tap key is tapped, with no other entry in the way: an active one counts the tap, and is
/// released instead of tapped where that was one too many; otherwise it is made active.
pub open spec fn press_tap_key(slots: Slots, press: TapKeyPress) -> (Slots, Step) {
    let tap = last(Request::ProcessKey { key: press.key, event: press.event });
    match shape_slot(slots, StickyKeyShape::TapKey) {
        Some(slot) => {
            let entry = tapped_again(slots[slot]->0);
            if worn_out(press.policy, entry) {
                released_slot(slots, slot, After::Return)
            } else {
                let pressed = entry.begun(
                    press.event.pos,
                    press.policy,
                    press.event_time@,
                    press.event_time@,
                );
                (slots.update(slot, Some(pressed)), tap)
            }
        },
        None => if free_slot(slots) is Some {
            (inserted(slots, press.entry()), tap)
        } else {
            (slots, Step::Done)
        },
    }
}

/// Whether the deadlines that `press_tap_key` sets are times of the clock.
pub open spec fn press_tap_key_fits(slots: Slots, press: TapKeyPress) -> bool {
    (shape_slot(slots, StickyKeyShape::TapKey) matches Some(slot) && worn_out(
        press.policy,
        tapped_again(slots[slot]->0),
    )) || press.policy.hold_fits(press.event_time@)
}

/// A tap key went down, and only tap keys are active: a second tap releases the key; another tap
/// key makes way for it.
pub open spec fn choose_tap_key(slots: Slots, press: TapKeyPress) -> (Slots, Step) {
    match shape_slot(slots, StickyKeyShape::TapKey) {
        Some(slot) => {
            let entry = slots[slot]->0;
            if !press.repeats(entry) {
                released_slot(slots, slot, After::PressTapKey(press))
            } else if entry.double_tapped(press.event.pos, press.policy) {
                released_slot(slots, slot, After::Return)
            } else {
                press_tap_key(slots, press)
            }
        },
        None => press_tap_key(slots, press),
    }
}

/// Whether the deadlines that `choose_tap_key` sets are times of the clock.
pub open spec fn choose_tap_key_fits(slots: Slots, press: TapKeyPress) -> bool {
    (shape_slot(slots, StickyKeyShape::TapKey) matches Some(slot) && (!press.repeats(slots[slot]->0)
        || slots[slot]->0.double_tapped(press.event.pos, press.policy))) || press_tap_key_fits(
        slots,
        press,
    )
}

/// The first slot from `from` on that holds something else than a tap key.
pub open spec fn other_slot(slots: Slots, from: int) -> Option<int> {
    first_where(
        slots,
        from,
        |slot: Option<Entry>| slot is Some && !has_shape(slot, StickyKeyShape::TapKey),
    )
}

/// A tap key went down: from a slot on, what is no tap key is released first.
pub open spec fn sweep_for_tap_key(slots: Slots, press: TapKeyPress, from: int) -> (Slots, Step) {
    match other_slot(slots, from) {
        Some(slot) => released_slot(
            slots,
            slot,
            After::SweepForTapKey { press, index: (slot + 1) as usize },
        ),
        None => choose_tap_key(slots, press),
    }
}

/// Whether the deadlines that `sweep_for_tap_key` sets are times of the clock.
pub open spec fn sweep_for_tap_key_fits(slots: Slots, press: TapKeyPress, from: int) -> bool {
    other_slot(slots, from) is None ==> choose_tap_key_fits(slots, press)
}

/// A tap key goes down or up. Going up releases the key where this is the key that is down.
pub open spec fn tap_key_effect(slots: Slots, press: TapKeyPress) -> (Slots, Step) {
    if press.event.pressed {
        sweep_for_tap_key(slots, press, 0)
    } else {
        match shape_slot(slots, StickyKeyShape::TapKey) {
            Some(slot) => {
                let entry = slots[slot]->0;
                if entry.source == press.event.pos && entry.tap_is_down() {
                    (
                        slots.update(
                            slot,
                            Some(entry.released(Some(press.event.pos), press.event_time@)),
                        ),
                        last(Request::ProcessKey { key: press.key, event: press.event }),
                    )
                } else {
                    (slots, Step::Done)
                }
            },
            None => (slots, Step::Done),
        }
    }
}

/// Whether the deadlines that `tap_key_effect` sets are times of the clock.
pub open spec fn tap_key_effect_fits(slots: Slots, press: TapKeyPress) -> bool {
    if press.event.pressed {
        sweep_for_tap_key_fits(slots, press, 0)
    } else {
        shape_slot(slots, StickyKeyShape::TapKey) matches Some(slot) ==> ({
            let entry = slots[slot]->0;
            entry.source == press.event.pos && entry.tap_is_down() && entry.release_outcome(
                Some(press.event.pos),
                press.event_time@,
            ) == PhysicalRelease::Latched ==> entry.policy.latch_fits(press.event_time@)
        })
    }
}

/// A layer event: from a slot on, what the event releases is released.
pub open spec fn sweep_on_layer_event(slots: Slots, event: StickyKeyReleaseMode, from: int) -> (
    Slots,
    Step,
) {
    match first_where(
        slots,
        from,
        |slot: Option<Entry>| slot matches Some(entry) && entry.policy.release_mode.meets(event),
    ) {
        Some(slot) => released_slot(
            slots,
            slot,
            After::SweepOnLayerEvent { event, index: (slot + 1) as usize },
        ),
        None => (slots, Step::Done),
    }
}

/// A look at the clock: slot by slot from `from` on, presses whose threshold has passed count as
/// held, up to the first latch that has timed out, which is released.
pub open spec fn sweep_on_timeout(slots: Slots, now: Instant, from: int) -> (Slots, Step)
    decreases slots.len() - from,
{
    if 0 <= from < slots.len() {
        match slots[from] {
            Some(entry) => if entry.disposition(now@) == DeadlineDisposition::Release {
                released_slot(
                    slots,
                    from,
                    After::SweepOnTimeout { now, index: (from + 1) as usize },
                )
            } else {
                sweep_on_timeout(slots.update(from, Some(entry.polled(now@))), now, from + 1)
            },
            None => sweep_on_timeout(slots, now, from + 1),
        }
    } else {
        (slots, Step::Done)
    }
}

/// What is left to do about a tap key after a foreign action has been carried out.
#[derive(Clone, Copy, Debug, PartialEq, Eq, Structural)]
pub enum StickyKeyPostAction {
    /// Nothing.
    Nothing,
    /// Release the tap key.
    Release,
}

/// Whether the tap key in a slot is released by a foreign action: one that is no modifier, and on
/// an event that its policy names.
pub open spec fn tap_key_released_by(slots: Slots, slot: int, action: Action, event: KeyboardEvent) -> bool {
    !action.preserves_tap_key() && slots[slot]->0.triggers_on(event.pressed)
}

/// A foreign action is about to be carried out: on a press, the tap key that it releases is
/// released before it.
pub open spec fn before_action(slots: Slots, action: Action, event: KeyboardEvent) -> (Slots, Step) {
    match shape_slot(slots, StickyKeyShape::TapKey) {
        Some(slot) => if event.pressed && tap_key_released_by(slots, slot, action, event) {
            released_slot(slots, slot, After::Return)
        } else {
            (slots, Step::Done)
        },
        None => (slots, Step::Done),
    }
}

/// What is left to do after the foreign action: on a release, the tap key that it releases is
/// released after it.
pub open spec fn due_after_action(slots: Slots, action: Action, event: KeyboardEvent) -> StickyKeyPostAction {
    match shape_slot(slots, StickyKeyShape::TapKey) {
        Some(slot) => if !event.pressed && tap_key_released_by(slots, slot, action, event) {
            StickyKeyPostAction::Release
        } else {
            StickyKeyPostAction::Nothing
        },
        None => StickyKeyPostAction::Nothing,
    }
}

/// A foreign action has been carried out.
pub open spec fn after_action(slots: Slots, post_action: StickyKeyPostAction) -> (Slots, Step) {
    if post_action == StickyKeyPostAction::Release {
        match shape_slot(slots, StickyKeyShape::TapKey) {
            Some(slot) => released_slot(slots, slot, After::Return),
            None => (slots, Step::Done),
        }
    } else {
        (slots, Step::Done)
    }
}

/// Whether a foreign key that goes down (`pressed`) or up uses up what the slot holds: a latch, but
/// not that of a tap key, whose policy names the event.
pub open spec fn used_up(slot: Option<Entry>, pressed: bool) -> bool {
    slot matches Some(entry) && entry.shape() != Some(StickyKeyShape::TapKey) && entry.phase
        == StickyPhase::Latched && entry.triggers_on(pressed)
}

/// The slot after a foreign key went down or up: what it used up is gone, what is still down is
/// held for a key that went down, and everything else is as it was.
pub open spec fn slot_after_key(slot: Option<Entry>, pressed: bool) -> Option<Entry> {
    match slot {
        Some(entry) => if used_up(slot, pressed) {
            None
        } else if pressed && entry.shape() != Some(StickyKeyShape::TapKey) {
            Some(entry.foreign_marked())
        } else {
            slot
        },
        None => None,
    }
}

/// The slots after a foreign key went down or up.
pub open spec fn slots_after_key(slots: Slots, pressed: bool) -> Slots {
    slots.map_values(|slot: Option<Entry>| slot_after_key(slot, pressed))
}

/// Whether a foreign key uses up a modifier entry.
pub open spec fn modifier_used_up(slots: Slots, pressed: bool) -> bool {
    exists|i: int|
        0 <= i < slots.len() && used_up(#[trigger] slots[i], pressed) && has_shape(
            slots[i],
            StickyKeyShape::PureMod,
        )
}

/// The layer that a foreign key uses up in a slot.
pub open spec fn layer_used_up(slot: Option<Entry>, pressed: bool) -> Option<u8> {
    if used_up(slot, pressed) {
        slot->0.layer()
    } else {
        None
    }
}

/// The layers that a foreign key uses up, slot by slot.
pub open spec fn layers_used_up(slots: Slots, pressed: bool) -> Seq<Option<u8>> {
    slots.map_values(|slot: Option<Entry>| layer_used_up(slot, pressed))
}

/// What is left to do once a request has been carried out.
pub open spec fn proceed(slots: Slots, after: After) -> (Slots, Step) {
    match after {
        After::Return => (slots, Step::Done),
        After::PressModifier(press) => press_modifier(slots, press),
        After::CheckLayer(press) => (
            slots,
            Step::Call { request: Request::LayerCount, then: Continuation::LayerCount(press) },
        ),
        After::InsertLayer(press) => insert_layer(slots, press),
        After::SweepForTapKey { press, index } => sweep_for_tap_key(slots, press, index as int),
        After::PressTapKey(press) => press_tap_key(slots, press),
        After::SweepOnLayerEvent { event, index } => sweep_on_layer_event(slots, event, index as int),
        After::SweepOnTimeout { now, index } => sweep_on_timeout(slots, now, index as int),
    }
}

/// Whether the deadlines that `proceed` sets are times of the clock.
pub open spec fn proceed_fits(slots: Slots, after: After) -> bool {
    match after {
        After::PressModifier(press) => press_modifier_fits(slots, press),
        After::InsertLayer(press) => press.policy.hold_fits(press.event_time@),
        After::SweepForTapKey { press, index } => sweep_for_tap_key_fits(slots, press, index as int),
        After::PressTapKey(press) => press_tap_key_fits(slots, press),
        _ => true,
    }
}

/// The key of a sticky key goes down or up, under its policy.
pub open spec fn action_effect(
    slots: Slots,
    keys_down: bool,
    action: Action,
    policy: StickyKeyPolicy,
    event: KeyboardEvent,
    event_time: Instant,
    producer_source: ModifierProducerSource,
) -> (Slots, Step) {
    match action {
        Action::Modifier(modifiers) => modifier_effect(
            slots,
            keys_down,
            ModifierPress { modifiers, policy, event, event_time, producer_source },
        ),
        Action::LayerOn(layer) => layer_effect(slots, LayerPress { layer, policy, event, event_time }),
        Action::KeyWithModifier(key, modifiers) => tap_key_effect(
            slots,
            TapKeyPress { key, modifiers, policy, event, event_time },
        ),
        _ => (slots, Step::Done),
    }
}

/// Whether the deadlines that `action_effect` sets are times of the clock.
pub open spec fn action_effect_fits(
    slots: Slots,
    keys_down: bool,
    action: Action,
    policy: StickyKeyPolicy,
    event: KeyboardEvent,
    event_time: Instant,
    producer_source: ModifierProducerSource,
) -> bool {
    match action {
        Action::Modifier(modifiers) => modifier_effect_fits(
            slots,
            keys_down,
            ModifierPress { modifiers, policy, event, event_time, producer_source },
        ),
        Action::LayerOn(layer) => layer_effect_fits(
            slots,
            LayerPress { layer, policy, event, event_time },
        ),
        Action::KeyWithModifier(key, modifiers) => tap_key_effect_fits(
            slots,
            TapKeyPress { key, modifiers, policy, event, event_time },
        ),
        _ => true,
    }
}

/// The first step of an event of a sticky key's own key: the policy of its profile is asked for,
/// unless no sticky key can hold the action.
pub open spec fn opening(
    action: Action,
    profile: u8,
    event: KeyboardEvent,
    event_time: Instant,
    modifier_source: ModifierProducerSource,
) -> Step {
    match action.shape() {
        Some(shape) => Step::Call {
            request: Request::Policy { profile, shape },
            then: Continuation::Policy { action, event, event_time, modifier_source },
        },
        None => Step::Done,
    }
}

/// Whether a balancing report is owed after a key report: the key used up modifiers, and it is a
/// basic key whose press releases them, or another key while the host still sees them.
pub open spec fn report_owed(
    slots: Slots,
    sticky_contributed: ModifierCombination,
    pressed: bool,
    is_basic_keyboard_key: bool,
) -> bool {
    modifier_used_up(slots, pressed) && if is_basic_keyboard_key {
        pressed && modifier_triggers_on_press(slots)
    } else {
        sticky_contributed != ModifierCombination::none()
    }
}

/// Whether the reply is what the continuation waits for.
pub open spec fn accepts(then: Continuation, reply: Reply) -> bool {
    match then {
        Continuation::Policy { action, .. } => reply is Policy && action.shape() is Some,
        Continuation::LayerCount(_) => reply is LayerCount,
        Continuation::ReleaseModifiers { .. } => reply is NonStickyModifiers,
        Continuation::LiveRelease { .. } => reply is NonStickyModifiers,
        Continuation::Proceed(_) => reply is Done,
    }
}

/// The modifiers that the host loses with released ones: those that it was last told of on account
/// of sticky keys, and that nothing else holds.
pub open spec fn lost_by_host(
    modifiers: ModifierCombination,
    sticky_contributed: ModifierCombination,
    non_sticky: ModifierCombination,
) -> ModifierCombination {
    (modifiers & sticky_contributed) & non_sticky.others()
}

/// How the handling of an event goes on after a reply.
pub open spec fn resumed(
    slots: Slots,
    keys_down: bool,
    sticky_contributed: ModifierCombination,
    then: Continuation,
    reply: Reply,
) -> (Slots, Step) {
    match (then, reply) {
        (
            Continuation::Policy { action, event, event_time, modifier_source },
            Reply::Policy(policy),
        ) => action_effect(
            slots,
            keys_down,
            action,
            policy,
            event,
            event_time,
            modifier_source,
        ),
        (Continuation::LayerCount(press), Reply::LayerCount(layers)) => check_layer(
            slots,
            press,
            layers as int,
        ),
        (
            Continuation::ReleaseModifiers { modifiers, after },
            Reply::NonStickyModifiers(non_sticky),
        ) => if lost_by_host(modifiers, sticky_contributed, non_sticky)
            != ModifierCombination::none() {
            (
                slots,
                Step::Call {
                    request: Request::SendReport { pressed: false },
                    then: Continuation::Proceed(after),
                },
            )
        } else {
            proceed(slots, after)
        },
        (
            Continuation::LiveRelease { old_effective, new_effective },
            Reply::NonStickyModifiers(non_sticky),
        ) => (slots, last(Request::SendLiveRelease { old_effective, new_effective, non_sticky })),
        (Continuation::Proceed(after), Reply::Done) => proceed(slots, after),
        _ => (slots, Step::Done),
    }
}

/// Whether the deadlines that `resumed` sets are times of the clock.
pub open spec fn resumed_fits(
    slots: Slots,
    keys_down: bool,
    sticky_contributed: ModifierCombination,
    then: Continuation,
    reply: Reply,
) -> bool {
    match (then, reply) {
        (
            Continuation::Policy { action, event, event_time, modifier_source },
            Reply::Policy(policy),
        ) => action_effect_fits(
            slots,
            keys_down,
            action,
            policy,
            event,
            event_time,
            modifier_source,
        ),
        (Continuation::LayerCount(press), Reply::LayerCount(layers)) => check_layer_fits(
            slots,
            press,
            layers as int,
        ),
        (
            Continuation::ReleaseModifiers { modifiers, after },
            Reply::NonStickyModifiers(non_sticky),
        ) => lost_by_host(modifiers, sticky_contributed, non_sticky) != ModifierCombination::none()
            || proceed_fits(slots, after),
        (Continuation::Proceed(after), Reply::Done) => proceed_fits(slots, after),
        _ => true,
    }
}

} // verus!
