//! The lifecycle of one held action.

use vstd::prelude::*;

use crate::action::Action;
use crate::config::{StickyKeyPolicy, StickyKeyReleaseMode, StickyKeyShape};
use crate::event::KeyboardEventPos;
use crate::modifier::{lemma_union, ModifierCombination};
use crate::producer_laws::lemma_union_with_empty_tail;
use crate::producers::{
    any_producer, ModifierEffect, ModifierProducer, ModifierProducerInsert, ModifierProducerRelease,
    ModifierProducerSource, StickyModifierEffect,
};
use crate::time::{deadline_from, has_deadline, on_clock, ticks_of, Instant};

verus! {

/// Where a held action stands in its life.
#[derive(Clone, Copy, Debug, PartialEq, Eq, Structural)]
pub enum StickyPhase {
    /// One or more physical producers are still down.
    Pressed,
    /// A producer remains down, but its press deadline is absent or consumed.
    /// `StickyEntry::timing_marker` stores the continuous chord's start without scheduling a wake.
    PressDeadlineInactive,
    /// Every producer is up and the effect is armed.
    Latched,
    /// A foreign key was pressed while a producer remained down.
    Held,
    /// The configured key-up release threshold elapsed while a producer remained down.
    HoldQualified,
}

/// Action-local state that cannot be derived from the held action.
#[derive(Clone, Copy, Debug)]
pub enum StickyEffectState {
    /// Layer and tap-key effects are represented completely by `StickyEntry::action`.
    ActionOnly,
    /// Modifier effects additionally track physical and retained ownership.
    Modifier(StickyModifierEffect),
}

/// What a key going up does to a held action.
#[derive(Clone, Copy, Debug, PartialEq, Eq, Structural)]
pub enum PhysicalRelease {
    /// Nothing.
    Ignored,
    /// The effect stays, armed for its use.
    Latched,
    /// The effect ends.
    Released,
}

/// What a look at the clock does to a held action.
#[derive(Clone, Copy, Debug, PartialEq, Eq, Structural)]
pub enum DeadlineDisposition {
    /// No deadline has passed.
    Pending,
    /// The press now counts as held; the release of the key will end the effect.
    Deferred,
    /// The effect has timed out.
    Release,
}

/// One held action.
#[derive(Clone, Copy, Debug)]
pub struct StickyEntry {
    /// Canonical identity of the held action. Effect code derives its shape from this value.
    pub action: Action,
    pub source: KeyboardEventPos,
    pub policy: StickyKeyPolicy,
    pub phase: StickyPhase,
    pub repeat_count: u16,
    /// Active deadline in `Pressed`/`Latched`, or the chord start while a physical producer is down
    /// and no wakeup is needed.
    pub timing_marker: Option<Instant>,
    pub buffered_claim: bool,
    pub effect_state: StickyEffectState,
}

/// What a `StickyEntry` holds, with points in time as tick counts.
#[verifier::ext_equal]
pub struct Entry {
    pub action: Action,
    pub source: KeyboardEventPos,
    pub policy: StickyKeyPolicy,
    pub phase: StickyPhase,
    pub repeat_count: int,
    pub timing_marker: Option<int>,
    pub buffered_claim: bool,
    /// Who holds the modifiers; `None` for an action that holds none.
    pub effect: Option<ModifierEffect>,
}

impl View for StickyEffectState {
    type V = Option<ModifierEffect>;

    open spec fn view(&self) -> Option<ModifierEffect> {
        match *self {
            StickyEffectState::ActionOnly => None,
            StickyEffectState::Modifier(effect) => Some(effect@),
        }
    }
}

impl View for StickyEntry {
    type V = Entry;

    open spec fn view(&self) -> Entry {
        Entry {
            action: self.action,
            source: self.source,
            policy: self.policy,
            phase: self.phase,
            repeat_count: self.repeat_count as int,
            timing_marker: ticks_of(self.timing_marker),
            buffered_claim: self.buffered_claim,
            effect: self.effect_state@,
        }
    }
}

/// The phase and the timing marker of a press at tick `now` in a chord that began at tick `start`:
/// before the hold threshold the key is pressed and a deadline runs; from the threshold on it
/// counts as held; where there is no threshold no deadline runs.
pub open spec fn press_phase(policy: StickyKeyPolicy, start: int, now: int) -> (
    StickyPhase,
    Option<int>,
) {
    match policy.hold_deadline(start) {
        Some(deadline) => if deadline > now {
            (StickyPhase::Pressed, Some(deadline))
        } else {
            (StickyPhase::HoldQualified, Some(start))
        },
        None => (StickyPhase::PressDeadlineInactive, Some(start)),
    }
}

impl Entry {
    /// An action whose key has just gone down.
    pub open spec fn fresh(
        action: Action,
        source: KeyboardEventPos,
        policy: StickyKeyPolicy,
        pressed_at: int,
        modifier_source: ModifierProducerSource,
    ) -> Entry {
        let (phase, timing_marker) = press_phase(policy, pressed_at, pressed_at);
        Entry {
            action,
            source,
            policy,
            phase,
            repeat_count: 1,
            timing_marker,
            buffered_claim: false,
            effect: match action {
                Action::Modifier(modifiers) => Some(
                    ModifierEffect::single(ModifierProducer { source: modifier_source, modifiers }),
                ),
                _ => None,
            },
        }
    }

    /// What holds of every entry that its operations have made.
    pub open spec fn valid(self) -> bool {
        // A modifier action names what its owners hold together.
        &&& match self.effect {
            Some(effect) => self.action == Action::Modifier(effect.effective()),
            None => !(self.action is Modifier),
        }
        // A press with a running deadline has a threshold, and began when the clock was on.
        &&& self.phase == StickyPhase::Pressed ==> {
            &&& self.policy.release_after_hold.threshold is Some
            &&& self.timing_marker is Some
            &&& self.timing_marker == self.policy.hold_deadline(self.held_since()->0)
        }
        &&& self.phase == StickyPhase::PressDeadlineInactive ==> self.timing_marker is Some
        // A buffered use suspends the timeout of a latch, and nothing else does.
        &&& self.buffered_claim ==> self.phase == StickyPhase::Latched
        &&& self.phase == StickyPhase::Latched ==> (self.timing_marker is None <==> (
        self.buffered_claim || self.policy.latch_deadline(0) is None))
        // All times are times of the clock.
        &&& self.timing_marker matches Some(ticks) ==> on_clock(ticks)
        &&& self.held_since() matches Some(ticks) ==> on_clock(ticks)
    }

    /// Whether the phase tells of the producers: a modifier entry is latched exactly while none of
    /// its producers is down.
    pub open spec fn phase_follows_producers(self) -> bool {
        self.effect matches Some(effect) ==> (self.phase == StickyPhase::Latched <==> !any_producer(
            effect.producers,
        ))
    }

    /// The kind of sticky key that holds the action.
    pub open spec fn shape(self) -> Option<StickyKeyShape> {
        self.action.shape()
    }

    /// The modifiers that the action holds.
    pub open spec fn modifiers(self) -> ModifierCombination {
        match self.action {
            Action::Modifier(modifiers) => modifiers,
            Action::KeyWithModifier(_, modifiers) => modifiers,
            _ => ModifierCombination::none(),
        }
    }

    /// The layer that the action holds.
    pub open spec fn layer(self) -> Option<u8> {
        match self.action {
            Action::LayerOn(layer) => Some(layer),
            _ => None,
        }
    }

    /// Whether the key is down and no other key has used the effect yet.
    pub open spec fn awaits_release(self) -> bool {
        match self.phase {
            StickyPhase::Pressed | StickyPhase::PressDeadlineInactive | StickyPhase::HoldQualified => true,
            _ => false,
        }
    }

    /// Whether a tap key is down in the sense that its own release is still to come.
    pub open spec fn tap_is_down(self) -> bool {
        self.phase == StickyPhase::Pressed || self.phase == StickyPhase::PressDeadlineInactive
    }

    /// The tick at which the entry is to be looked at again.
    pub open spec fn deadline(self) -> Option<int> {
        if self.phase == StickyPhase::Pressed || self.phase == StickyPhase::Latched {
            self.timing_marker
        } else {
            None
        }
    }

    /// The tick since which the chord that is still down has been held, where that is known.
    pub open spec fn held_since(self) -> Option<int> {
        match self.phase {
            StickyPhase::Pressed => match (self.timing_marker, self.policy.release_after_hold.threshold) {
                (Some(deadline), Some(threshold)) => Some(deadline - threshold@),
                _ => None,
            },
            StickyPhase::PressDeadlineInactive | StickyPhase::HoldQualified | StickyPhase::Held => {
                self.timing_marker
            },
            StickyPhase::Latched => None,
        }
    }

    /// The tick from which a modifier press at tick `pressed_at` counts: the start of the chord that
    /// it joins, or its own where it starts one.
    pub open spec fn chord_start(self, pressed_at: int) -> int {
        match self.held_since() {
            Some(start) => start,
            None => pressed_at,
        }
    }

    /// The entry after a press at tick `now` in a chord that began at tick `start`.
    pub open spec fn begun(
        self,
        source: KeyboardEventPos,
        policy: StickyKeyPolicy,
        start: int,
        now: int,
    ) -> Entry {
        let (phase, timing_marker) = press_phase(policy, start, now);
        Entry { source, policy, phase, timing_marker, buffered_claim: false, ..self }
    }

    /// The entry with other owners of its modifiers; the action follows.
    pub open spec fn owned_by(self, effect: ModifierEffect) -> Entry {
        Entry {
            action: Action::Modifier(effect.effective()),
            effect: Some(effect),
            ..self
        }
    }

    /// The entry after a producer has gone down.
    pub open spec fn with_producer(self, producer: ModifierProducer) -> Entry {
        if self.effect->0.free_slot() is Some {
            self.owned_by(self.effect->0.pressed(producer))
        } else {
            self
        }
    }

    /// The entry after a producer has gone up.
    pub open spec fn without_producer(self, producer: ModifierProducer) -> Entry {
        if self.effect->0.slot_of(producer) is Some {
            self.owned_by(self.effect->0.released(producer))
        } else {
            self
        }
    }

    /// The entry that keeps modifiers whether or not a producer holds them.
    pub open spec fn retaining(self, modifiers: ModifierCombination) -> Entry {
        self.owned_by(self.effect->0.retaining(modifiers))
    }

    /// What a key going up at tick `now` does. With an `owner`, only the entry's own key counts.
    /// A press that was used or that reached its threshold ends; any other press latches.
    pub open spec fn release_outcome(self, owner: Option<KeyboardEventPos>, now: int) -> PhysicalRelease {
        if owner is Some && owner != Some(self.source) {
            PhysicalRelease::Ignored
        } else {
            match self.phase {
                StickyPhase::Pressed => if self.policy.release_after_hold.threshold is Some && (
                self.timing_marker matches Some(deadline) && deadline <= now) {
                    PhysicalRelease::Released
                } else {
                    PhysicalRelease::Latched
                },
                StickyPhase::PressDeadlineInactive => PhysicalRelease::Latched,
                StickyPhase::Held | StickyPhase::HoldQualified => PhysicalRelease::Released,
                StickyPhase::Latched => PhysicalRelease::Ignored,
            }
        }
    }

    /// The entry after a key has gone up.
    pub open spec fn released(self, owner: Option<KeyboardEventPos>, now: int) -> Entry {
        match self.release_outcome(owner, now) {
            PhysicalRelease::Ignored => self,
            PhysicalRelease::Latched => Entry {
                phase: StickyPhase::Latched,
                timing_marker: self.policy.latch_deadline(now),
                ..self
            },
            PhysicalRelease::Released => Entry {
                phase: if self.phase == StickyPhase::Pressed {
                    StickyPhase::HoldQualified
                } else {
                    self.phase
                },
                timing_marker: None,
                ..self
            },
        }
    }

    /// The entry after another key has used it while its own key is down: no deadline runs any
    /// more, and the marker says since when the chord has been held.
    pub open spec fn foreign_marked(self) -> Entry {
        if self.awaits_release() {
            Entry { phase: StickyPhase::Held, timing_marker: self.held_since(), ..self }
        } else {
            self
        }
    }

    /// Whether another key that goes down (`pressed`) or up releases the entry.
    pub open spec fn triggers_on(self, pressed: bool) -> bool {
        self.policy.release_mode.meets(StickyKeyReleaseMode::of_other_key(pressed))
    }

    /// Whether a buffered press of the key at `source` is going to use the latched effect.
    pub open spec fn claimable_by(self, source: KeyboardEventPos) -> bool {
        self.phase == StickyPhase::Latched && self.source != source && self.triggers_on(true)
    }

    /// The entry after the press of the key at `source` was buffered.
    pub open spec fn claimed(self, source: KeyboardEventPos) -> Entry {
        if self.claimable_by(source) {
            Entry { buffered_claim: true, timing_marker: None, ..self }
        } else {
            self
        }
    }

    /// The entry after the buffered press was resolved at tick `now`: a claimed latch starts its
    /// timeout anew.
    pub open spec fn claim_finished(self, now: int) -> Entry {
        if self.buffered_claim {
            Entry {
                buffered_claim: false,
                timing_marker: self.policy.latch_deadline(now),
                ..self
            }
        } else {
            self
        }
    }

    /// Whether the clock can show the end of the timeout that a claimed latch starts anew at tick
    /// `now`; there is nothing to show where nothing is claimed.
    pub open spec fn claim_can_finish(self, now: int) -> bool {
        !self.buffered_claim || self.policy.latch_fits(now)
    }

    /// Whether a press of the key at `source` is the second tap that releases the entry.
    pub open spec fn double_tapped(self, source: KeyboardEventPos, policy: StickyKeyPolicy) -> bool {
        self.phase == StickyPhase::Latched && self.source == source && policy.release_mode.meets(
            StickyKeyReleaseMode::of_double_tap(),
        )
    }

    /// What a look at the clock at tick `now` does: the deadline of a latch ends the effect, and
    /// the deadline of a press never does.
    pub open spec fn disposition(self, now: int) -> DeadlineDisposition {
        match self.deadline() {
            Some(deadline) => if deadline > now {
                DeadlineDisposition::Pending
            } else if self.phase == StickyPhase::Pressed {
                DeadlineDisposition::Deferred
            } else {
                DeadlineDisposition::Release
            },
            None => DeadlineDisposition::Pending,
        }
    }

    /// The entry after a look at the clock: a press whose threshold has passed counts as held, and
    /// the marker says since when.
    pub open spec fn polled(self, now: int) -> Entry {
        if self.disposition(now) == DeadlineDisposition::Deferred {
            Entry {
                phase: StickyPhase::HoldQualified,
                timing_marker: self.held_since(),
                ..self
            }
        } else {
            self
        }
    }
}

impl StickyEntry {
    /// An action whose key has just gone down; a modifier action is held by that key.
    pub fn new(
        action: Action,
        source: KeyboardEventPos,
        policy: StickyKeyPolicy,
        pressed_at: Instant,
    ) -> (entry: Self)
        requires
            policy.hold_fits(pressed_at@),
        ensures
            entry@ == Entry::fresh(
                action,
                source,
                policy,
                pressed_at@,
                ModifierProducerSource::Direct(source),
            ),
            entry@.valid(),
    {
        StickyEntry::new_with_modifier_source(
            action,
            source,
            policy,
            pressed_at,
            ModifierProducerSource::Direct(source),
        )
    }

    /// An action whose key has just gone down; a modifier action is held by `modifier_source`.
    pub fn new_with_modifier_source(
        action: Action,
        source: KeyboardEventPos,
        policy: StickyKeyPolicy,
        pressed_at: Instant,
        modifier_source: ModifierProducerSource,
    ) -> (entry: Self)
        requires
            policy.hold_fits(pressed_at@),
        ensures
            entry@ == Entry::fresh(action, source, policy, pressed_at@, modifier_source),
            entry@.valid(),
    {
        let (phase, timing_marker) = StickyEntry::press_state(policy, pressed_at, pressed_at);
        let entry = StickyEntry {
            action,
            source,
            policy,
            phase,
            repeat_count: 1,
            timing_marker,
            buffered_claim: false,
            effect_state: match action {
                Action::Modifier(modifiers) => StickyEffectState::Modifier(
                    StickyModifierEffect::new(modifiers, modifier_source),
                ),
                _ => StickyEffectState::ActionOnly,
            },
        };
        proof {
            if let Action::Modifier(modifiers) = action {
                lemma_single_effective(ModifierProducer { source: modifier_source, modifiers });
            }
        }
        entry
    }

    /// Held modifiers whose producer has just gone down.
    pub fn new_modifier(
        modifiers: ModifierCombination,
        source: KeyboardEventPos,
        producer_source: ModifierProducerSource,
        policy: StickyKeyPolicy,
        pressed_at: Instant,
    ) -> (entry: Self)
        requires
            policy.hold_fits(pressed_at@),
        ensures
            entry@ == Entry::fresh(
                Action::Modifier(modifiers),
                source,
                policy,
                pressed_at@,
                producer_source,
            ),
            entry@.valid(),
    {
        StickyEntry::new_with_modifier_source(
            Action::Modifier(modifiers),
            source,
            policy,
            pressed_at,
            producer_source,
        )
    }

    /// Whether the entry holds modifiers.
    pub fn is_modifier(&self) -> (modifier: bool)
        ensures
            modifier == (self@.shape() == Some(StickyKeyShape::PureMod)),
    {
        matches!(self.action, Action::Modifier(_))
    }

    /// Whether the entry holds a layer.
    pub fn is_layer(&self) -> (layer: bool)
        ensures
            layer == (self@.shape() == Some(StickyKeyShape::Layer)),
    {
        matches!(self.action, Action::LayerOn(_))
    }

    /// Whether the entry is a tap key.
    pub fn is_tap_key(&self) -> (tap_key: bool)
        ensures
            tap_key == (self@.shape() == Some(StickyKeyShape::TapKey)),
    {
        matches!(self.action, Action::KeyWithModifier(_, _))
    }

    /// The modifiers that the action holds.
    pub fn modifiers(&self) -> (modifiers: ModifierCombination)
        ensures
            modifiers == self@.modifiers(),
    {
        match self.action {
            Action::Modifier(modifiers) => modifiers,
            Action::KeyWithModifier(_, modifiers) => modifiers,
            _ => ModifierCombination::new(),
        }
    }

    /// The layer that the action holds.
    pub fn layer(&self) -> (layer: Option<u8>)
        ensures
            layer == self@.layer(),
    {
        match self.action {
            Action::LayerOn(layer) => Some(layer),
            _ => None,
        }
    }

    /// A producer of a modifier entry goes down. Where there is no slot for it, nothing changes.
    pub fn add_modifier_producer(
        &mut self,
        modifiers: ModifierCombination,
        source: ModifierProducerSource,
    ) -> (inserted: ModifierProducerInsert)
        requires
            old(self)@.effect is Some,
        ensures
            final(self)@ == old(self)@.with_producer(ModifierProducer { source, modifiers }),
            inserted == old(self)@.effect->0.press_outcome(),
            inserted == if old(self)@.effect->0.free_slot() is Some {
                ModifierProducerInsert::Added
            } else {
                ModifierProducerInsert::Full
            },
            old(self)@.valid() ==> final(self)@.valid(),
    {
        let inserted = self.modifier_effect_mut().begin_press(modifiers, source);
        if inserted == ModifierProducerInsert::Added {
            self.sync_modifier_action();
        }
        inserted
    }

    /// A producer of a modifier entry goes up. Where it is not down, nothing changes.
    pub fn on_exact_modifier_release(
        &mut self,
        modifiers: ModifierCombination,
        source: ModifierProducerSource,
    ) -> (release: ModifierProducerRelease)
        requires
            old(self)@.effect is Some,
        ensures
            final(self)@ == old(self)@.without_producer(ModifierProducer { source, modifiers }),
            release == old(self)@.effect->0.release(ModifierProducer { source, modifiers }),
            old(self)@.valid() ==> final(self)@.valid(),
    {
        let release = self.modifier_effect_mut().on_exact_release(modifiers, source);
        if matches!(release, ModifierProducerRelease::Released { .. }) {
            self.sync_modifier_action();
        }
        release
    }

    /// Keeps modifiers of a modifier entry whether or not a producer holds them.
    pub fn retain_modifier(&mut self, modifiers: ModifierCombination)
        requires
            old(self)@.effect is Some,
        ensures
            final(self)@ == old(self)@.retaining(modifiers),
            old(self)@.valid() ==> final(self)@.valid(),
    {
        self.modifier_effect_mut().retain(modifiers);
        self.sync_modifier_action();
    }

    /// Lets the action of a modifier entry name what its owners hold together.
    pub fn sync_modifier_action(&mut self)
        requires
            old(self)@.effect is Some,
        ensures
            final(self)@ == old(self)@.owned_by(old(self)@.effect->0),
    {
        self.action = Action::Modifier(self.modifier_effect().effective());
    }

    /// The owners of the modifiers of a modifier entry.
    pub fn modifier_effect(&self) -> (effect: &StickyModifierEffect)
        requires
            self@.effect is Some,
        ensures
            effect@ == self@.effect->0,
    {
        match &self.effect_state {
            StickyEffectState::Modifier(effect) => effect,
            StickyEffectState::ActionOnly => vstd::pervasive::unreached(),
        }
    }

    /// The owners of the modifiers of a modifier entry, to be changed in place.
    pub fn modifier_effect_mut(&mut self) -> (effect: &mut StickyModifierEffect)
        requires
            old(self)@.effect is Some,
        ensures
            effect@ == old(self)@.effect->0,
            final(self)@ == (Entry { effect: Some(final(effect)@), ..old(self)@ }),
    {
        match &mut self.effect_state {
            StickyEffectState::Modifier(effect) => effect,
            StickyEffectState::ActionOnly => vstd::pervasive::unreached(),
        }
    }

    /// When the entry is to be looked at again.
    pub fn deadline(&self) -> (deadline: Option<Instant>)
        ensures
            ticks_of(deadline) == self@.deadline(),
    {
        if matches!(self.phase, StickyPhase::Pressed | StickyPhase::Latched) {
            self.timing_marker
        } else {
            None
        }
    }

    /// The phase and the timing marker of a press at `now` in a chord that began at
    /// `chord_started_at`.
    pub fn press_state(policy: StickyKeyPolicy, chord_started_at: Instant, now: Instant) -> (state: (
        StickyPhase,
        Option<Instant>,
    ))
        requires
            policy.hold_fits(chord_started_at@),
        ensures
            (state.0, ticks_of(state.1)) == press_phase(policy, chord_started_at@, now@),
    {
        let hold_duration = match policy.release_after_hold.duration() {
            Some(hold_duration) => hold_duration,
            None => {
                return (StickyPhase::PressDeadlineInactive, Some(chord_started_at));
            },
        };

        match deadline_from(chord_started_at, hold_duration) {
            Some(deadline) => if deadline.ticks > now.ticks {
                (StickyPhase::Pressed, Some(deadline))
            } else {
                (StickyPhase::HoldQualified, Some(chord_started_at))
            },
            None => (StickyPhase::PressDeadlineInactive, Some(chord_started_at)),
        }
    }

    /// The key goes down again, under a policy of its own.
    pub fn begin_press(&mut self, source: KeyboardEventPos, policy: StickyKeyPolicy, pressed_at: Instant)
        requires
            policy.hold_fits(pressed_at@),
        ensures
            final(self)@ == old(self)@.begun(source, policy, pressed_at@, pressed_at@),
            old(self)@.valid() ==> final(self)@.valid(),
    {
        self.source = source;
        self.policy = policy;
        let (phase, timing_marker) = StickyEntry::press_state(policy, pressed_at, pressed_at);
        self.phase = phase;
        self.timing_marker = timing_marker;
        self.buffered_claim = false;
    }

    /// The time since which the chord that is still down has been held, where that is known.
    pub fn held_since(&self) -> (start: Option<Instant>)
        requires
            self@.valid(),
        ensures
            ticks_of(start) == self@.held_since(),
    {
        match self.phase {
            StickyPhase::Pressed => match (self.timing_marker, self.policy.release_after_hold.duration()) {
                (Some(deadline), Some(hold_duration)) => Some(deadline - hold_duration),
                _ => None,
            },
            StickyPhase::PressDeadlineInactive | StickyPhase::HoldQualified | StickyPhase::Held => {
                self.timing_marker
            },
            StickyPhase::Latched => None,
        }
    }

    /// The time from which a modifier press at `pressed_at` counts: the start of the chord that it
    /// joins, or its own where it starts one.
    pub fn chord_start(&self, pressed_at: Instant) -> (start: Instant)
        requires
            self@.valid(),
        ensures
            start@ == self@.chord_start(pressed_at@),
    {
        self.held_since().unwrap_or(pressed_at)
    }

    /// Adds a producer to the current modifier chord without forgetting how long the chord has
    /// already been held. The latest producer still selects the policy, but its threshold is
    /// measured from the chord's first press.
    pub fn begin_modifier_press(
        &mut self,
        source: KeyboardEventPos,
        policy: StickyKeyPolicy,
        pressed_at: Instant,
    )
        requires
            old(self)@.valid(),
            policy.hold_fits(old(self)@.chord_start(pressed_at@)),
        ensures
            final(self)@ == old(self)@.begun(
                source,
                policy,
                old(self)@.chord_start(pressed_at@),
                pressed_at@,
            ),
            final(self)@.valid(),
    {
        let chord_started_at = self.chord_start(pressed_at);

        self.source = source;
        self.policy = policy;
        let (phase, timing_marker) = StickyEntry::press_state(policy, chord_started_at, pressed_at);
        self.phase = phase;
        self.timing_marker = timing_marker;
        self.buffered_claim = false;
    }

    /// What a key going up at `now` would do. With an `owner`, only the entry's own key counts.
    pub fn release_outcome(&self, owner: Option<KeyboardEventPos>, now: Instant) -> (release: PhysicalRelease)
        ensures
            release == self@.release_outcome(owner, now@),
    {
        if let Some(owner) = owner {
            if owner != self.source {
                return PhysicalRelease::Ignored;
            }
        }
        match self.phase {
            StickyPhase::Pressed => {
                let threshold_passed = match self.timing_marker {
                    Some(deadline) => deadline.ticks <= now.ticks,
                    None => false,
                };
                if self.policy.release_after_hold.duration().is_some() && threshold_passed {
                    PhysicalRelease::Released
                } else {
                    PhysicalRelease::Latched
                }
            },
            StickyPhase::PressDeadlineInactive => PhysicalRelease::Latched,
            StickyPhase::Held | StickyPhase::HoldQualified => PhysicalRelease::Released,
            StickyPhase::Latched => PhysicalRelease::Ignored,
        }
    }

    /// A key goes up at `now`. With an `owner`, only the entry's own key counts.
    pub fn on_physical_release(&mut self, owner: Option<KeyboardEventPos>, now: Instant) -> (release:
        PhysicalRelease)
        requires
            old(self)@.release_outcome(owner, now@) == PhysicalRelease::Latched
                ==> old(self)@.policy.latch_fits(now@),
        ensures
            final(self)@ == old(self)@.released(owner, now@),
            release == old(self)@.release_outcome(owner, now@),
            old(self)@.valid() ==> final(self)@.valid(),
    {
        let release = self.release_outcome(owner, now);
        match release {
            PhysicalRelease::Ignored => {},
            PhysicalRelease::Latched => {
                self.phase = StickyPhase::Latched;
                self.timing_marker = deadline_from(now, self.policy.timeout);
            },
            PhysicalRelease::Released => {
                if self.phase == StickyPhase::Pressed {
                    self.phase = StickyPhase::HoldQualified;
                }
                self.timing_marker = None;
            },
        }
        release
    }

    /// Another key is pressed while the entry's own key is down.
    pub fn mark_foreign_key(&mut self)
        requires
            old(self)@.valid(),
        ensures
            final(self)@ == old(self)@.foreign_marked(),
            final(self)@.valid(),
    {
        if matches!(
            self.phase,
            StickyPhase::Pressed | StickyPhase::PressDeadlineInactive | StickyPhase::HoldQualified
        ) {
            self.timing_marker = self.held_since();
            self.phase = StickyPhase::Held;
        }
    }

    /// Whether another key that goes down (`pressed`) or up releases the entry.
    pub fn trigger_for_key(&self, pressed: bool) -> (triggers: bool)
        ensures
            triggers == self@.triggers_on(pressed),
    {
        let trigger = if pressed {
            StickyKeyReleaseMode { bits: StickyKeyReleaseMode::OTHER_KEY_PRESS }
        } else {
            StickyKeyReleaseMode { bits: StickyKeyReleaseMode::OTHER_KEY_RELEASE }
        };
        self.policy.release_mode.intersects(trigger)
    }

    /// The press of the key at `source` was buffered: a latch that it is going to use stops timing
    /// out.
    pub fn claim_buffered_press(&mut self, source: KeyboardEventPos)
        ensures
            final(self)@ == old(self)@.claimed(source),
            old(self)@.valid() ==> final(self)@.valid(),
    {
        if self.phase == StickyPhase::Latched && self.source != source && self.trigger_for_key(true) {
            self.buffered_claim = true;
            self.timing_marker = None;
        }
    }

    /// The buffered press was resolved at `now`: a claimed latch starts its timeout anew.
    pub fn finish_buffered_claim_at(&mut self, now: Instant)
        requires
            old(self)@.buffered_claim ==> old(self)@.policy.latch_fits(now@),
        ensures
            final(self)@ == old(self)@.claim_finished(now@),
            old(self)@.valid() ==> final(self)@.valid(),
    {
        if self.buffered_claim {
            self.buffered_claim = false;
            self.timing_marker = deadline_from(now, self.policy.timeout);
        }
    }

    /// The buffered press was resolved at `now`: a claimed latch starts its timeout anew. Only where
    /// the clock cannot show the end of that timeout does the claim stay, and the result is `false`.
    pub fn try_finish_buffered_claim_at(&mut self, now: Instant) -> (finished: bool)
        ensures
            finished == old(self)@.claim_can_finish(now@),
            final(self)@ == if finished {
                old(self)@.claim_finished(now@)
            } else {
                old(self)@
            },
            old(self)@.valid() ==> final(self)@.valid(),
    {
        let finished = !self.buffered_claim || has_deadline(now, self.policy.timeout);
        if finished {
            self.finish_buffered_claim_at(now);
        }
        finished
    }

    /// The buffered press was resolved: a claimed latch starts its timeout anew, from what the
    /// clock shows. Only where the clock cannot show the end of that timeout does the claim stay,
    /// and the result is `false`.
    pub fn finish_buffered_claim(&mut self) -> (finished: bool)
        ensures
            exists|now: Instant|
                finished == #[trigger] old(self)@.claim_can_finish(now@) && final(self)@ == (
                if finished {
                    old(self)@.claim_finished(now@)
                } else {
                    old(self)@
                }),
            !finished ==> final(self)@ == old(self)@,
            !old(self)@.buffered_claim ==> finished && final(self)@ == old(self)@,
            old(self)@.policy.latch_deadline(0) is None ==> finished,
            old(self)@.valid() ==> final(self)@.valid(),
    {
        let now = Instant::now();
        let finished = self.try_finish_buffered_claim_at(now);
        assert(finished == old(self)@.claim_can_finish(now@));
        finished
    }

    /// Whether a press of the key at `source` is the second tap that releases the entry.
    pub fn is_double_tap(&self, source: KeyboardEventPos, policy: StickyKeyPolicy) -> (double_tap: bool)
        ensures
            double_tap == self@.double_tapped(source, policy),
    {
        self.phase == StickyPhase::Latched && self.source == source && policy.release_mode.intersects(
            StickyKeyReleaseMode { bits: StickyKeyReleaseMode::DOUBLE_TAP },
        )
    }

    /// A look at the clock. A timeout cannot erase a latch whose physical producer is still down:
    /// its later release must still complete the lifecycle.
    pub fn deadline_disposition(&mut self, now: Instant) -> (disposition: DeadlineDisposition)
        requires
            old(self)@.valid(),
        ensures
            final(self)@ == old(self)@.polled(now@),
            disposition == old(self)@.disposition(now@),
            final(self)@.valid(),
    {
        let deadline = match self.deadline() {
            Some(deadline) => deadline,
            None => {
                return DeadlineDisposition::Pending;
            },
        };
        if deadline.ticks > now.ticks {
            return DeadlineDisposition::Pending;
        }
        if self.phase == StickyPhase::Pressed {
            self.timing_marker = match self.policy.release_after_hold.duration() {
                Some(hold_duration) => Some(deadline - hold_duration),
                None => None,
            };
            self.phase = StickyPhase::HoldQualified;
            DeadlineDisposition::Deferred
        } else {
            DeadlineDisposition::Release
        }
    }
}

/// One producer alone puts its own modifiers into effect.
pub proof fn lemma_single_effective(producer: ModifierProducer)
    ensures
        ModifierEffect::single(producer).effective() == producer.modifiers,
{
    let effect = ModifierEffect::single(producer);
    lemma_union_with_empty_tail(effect.producers, effect.retained);
    lemma_union(producer.modifiers, producer.modifiers, producer.modifiers);
}

} // verus!
