use sticky_key::action::{Action, HidKeyCode};
use sticky_key::config::{StickyKeyHoldDuration, StickyKeyPolicy, StickyKeyReleaseMode};
use sticky_key::entry::{DeadlineDisposition, PhysicalRelease, StickyEntry, StickyPhase};
use sticky_key::event::KeyboardEventPos;
use sticky_key::modifier::ModifierCombination;
use sticky_key::producers::{
    ModifierProducer, ModifierProducerInsert, ModifierProducerRelease, ModifierProducerSource,
    StickyModifierEffect, MAX_STICKY_MODIFIER_PRODUCERS,
};
use sticky_key::state::StickyKeyState;
use sticky_key::time::{Duration, Instant};

const LCTRL: ModifierCombination = ModifierCombination { bits: ModifierCombination::LCTRL };
const LSHIFT: ModifierCombination = ModifierCombination { bits: ModifierCombination::LSHIFT };
const LALT: ModifierCombination = ModifierCombination { bits: ModifierCombination::LALT };

const OTHER_KEY_PRESS: StickyKeyReleaseMode =
    StickyKeyReleaseMode { bits: StickyKeyReleaseMode::OTHER_KEY_PRESS };
const OTHER_KEY_RELEASE: StickyKeyReleaseMode =
    StickyKeyReleaseMode { bits: StickyKeyReleaseMode::OTHER_KEY_RELEASE };
const LAYER_EXIT: StickyKeyReleaseMode =
    StickyKeyReleaseMode { bits: StickyKeyReleaseMode::LAYER_EXIT };

const KEY_A: HidKeyCode = HidKeyCode { usage: 0x04 };

fn secs(count: u64) -> Duration {
    Duration { ticks: embassy_time::Duration::from_secs(count).as_ticks() }
}

fn millis(count: u64) -> Duration {
    Duration { ticks: embassy_time::Duration::from_millis(count).as_ticks() }
}

fn pos(col: u8) -> KeyboardEventPos {
    KeyboardEventPos::key_pos(col, 0)
}

fn direct(col: u8) -> ModifierProducerSource {
    ModifierProducerSource::Direct(pos(col))
}

fn policy(release_mode: StickyKeyReleaseMode) -> StickyKeyPolicy {
    StickyKeyPolicy {
        timeout: secs(1),
        activate_on_keypress: false,
        release_after_hold: StickyKeyHoldDuration::disabled(),
        max_repeat: 0,
        release_mode,
    }
}

fn modifier_entry(
    modifiers: ModifierCombination,
    source: KeyboardEventPos,
    policy: StickyKeyPolicy,
    pressed_at: Instant,
) -> StickyEntry {
    StickyEntry::new(Action::Modifier(modifiers), source, policy, pressed_at)
}

#[test]
fn modifier_effect_counts_overlapping_physical_producers() {
    let pressed_at = Instant::now();
    let mut latch = modifier_entry(
        LCTRL,
        pos(0),
        policy(OTHER_KEY_RELEASE),
        pressed_at,
    );
    latch.add_modifier_producer(LSHIFT, direct(1));
    latch.begin_modifier_press(pos(1), policy(OTHER_KEY_RELEASE), pressed_at);

    assert_eq!(
        latch.on_exact_modifier_release(LCTRL, direct(0)),
        ModifierProducerRelease::Released {
            removed: ModifierProducer {
                source: direct(0),
                modifiers: LCTRL,
            },
            old_effective: LCTRL | LSHIFT,
            new_effective: LSHIFT,
            producers_remain: true,
        }
    );
    assert_eq!(latch.phase, StickyPhase::PressDeadlineInactive);
    let final_release = latch.on_exact_modifier_release(LSHIFT, direct(1));
    assert!(matches!(
        final_release,
        ModifierProducerRelease::Released {
            new_effective,
            producers_remain: false,
            ..
        } if new_effective == ModifierCombination::new()
    ));
    assert_eq!(
        latch.on_physical_release(None, Instant::now()),
        PhysicalRelease::Latched
    );
    latch.retain_modifier(LSHIFT);
    assert_eq!(latch.phase, StickyPhase::Latched);
    assert_eq!(latch.modifiers(), LSHIFT);
}

#[test]
fn held_latch_releases_after_last_physical_producer() {
    let pressed_at = Instant::now();
    let mut latch = modifier_entry(
        LCTRL,
        pos(0),
        policy(OTHER_KEY_RELEASE),
        pressed_at,
    );
    latch.add_modifier_producer(LSHIFT, direct(1));
    latch.begin_modifier_press(pos(1), policy(OTHER_KEY_RELEASE), pressed_at);
    latch.mark_foreign_key();

    assert!(matches!(
        latch.on_exact_modifier_release(LCTRL, direct(0)),
        ModifierProducerRelease::Released {
            producers_remain: true,
            ..
        }
    ));
    assert!(matches!(
        latch.on_exact_modifier_release(LSHIFT, direct(1)),
        ModifierProducerRelease::Released {
            producers_remain: false,
            ..
        }
    ));
    assert_eq!(
        latch.on_physical_release(None, Instant::now()),
        PhysicalRelease::Released
    );
}

#[test]
fn disabled_hold_threshold_has_no_press_deadline() {
    let pressed_at = Instant::now();
    let mut latch = modifier_entry(
        LCTRL,
        pos(0),
        policy(OTHER_KEY_RELEASE),
        pressed_at,
    );

    assert_eq!(latch.phase, StickyPhase::PressDeadlineInactive);
    assert_eq!(latch.deadline(), None);
    assert_eq!(latch.timing_marker, Some(pressed_at));
    assert_eq!(
        latch.on_physical_release(None, pressed_at + secs(2)),
        PhysicalRelease::Latched
    );
    assert_eq!(latch.phase, StickyPhase::Latched);
    assert!(latch.timing_marker.is_some());
}

#[test]
fn configured_hold_threshold_releases_after_deferred_timeout() {
    let mut hold_policy = policy(OTHER_KEY_RELEASE);
    hold_policy.release_after_hold = StickyKeyHoldDuration::from_duration(millis(300));
    let mut latch = modifier_entry(LCTRL, pos(0), hold_policy, Instant::now());
    let deadline = latch.timing_marker.unwrap();

    assert_eq!(latch.deadline_disposition(deadline), DeadlineDisposition::Deferred);
    assert_eq!(latch.phase, StickyPhase::HoldQualified);
    assert_eq!(latch.on_physical_release(None, deadline), PhysicalRelease::Released);
    assert_eq!(latch.timing_marker, None);
}

#[test]
fn configured_hold_threshold_is_inclusive() {
    let mut hold_policy = policy(OTHER_KEY_RELEASE);
    hold_policy.release_after_hold = StickyKeyHoldDuration::from_duration(millis(300));
    let mut short_press = modifier_entry(LCTRL, pos(0), hold_policy, Instant::now());
    let threshold = short_press.timing_marker.unwrap();
    let just_before_threshold = threshold - millis(1);

    assert_eq!(
        short_press.on_physical_release(None, just_before_threshold),
        PhysicalRelease::Latched
    );
    assert_eq!(short_press.phase, StickyPhase::Latched);
    assert_eq!(
        short_press.timing_marker,
        Some(just_before_threshold + hold_policy.timeout)
    );

    let mut threshold_press = modifier_entry(LCTRL, pos(0), hold_policy, Instant::now());
    let threshold = threshold_press.timing_marker.unwrap();

    assert_eq!(
        threshold_press.on_physical_release(None, threshold),
        PhysicalRelease::Released
    );
    assert_eq!(threshold_press.timing_marker, None);
}

#[test]
fn hold_threshold_may_exceed_the_latched_timeout() {
    let mut hold_policy = policy(OTHER_KEY_RELEASE);
    hold_policy.timeout = millis(300);
    hold_policy.release_after_hold = StickyKeyHoldDuration::from_duration(secs(1));
    let pressed_at = Instant::now();
    let released_at = pressed_at + millis(600);
    let mut latch = modifier_entry(LCTRL, pos(0), hold_policy, pressed_at);

    assert_eq!(latch.on_physical_release(None, released_at), PhysicalRelease::Latched);
    assert_eq!(latch.phase, StickyPhase::Latched);
    assert_eq!(latch.timing_marker, Some(released_at + hold_policy.timeout));
}

#[test]
fn hold_threshold_uses_original_buffered_press_time() {
    let mut hold_policy = policy(OTHER_KEY_RELEASE);
    hold_policy.release_after_hold = StickyKeyHoldDuration::from_duration(millis(300));
    let pressed_at = Instant::now();
    let dispatched_at = pressed_at + millis(250);
    let mut latch = modifier_entry(LCTRL, pos(0), hold_policy, pressed_at);

    assert_eq!(
        latch.on_physical_release(None, dispatched_at + millis(50)),
        PhysicalRelease::Released
    );
}

#[test]
fn overlapping_modifier_preserves_chord_hold_start() {
    let mut hold_policy = policy(OTHER_KEY_RELEASE);
    hold_policy.release_after_hold = StickyKeyHoldDuration::from_duration(millis(300));
    let first_press = Instant::now();
    let second_press = first_press + millis(250);
    let release_time = first_press + millis(400);
    let mut latch = modifier_entry(LCTRL, pos(0), hold_policy, first_press);
    latch.add_modifier_producer(LSHIFT, direct(1));
    latch.begin_modifier_press(pos(1), hold_policy, second_press);

    assert!(matches!(
        latch.on_exact_modifier_release(LSHIFT, direct(1)),
        ModifierProducerRelease::Released {
            producers_remain: true,
            ..
        }
    ));
    assert!(matches!(
        latch.on_exact_modifier_release(LCTRL, direct(0)),
        ModifierProducerRelease::Released {
            producers_remain: false,
            ..
        }
    ));
    assert_eq!(latch.on_physical_release(None, release_time), PhysicalRelease::Released);

    let mut reverse_release = modifier_entry(LCTRL, pos(0), hold_policy, first_press);
    reverse_release.add_modifier_producer(LSHIFT, direct(1));
    reverse_release.begin_modifier_press(pos(1), hold_policy, second_press);
    assert!(matches!(
        reverse_release.on_exact_modifier_release(LCTRL, direct(0)),
        ModifierProducerRelease::Released {
            producers_remain: true,
            ..
        }
    ));
    assert!(matches!(
        reverse_release.on_exact_modifier_release(LSHIFT, direct(1)),
        ModifierProducerRelease::Released {
            producers_remain: false,
            ..
        }
    ));
    assert_eq!(
        reverse_release.on_physical_release(None, release_time),
        PhysicalRelease::Released
    );
}

#[test]
fn latest_modifier_policy_uses_chord_hold_start() {
    let mut first_policy = policy(OTHER_KEY_RELEASE);
    first_policy.release_after_hold = StickyKeyHoldDuration::from_duration(millis(300));
    let mut latest_policy = policy(OTHER_KEY_RELEASE);
    latest_policy.release_after_hold = StickyKeyHoldDuration::from_duration(millis(500));
    let first_press = Instant::now();
    let mut latch = modifier_entry(LCTRL, pos(0), first_policy, first_press);
    latch.add_modifier_producer(LSHIFT, direct(1));
    latch.begin_modifier_press(pos(1), latest_policy, first_press + millis(250));

    assert_eq!(
        latch.on_physical_release(None, first_press + millis(400)),
        PhysicalRelease::Latched
    );

    let mut timeout_first = modifier_entry(LCTRL, pos(0), first_policy, first_press);
    assert_eq!(
        timeout_first.deadline_disposition(first_press + millis(300)),
        DeadlineDisposition::Deferred
    );
    timeout_first.add_modifier_producer(LSHIFT, direct(1));
    timeout_first.begin_modifier_press(pos(1), latest_policy, first_press + millis(400));
    assert_eq!(
        timeout_first.on_physical_release(None, first_press + millis(450)),
        PhysicalRelease::Latched
    );
}

#[test]
fn mixed_modifier_profiles_are_independent_of_deadline_poll_order() {
    let mut enabled_policy = policy(OTHER_KEY_RELEASE);
    enabled_policy.release_after_hold = StickyKeyHoldDuration::from_duration(millis(500));
    let mut disabled_policy = policy(OTHER_KEY_RELEASE);
    disabled_policy.timeout = millis(300);
    let first_press = Instant::now();

    for poll_first in [false, true] {
        let mut disabled_then_enabled =
            modifier_entry(LCTRL, pos(0), disabled_policy, first_press);
        if poll_first {
            assert_eq!(
                disabled_then_enabled.deadline_disposition(first_press + millis(300)),
                DeadlineDisposition::Pending
            );
        }
        disabled_then_enabled.add_modifier_producer(LSHIFT, direct(1));
        disabled_then_enabled.begin_modifier_press(
            pos(1),
            enabled_policy,
            first_press + millis(400),
        );
        assert_eq!(
            disabled_then_enabled.on_physical_release(None, first_press + millis(450)),
            PhysicalRelease::Latched
        );

        let mut enabled_then_disabled =
            modifier_entry(LCTRL, pos(0), enabled_policy, first_press);
        if poll_first {
            assert_eq!(
                enabled_then_disabled.deadline_disposition(first_press + millis(500)),
                DeadlineDisposition::Deferred
            );
        }
        enabled_then_disabled.add_modifier_producer(LSHIFT, direct(1));
        enabled_then_disabled.begin_modifier_press(
            pos(1),
            disabled_policy,
            first_press + millis(600),
        );
        assert_eq!(
            enabled_then_disabled.on_physical_release(None, first_press + millis(650)),
            PhysicalRelease::Latched
        );
    }
}

#[test]
fn buffered_foreign_press_claims_latch_until_action_resolves() {
    let mut latch = modifier_entry(
        LCTRL,
        pos(0),
        policy(OTHER_KEY_PRESS),
        Instant::now(),
    );
    assert_eq!(
        latch.on_physical_release(None, Instant::now()),
        PhysicalRelease::Latched
    );

    latch.claim_buffered_press(pos(1));
    assert!(latch.buffered_claim);
    assert_eq!(latch.timing_marker, None);

    latch.finish_buffered_claim();
    assert!(!latch.buffered_claim);
    assert!(latch.timing_marker.is_some());
}

#[test]
fn active_state_stores_actions_in_one_uniform_collection() {
    let mut state = StickyKeyState::default();
    let modifier = modifier_entry(
        LCTRL,
        pos(0),
        policy(OTHER_KEY_RELEASE),
        Instant::now(),
    );
    let layer = StickyEntry::new(
        Action::LayerOn(2),
        pos(1),
        policy(LAYER_EXIT),
        Instant::now(),
    );

    state.insert(modifier).unwrap();
    state.insert(layer).unwrap();

    assert!(
        state
            .active
            .iter()
            .flatten()
            .any(|entry| { entry.action == Action::Modifier(LCTRL) })
    );
    assert!(
        state
            .active
            .iter()
            .flatten()
            .any(|entry| entry.action == Action::LayerOn(2))
    );

    let overflow = StickyEntry::new(
        Action::KeyWithModifier(KEY_A, LSHIFT),
        pos(2),
        policy(OTHER_KEY_RELEASE),
        Instant::now(),
    );
    assert_eq!(state.insert(overflow).unwrap_err().action, overflow.action);
}

#[test]
fn stale_direct_and_combo_releases_cannot_remove_a_current_same_mask_producer() {
    let modifiers = LSHIFT;
    let mut direct_effect = StickyModifierEffect::new(modifiers, direct(1));

    assert_eq!(
        direct_effect.on_exact_release(modifiers, ModifierProducerSource::Combo(0)),
        ModifierProducerRelease::Unmatched
    );
    assert_eq!(direct_effect.effective(), modifiers);

    let mut combo_effect = StickyModifierEffect::new(modifiers, ModifierProducerSource::Combo(1));
    assert_eq!(
        combo_effect.on_exact_release(modifiers, direct(0)),
        ModifierProducerRelease::Unmatched
    );
    assert_eq!(
        combo_effect.on_exact_release(modifiers, ModifierProducerSource::Combo(0)),
        ModifierProducerRelease::Unmatched
    );
    assert_eq!(combo_effect.effective(), modifiers);
}

#[test]
fn same_mask_combo_siblings_release_only_their_own_slot() {
    let modifiers = LSHIFT;
    let mut effect = StickyModifierEffect::new(modifiers, ModifierProducerSource::Combo(0));
    assert_eq!(
        effect.begin_press(modifiers, ModifierProducerSource::Combo(3)),
        ModifierProducerInsert::Added
    );

    assert!(matches!(
        effect.on_exact_release(modifiers, ModifierProducerSource::Combo(0)),
        ModifierProducerRelease::Released {
            removed: ModifierProducer {
                source: ModifierProducerSource::Combo(0),
                modifiers: removed_modifiers,
            },
            producers_remain: true,
            ..
        } if removed_modifiers == modifiers
    ));
    assert!(matches!(
        effect.on_exact_release(modifiers, ModifierProducerSource::Combo(3)),
        ModifierProducerRelease::Released {
            removed: ModifierProducer {
                source: ModifierProducerSource::Combo(3),
                modifiers: removed_modifiers,
            },
            producers_remain: false,
            ..
        } if removed_modifiers == modifiers
    ));
}

#[test]
fn eight_combo_slots_report_the_exact_removed_owner() {
    let modifiers = LCTRL;
    let mut effect = StickyModifierEffect::new(modifiers, ModifierProducerSource::Combo(0));
    for index in 1..MAX_STICKY_MODIFIER_PRODUCERS {
        assert_eq!(
            effect.begin_press(modifiers, ModifierProducerSource::Combo(index as u16)),
            ModifierProducerInsert::Added
        );
    }

    for index in [4, 0, 7, 2, 5, 1, 6, 3] {
        assert!(matches!(
            effect.on_exact_release(modifiers, ModifierProducerSource::Combo(index)),
            ModifierProducerRelease::Released {
                removed: ModifierProducer {
                    source: ModifierProducerSource::Combo(removed_index),
                    modifiers: removed_modifiers,
                },
                ..
            } if removed_index == index && removed_modifiers == modifiers
        ));
    }
}

#[test]
fn modifier_producer_insertion_is_atomic_at_capacity() {
    let mut effect = StickyModifierEffect::new(LCTRL, direct(0));
    for index in 1..MAX_STICKY_MODIFIER_PRODUCERS {
        assert_eq!(
            effect.begin_press(LSHIFT, direct(index as u8)),
            ModifierProducerInsert::Added
        );
    }
    let producers = effect.producers;
    let effective = effect.effective();

    assert_eq!(
        effect.begin_press(LALT, direct(9)),
        ModifierProducerInsert::Full
    );
    assert_eq!(effect.producers, producers);
    assert_eq!(effect.effective(), effective);
}

#[test]
fn rejected_releases_beyond_both_old_capacities_preserve_accepted_owners() {
    let modifiers = LCTRL;
    for combo_sources in [false, true] {
        let source = |index: usize| {
            if combo_sources {
                ModifierProducerSource::Combo(index as u16)
            } else {
                direct(index as u8)
            }
        };
        let mut effect = StickyModifierEffect::new(modifiers, source(0));
        for index in 1..MAX_STICKY_MODIFIER_PRODUCERS {
            assert_eq!(
                effect.begin_press(modifiers, source(index)),
                ModifierProducerInsert::Added
            );
        }
        for index in MAX_STICKY_MODIFIER_PRODUCERS..(MAX_STICKY_MODIFIER_PRODUCERS * 3) {
            assert_eq!(
                effect.begin_press(modifiers, source(index)),
                ModifierProducerInsert::Full
            );
        }

        for index in (MAX_STICKY_MODIFIER_PRODUCERS..(MAX_STICKY_MODIFIER_PRODUCERS * 3)).rev() {
            assert_eq!(
                effect.on_exact_release(modifiers, source(index)),
                ModifierProducerRelease::Unmatched
            );
        }
        assert_eq!(effect.effective(), modifiers);
        assert_eq!(effect.producers.iter().flatten().count(), MAX_STICKY_MODIFIER_PRODUCERS);
    }
}

#[test]
fn direct_and_combo_identity_use_the_same_release_transition() {
    let modifiers = LCTRL;
    let mut direct_effect = StickyModifierEffect::new(modifiers, direct(0));
    let mut combo_effect = StickyModifierEffect::new(modifiers, ModifierProducerSource::Combo(3));

    for release in [
        direct_effect.on_exact_release(modifiers, direct(0)),
        combo_effect.on_exact_release(modifiers, ModifierProducerSource::Combo(3)),
    ] {
        assert!(matches!(
            release,
            ModifierProducerRelease::Released {
                old_effective,
                new_effective,
                producers_remain: false,
                ..
            } if old_effective == modifiers && new_effective == ModifierCombination::new()
        ));
    }
}

#[test]
fn overlapping_modifier_producers_keep_shared_bits() {
    let mut effect = StickyModifierEffect::new(LCTRL, direct(0));
    effect.begin_press(LCTRL | LSHIFT, direct(1));

    assert!(matches!(
        effect.on_exact_release(LCTRL, direct(0)),
        ModifierProducerRelease::Released {
            old_effective,
            new_effective,
            producers_remain: true,
            ..
        } if old_effective == LCTRL | LSHIFT
            && new_effective == LCTRL | LSHIFT
    ));
}

#[test]
fn retained_modifiers_combine_with_live_producers() {
    let mut effect = StickyModifierEffect::new(LSHIFT, direct(1));
    effect.retain(LCTRL);

    assert_eq!(
        effect.effective(),
        LCTRL | LSHIFT
    );
    assert!(matches!(
        effect.on_exact_release(LSHIFT, direct(1)),
        ModifierProducerRelease::Released {
            old_effective,
            new_effective,
            producers_remain: false,
            ..
        } if old_effective == LCTRL | LSHIFT
            && new_effective == LCTRL
    ));
}
