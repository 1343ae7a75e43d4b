use sticky_key::action::{Action, HidKeyCode, KeyCode};
use sticky_key::config::{
    StickyKeyHoldDuration, StickyKeyPolicy, StickyKeyReleaseMode, StickyKeyShape,
};
use sticky_key::entry::{PhysicalRelease, StickyEntry, StickyPhase};
use sticky_key::event::{KeyboardEvent, KeyboardEventPos};
use sticky_key::keyboard::{Keyboard, ModifierReport};
use sticky_key::machine::{After, Continuation, Reply, Request, Step, StickyKeyPostAction};
use sticky_key::modifier::ModifierCombination;
use sticky_key::producers::{
    ModifierProducerRelease, ModifierProducerSource, StickyModifierEffect,
    MAX_STICKY_MODIFIER_PRODUCERS,
};
use sticky_key::state::StickyKeyState;
use sticky_key::time::{deadline_from, has_deadline, Duration, Instant};

const NONE: ModifierCombination = ModifierCombination { bits: 0 };
const LCTRL: ModifierCombination = ModifierCombination { bits: ModifierCombination::LCTRL };
const LSHIFT: ModifierCombination = ModifierCombination { bits: ModifierCombination::LSHIFT };

const PRESS: u8 = StickyKeyReleaseMode::OTHER_KEY_PRESS;
const RELEASE: u8 = StickyKeyReleaseMode::OTHER_KEY_RELEASE;
const DOUBLE_TAP: u8 = StickyKeyReleaseMode::DOUBLE_TAP;
const LAYER_EXIT: u8 = StickyKeyReleaseMode::LAYER_EXIT;

const KEY_A: HidKeyCode = HidKeyCode { usage: 0x04 };
const KEY_TAB: HidKeyCode = HidKeyCode { usage: 0x2B };

const TIMEOUT: u64 = 1000;

fn at(ticks: u64) -> Instant {
    Instant { ticks }
}

fn pos(col: u8) -> KeyboardEventPos {
    KeyboardEventPos::key_pos(col, 0)
}

fn direct(col: u8) -> ModifierProducerSource {
    ModifierProducerSource::Direct(pos(col))
}

fn down(col: u8) -> KeyboardEvent {
    KeyboardEvent { pressed: true, pos: pos(col) }
}

fn up(col: u8) -> KeyboardEvent {
    KeyboardEvent { pressed: false, pos: pos(col) }
}

fn policy(bits: u8) -> StickyKeyPolicy {
    StickyKeyPolicy {
        timeout: Duration { ticks: TIMEOUT },
        activate_on_keypress: false,
        release_after_hold: StickyKeyHoldDuration::disabled(),
        max_repeat: 0,
        release_mode: StickyKeyReleaseMode::from_bits(bits),
    }
}

/// A keyboard whose other parts answer at once and keep a record of what they were asked to do.
struct Rig {
    keyboard: Keyboard,
    policy: StickyKeyPolicy,
    layers: usize,
    non_sticky: ModifierCombination,
    done: Vec<Request>,
}

impl Rig {
    fn new(policy: StickyKeyPolicy) -> Rig {
        Rig {
            keyboard: Keyboard {
                sticky_key_state: StickyKeyState::default(),
                physical_keys_down: 0,
                last_modifier_report: ModifierReport { sticky_contributed: NONE },
            },
            policy,
            layers: 4,
            non_sticky: NONE,
            done: Vec::new(),
        }
    }

    fn run(&mut self, first: Step) {
        let mut step = first;
        while let Step::Call { request, then } = step {
            let reply = match request {
                Request::Policy { .. } => Reply::Policy(self.policy),
                Request::LayerCount => Reply::LayerCount(self.layers),
                Request::NonStickyModifiers => Reply::NonStickyModifiers(self.non_sticky),
                _ => {
                    self.done.push(request);
                    Reply::Done
                }
            };
            assert!(self.keyboard.can_resume(then, reply));
            step = self.keyboard.resume(then, reply);
        }
    }

    fn key_from(&mut self, action: Action, event: KeyboardEvent, time: u64, source: ModifierProducerSource) {
        let step = self.keyboard.process_action_sticky_key(action, 0, event, at(time), source);
        self.run(step);
    }

    fn key(&mut self, action: Action, event: KeyboardEvent, time: u64) {
        self.key_from(action, event, time, ModifierProducerSource::Direct(event.pos));
    }

    fn tap(&mut self, action: Action, col: u8, time: u64) {
        self.key(action, down(col), time);
        self.key(action, up(col), time + 10);
    }

    fn entry(&self, index: usize) -> StickyEntry {
        self.keyboard.sticky_key_state.active[index].unwrap()
    }

    fn holds_nothing(&self) -> bool {
        self.keyboard.sticky_key_state.active.iter().all(|slot| slot.is_none())
    }

    fn take_done(&mut self) -> Vec<Request> {
        std::mem::take(&mut self.done)
    }
}

fn live_release(old: ModifierCombination, new: ModifierCombination) -> Request {
    Request::SendLiveRelease { old_effective: old, new_effective: new, non_sticky: NONE }
}

#[test]
fn tapped_modifier_is_reported_with_the_next_key_and_used_up() {
    let mut rig = Rig::new(policy(RELEASE));
    rig.tap(Action::Modifier(LCTRL), 0, 100);
    assert_eq!(rig.entry(0).phase, StickyPhase::Latched);
    assert_eq!(rig.entry(0).timing_marker, Some(at(110 + TIMEOUT)));
    assert_eq!(rig.keyboard.sticky_key_state.modifiers(true), LCTRL);
    assert_eq!(rig.keyboard.sticky_key_state.modifiers(false), NONE);
    assert_eq!(rig.take_done(), vec![live_release(LCTRL, LCTRL)]);

    let finish = rig.keyboard.finish_sticky_key_for_key(down(5), true);
    assert!(!finish.needs_report);
    assert_eq!(rig.entry(0).phase, StickyPhase::Latched);
    let finish = rig.keyboard.finish_sticky_key_for_key(up(5), true);
    assert!(!finish.needs_report);
    assert_eq!(finish.deactivated_layers, [None, None]);
    assert!(rig.holds_nothing());
    assert_eq!(rig.keyboard.sticky_key_state.modifiers(true), NONE);
}

#[test]
fn modifier_that_a_press_releases_needs_a_balancing_report() {
    let mut rig = Rig::new(policy(PRESS));
    rig.tap(Action::Modifier(LSHIFT), 0, 100);
    let finish = rig.keyboard.finish_sticky_key_for_key(down(5), true);
    assert!(finish.needs_report);
    assert!(rig.holds_nothing());
    assert!(!rig.keyboard.finish_sticky_key_for_key(down(5), true).needs_report);
}

#[test]
fn other_keys_need_a_report_only_where_the_host_sees_the_modifier() {
    for (contributed, expected) in [(NONE, false), (LSHIFT, true)] {
        let mut rig = Rig::new(policy(PRESS));
        rig.tap(Action::Modifier(LSHIFT), 0, 100);
        rig.keyboard.last_modifier_report.sticky_contributed = contributed;
        let finish = rig.keyboard.finish_sticky_key_for_key(down(5), false);
        assert_eq!(finish.needs_report, expected);
    }
}

#[test]
fn held_modifier_acts_like_an_ordinary_one() {
    let mut rig = Rig::new(policy(RELEASE));
    rig.key(Action::Modifier(LCTRL), down(0), 100);
    rig.keyboard.finish_sticky_key_for_key(down(5), true);
    assert_eq!(rig.entry(0).phase, StickyPhase::Held);
    assert_eq!(rig.keyboard.sticky_key_state.modifiers(false), LCTRL);
    rig.keyboard.finish_sticky_key_for_key(up(5), true);
    assert_eq!(rig.entry(0).phase, StickyPhase::Held);
    rig.take_done();
    rig.key(Action::Modifier(LCTRL), up(0), 130);
    assert!(rig.holds_nothing());
    assert_eq!(rig.take_done(), vec![live_release(LCTRL, NONE)]);
}

#[test]
fn modifier_released_while_another_key_is_down_is_not_latched() {
    let mut rig = Rig::new(policy(RELEASE));
    rig.key(Action::Modifier(LCTRL), down(0), 100);
    rig.keyboard.physical_keys_down = 1;
    rig.key(Action::Modifier(LCTRL), up(0), 110);
    assert!(rig.holds_nothing());
    assert_eq!(rig.take_done(), vec![live_release(LCTRL, NONE)]);
}

#[test]
fn stale_modifier_release_asks_for_nothing() {
    let mut rig = Rig::new(policy(RELEASE));
    rig.key(Action::Modifier(LCTRL), up(0), 90);
    assert_eq!(rig.take_done(), vec![]);
    rig.key(Action::Modifier(LCTRL), down(0), 100);
    rig.key(Action::Modifier(LCTRL), up(1), 110);
    rig.key(Action::Modifier(LSHIFT), up(0), 110);
    assert_eq!(rig.take_done(), vec![]);
    assert_eq!(rig.entry(0).phase, StickyPhase::PressDeadlineInactive);
    assert_eq!(rig.entry(0).modifiers(), LCTRL);
}

#[test]
fn combo_is_released_from_any_of_its_positions() {
    let mut rig = Rig::new(policy(RELEASE));
    rig.key_from(Action::Modifier(LCTRL), down(0), 100, ModifierProducerSource::Combo(3));
    rig.key_from(Action::Modifier(LCTRL), up(1), 110, ModifierProducerSource::Combo(3));
    assert_eq!(rig.entry(0).phase, StickyPhase::Latched);
    assert_eq!(rig.entry(0).modifiers(), LCTRL);
}

#[test]
fn chord_latches_what_its_last_producer_held() {
    let mut rig = Rig::new(policy(RELEASE));
    rig.key(Action::Modifier(LCTRL), down(0), 100);
    rig.key(Action::Modifier(LSHIFT), down(1), 110);
    assert_eq!(rig.entry(0).modifiers(), LCTRL | LSHIFT);
    rig.key(Action::Modifier(LCTRL), up(0), 120);
    assert_eq!(rig.entry(0).modifiers(), LSHIFT);
    rig.key(Action::Modifier(LSHIFT), up(1), 130);
    assert_eq!(rig.entry(0).modifiers(), LSHIFT);
    assert_eq!(rig.entry(0).phase, StickyPhase::Latched);
    assert_eq!(
        rig.take_done(),
        vec![live_release(LCTRL | LSHIFT, LSHIFT), live_release(LSHIFT, LSHIFT)]
    );
}

#[test]
fn latched_modifiers_accumulate() {
    let mut rig = Rig::new(policy(RELEASE));
    rig.tap(Action::Modifier(LCTRL), 0, 100);
    rig.tap(Action::Modifier(LSHIFT), 1, 200);
    assert_eq!(rig.entry(0).modifiers(), LCTRL | LSHIFT);
    assert_eq!(rig.entry(0).source, pos(1));
    assert!(rig.keyboard.sticky_key_state.active[1].is_none());
}

#[test]
fn producer_beyond_capacity_is_ignored() {
    let mut eager = policy(RELEASE);
    eager.activate_on_keypress = true;
    let mut rig = Rig::new(eager);
    for col in 0..MAX_STICKY_MODIFIER_PRODUCERS {
        rig.key(Action::Modifier(LCTRL), down(col as u8), 100);
    }
    assert_eq!(rig.take_done().len(), MAX_STICKY_MODIFIER_PRODUCERS);
    rig.key(Action::Modifier(LSHIFT), down(20), 110);
    assert_eq!(rig.take_done(), vec![]);
    assert_eq!(rig.entry(0).modifiers(), LCTRL);
    assert_eq!(rig.entry(0).source, pos(7));
}

#[test]
fn eager_modifier_is_reported_on_its_press() {
    let mut eager = policy(RELEASE);
    eager.activate_on_keypress = true;
    let mut rig = Rig::new(eager);
    rig.key(Action::Modifier(LCTRL), down(0), 100);
    assert_eq!(rig.take_done(), vec![Request::SendReport { pressed: true }]);
}

#[test]
fn tapped_layer_is_held_for_the_next_key() {
    let mut rig = Rig::new(policy(PRESS));
    rig.key(Action::LayerOn(2), down(0), 100);
    assert_eq!(rig.take_done(), vec![Request::ActivateLayer { layer: 2 }]);
    rig.key(Action::LayerOn(2), up(0), 110);
    assert_eq!(rig.take_done(), vec![]);
    assert_eq!(rig.entry(0).phase, StickyPhase::Latched);
    assert_eq!(rig.entry(0).layer(), Some(2));
    let update = rig.keyboard.update_sticky_key(down(5));
    assert!(!update.modifier_consumed);
    assert_eq!(update.deactivated_layers, [Some(2), None]);
    assert!(rig.holds_nothing());
}

#[test]
fn held_layer_ends_with_its_own_key_only() {
    let mut rig = Rig::new(policy(PRESS));
    rig.key(Action::LayerOn(2), down(0), 100);
    rig.keyboard.finish_sticky_key_for_key(down(5), true);
    assert_eq!(rig.entry(0).phase, StickyPhase::Held);
    rig.take_done();
    rig.key(Action::LayerOn(2), up(3), 110);
    assert_eq!(rig.entry(0).phase, StickyPhase::Held);
    rig.key(Action::LayerOn(2), up(0), 120);
    assert!(rig.holds_nothing());
    assert_eq!(rig.take_done(), vec![Request::DeactivateLayer { layer: 2 }]);
}

#[test]
fn another_layer_makes_way() {
    let mut rig = Rig::new(policy(PRESS));
    rig.tap(Action::LayerOn(1), 0, 100);
    rig.take_done();
    rig.key(Action::LayerOn(3), down(1), 200);
    assert_eq!(
        rig.take_done(),
        vec![Request::DeactivateLayer { layer: 1 }, Request::ActivateLayer { layer: 3 }]
    );
    assert_eq!(rig.entry(0).layer(), Some(3));
}

#[test]
fn same_layer_is_pressed_again() {
    let mut rig = Rig::new(policy(PRESS));
    rig.tap(Action::LayerOn(1), 0, 100);
    rig.take_done();
    rig.key(Action::LayerOn(1), down(1), 200);
    assert_eq!(rig.take_done(), vec![Request::ActivateLayer { layer: 1 }]);
    assert_eq!(rig.entry(0).source, pos(1));
    assert_eq!(rig.entry(0).phase, StickyPhase::PressDeadlineInactive);
}

#[test]
fn missing_layer_is_complained_about_and_not_held() {
    let mut rig = Rig::new(policy(PRESS));
    rig.key(Action::LayerOn(4), down(0), 100);
    assert_eq!(rig.take_done(), vec![Request::ActivateLayer { layer: 4 }]);
    assert!(rig.holds_nothing());
}

#[test]
fn modifier_and_layer_are_held_together() {
    let mut rig = Rig::new(policy(PRESS));
    rig.tap(Action::LayerOn(1), 0, 100);
    rig.tap(Action::Modifier(LCTRL), 1, 200);
    assert_eq!(rig.entry(0).layer(), Some(1));
    assert_eq!(rig.entry(1).modifiers(), LCTRL);
    assert_eq!(rig.keyboard.sticky_key_state.modifiers(true), LCTRL);
}

#[test]
fn second_tap_releases() {
    let mut rig = Rig::new(policy(DOUBLE_TAP));
    rig.tap(Action::Modifier(LCTRL), 0, 100);
    rig.keyboard.last_modifier_report.sticky_contributed = LCTRL;
    rig.take_done();
    rig.key(Action::Modifier(LCTRL), down(0), 200);
    assert!(rig.holds_nothing());
    assert_eq!(rig.take_done(), vec![Request::SendReport { pressed: false }]);

    rig.tap(Action::LayerOn(2), 1, 300);
    rig.take_done();
    rig.key(Action::LayerOn(2), down(1), 400);
    assert!(rig.holds_nothing());
    assert_eq!(rig.take_done(), vec![Request::DeactivateLayer { layer: 2 }]);

    let tab = Action::KeyWithModifier(KEY_TAB, LSHIFT);
    rig.tap(tab, 2, 500);
    rig.take_done();
    rig.key(tab, down(2), 600);
    assert!(rig.holds_nothing());
    assert_eq!(rig.take_done(), vec![Request::SendReport { pressed: false }]);
}

#[test]
fn released_modifier_that_others_hold_is_not_reported() {
    let mut rig = Rig::new(policy(DOUBLE_TAP));
    rig.tap(Action::Modifier(LCTRL), 0, 100);
    rig.keyboard.last_modifier_report.sticky_contributed = LCTRL;
    rig.non_sticky = LCTRL;
    rig.take_done();
    rig.key(Action::Modifier(LCTRL), down(0), 200);
    assert!(rig.holds_nothing());
    assert_eq!(rig.take_done(), vec![]);
}

#[test]
fn tap_key_keeps_its_modifiers_until_a_foreign_press() {
    let tab = Action::KeyWithModifier(KEY_TAB, LSHIFT);
    let mut rig = Rig::new(policy(PRESS));
    rig.tap(tab, 0, 100);
    assert_eq!(
        rig.take_done(),
        vec![
            Request::ProcessKey { key: KEY_TAB, event: down(0) },
            Request::ProcessKey { key: KEY_TAB, event: up(0) },
        ]
    );
    assert_eq!(rig.keyboard.sticky_key_state.modifiers(true), LSHIFT);
    assert_eq!(rig.keyboard.sticky_key_state.modifiers(false), LSHIFT);

    // A foreign key report alone does not touch it.
    rig.keyboard.finish_sticky_key_for_key(down(5), true);
    assert_eq!(rig.entry(0).phase, StickyPhase::Latched);

    let foreign = Action::Key(KeyCode::Hid(KEY_A));
    let (post, step) = rig.keyboard.prepare_sticky_key_for_action(foreign, down(5));
    assert_eq!(post, StickyKeyPostAction::Nothing);
    rig.run(step);
    assert_eq!(rig.take_done(), vec![Request::SendReport { pressed: false }]);
    assert!(rig.holds_nothing());
}

#[test]
fn tap_key_released_by_a_foreign_release_goes_after_it() {
    let tab = Action::KeyWithModifier(KEY_TAB, LSHIFT);
    let mut rig = Rig::new(policy(RELEASE));
    rig.tap(tab, 0, 100);
    rig.take_done();
    let foreign = Action::Key(KeyCode::Hid(KEY_A));
    let (post, step) = rig.keyboard.prepare_sticky_key_for_action(foreign, up(5));
    assert_eq!((post, step), (StickyKeyPostAction::Release, Step::Done));
    assert_eq!(rig.entry(0).phase, StickyPhase::Latched);
    assert_eq!(
        rig.keyboard.finish_sticky_key_after_action(StickyKeyPostAction::Nothing),
        Step::Done
    );
    let step = rig.keyboard.finish_sticky_key_after_action(post);
    rig.run(step);
    assert_eq!(rig.take_done(), vec![Request::SendReport { pressed: false }]);
    assert!(rig.holds_nothing());
}

#[test]
fn modifier_keys_leave_a_tap_key_alone() {
    let tab = Action::KeyWithModifier(KEY_TAB, LSHIFT);
    let mut rig = Rig::new(policy(PRESS | RELEASE));
    rig.tap(tab, 0, 100);
    for action in [
        Action::Modifier(LCTRL),
        Action::Key(KeyCode::Hid(HidKeyCode { usage: 0xE0 })),
        Action::Key(KeyCode::Hid(HidKeyCode { usage: 0xE7 })),
    ] {
        for event in [down(5), up(5)] {
            assert_eq!(
                rig.keyboard.prepare_sticky_key_for_action(action, event),
                (StickyKeyPostAction::Nothing, Step::Done)
            );
        }
    }
    assert_eq!(rig.entry(0).phase, StickyPhase::Latched);
    for action in [Action::Key(KeyCode::Other), Action::Other, Action::LayerOn(1)] {
        assert_eq!(
            rig.keyboard.prepare_sticky_key_for_action(action, up(5)),
            (StickyKeyPostAction::Release, Step::Done)
        );
    }
}

#[test]
fn tap_key_that_is_down_is_released_with_its_key() {
    let tab = Action::KeyWithModifier(KEY_TAB, LSHIFT);
    let mut rig = Rig::new(policy(PRESS));
    rig.key(tab, down(0), 100);
    rig.take_done();
    rig.key(Action::Modifier(LCTRL), down(1), 110);
    assert_eq!(rig.take_done(), vec![Request::ProcessKey { key: KEY_TAB, event: up(0) }]);
    assert_eq!(rig.entry(0).modifiers(), LCTRL);
    assert!(rig.keyboard.sticky_key_state.active[1].is_none());
}

#[test]
fn tap_key_makes_everything_else_give_way() {
    let mut rig = Rig::new(policy(PRESS));
    rig.tap(Action::Modifier(LCTRL), 0, 100);
    rig.tap(Action::LayerOn(1), 1, 200);
    rig.keyboard.last_modifier_report.sticky_contributed = LCTRL;
    rig.take_done();
    rig.key(Action::KeyWithModifier(KEY_TAB, LSHIFT), down(2), 300);
    assert_eq!(
        rig.take_done(),
        vec![
            Request::SendReport { pressed: false },
            Request::DeactivateLayer { layer: 1 },
            Request::ProcessKey { key: KEY_TAB, event: down(2) },
        ]
    );
    assert!(rig.entry(0).is_tap_key());
    assert!(rig.keyboard.sticky_key_state.active[1].is_none());

    rig.key(Action::KeyWithModifier(KEY_A, LSHIFT), down(3), 400);
    assert_eq!(
        rig.take_done(),
        vec![
            Request::ProcessKey { key: KEY_TAB, event: up(2) },
            Request::ProcessKey { key: KEY_A, event: down(3) },
        ]
    );
    assert_eq!(rig.entry(0).action, Action::KeyWithModifier(KEY_A, LSHIFT));
    assert_eq!(rig.entry(0).repeat_count, 1);
}

#[test]
fn layer_makes_a_tap_key_give_way() {
    let mut rig = Rig::new(policy(PRESS));
    rig.tap(Action::KeyWithModifier(KEY_TAB, LSHIFT), 0, 100);
    rig.take_done();
    rig.key(Action::LayerOn(1), down(1), 200);
    assert_eq!(
        rig.take_done(),
        vec![Request::SendReport { pressed: false }, Request::ActivateLayer { layer: 1 }]
    );
    assert_eq!(rig.entry(0).layer(), Some(1));
}

#[test]
fn tap_key_wears_out() {
    let tab = Action::KeyWithModifier(KEY_TAB, LSHIFT);
    let mut twice = policy(PRESS);
    twice.max_repeat = 2;
    let mut rig = Rig::new(twice);
    rig.tap(tab, 0, 100);
    assert_eq!(rig.entry(0).repeat_count, 1);
    rig.tap(tab, 0, 200);
    assert_eq!(rig.entry(0).repeat_count, 2);
    rig.take_done();
    rig.key(tab, down(0), 300);
    assert!(rig.holds_nothing());
    assert_eq!(rig.take_done(), vec![Request::SendReport { pressed: false }]);
}

#[test]
fn tap_count_does_not_overflow() {
    let tab = Action::KeyWithModifier(KEY_TAB, LSHIFT);
    let mut rig = Rig::new(policy(PRESS));
    rig.tap(tab, 0, 100);
    let mut entry = rig.entry(0);
    entry.repeat_count = u16::MAX;
    rig.keyboard.sticky_key_state.active[0] = Some(entry);
    rig.tap(tab, 0, 200);
    assert_eq!(rig.entry(0).repeat_count, u16::MAX);
}

#[test]
fn foreign_position_does_not_release_a_tap_key() {
    let tab = Action::KeyWithModifier(KEY_TAB, LSHIFT);
    let mut rig = Rig::new(policy(PRESS));
    rig.key(tab, down(0), 100);
    rig.take_done();
    rig.key(tab, up(1), 110);
    assert_eq!(rig.take_done(), vec![]);
    assert_eq!(rig.entry(0).phase, StickyPhase::PressDeadlineInactive);
}

#[test]
fn unsupported_actions_are_ignored() {
    let rig = Rig::new(policy(PRESS));
    for action in [Action::Other, Action::Key(KeyCode::Hid(KEY_A)), Action::Key(KeyCode::Other)] {
        assert_eq!(
            rig.keyboard.process_action_sticky_key(action, 1, down(0), at(0), direct(0)),
            Step::Done
        );
    }
    let action = Action::LayerOn(1);
    assert_eq!(
        rig.keyboard.process_action_sticky_key(action, 7, down(0), at(3), direct(0)),
        Step::Call {
            request: Request::Policy { profile: 7, shape: StickyKeyShape::Layer },
            then: Continuation::Policy {
                action,
                event: down(0),
                event_time: at(3),
                modifier_source: direct(0),
            },
        }
    );
}

#[test]
fn layer_event_releases_what_names_it() {
    let mut rig = Rig::new(policy(LAYER_EXIT));
    rig.tap(Action::LayerOn(1), 0, 100);
    rig.policy = policy(PRESS);
    rig.tap(Action::Modifier(LCTRL), 1, 200);
    rig.take_done();
    let step =
        rig.keyboard.release_sticky_key_on_layer_event(StickyKeyReleaseMode::from_bits(LAYER_EXIT));
    rig.run(step);
    assert_eq!(rig.take_done(), vec![Request::DeactivateLayer { layer: 1 }]);
    assert!(rig.keyboard.sticky_key_state.active[0].is_none());
    assert_eq!(rig.entry(1).modifiers(), LCTRL);
}

#[test]
fn timeout_releases_latches_and_defers_presses() {
    let mut rig = Rig::new(policy(PRESS));
    rig.tap(Action::LayerOn(1), 0, 100);
    let mut held = policy(PRESS);
    held.release_after_hold = StickyKeyHoldDuration::from_duration(Duration { ticks: 300 });
    rig.policy = held;
    rig.key(Action::Modifier(LCTRL), down(1), 1000);
    assert_eq!(rig.keyboard.sticky_key_state.deadline(), Some(at(1110)));
    rig.take_done();

    assert_eq!(rig.keyboard.release_sticky_key_on_timeout_at(at(1109)), Step::Done);
    let step = rig.keyboard.release_sticky_key_on_timeout_at(at(1110));
    rig.run(step);
    assert_eq!(rig.take_done(), vec![Request::DeactivateLayer { layer: 1 }]);
    assert!(rig.keyboard.sticky_key_state.active[0].is_none());
    assert_eq!(rig.entry(1).phase, StickyPhase::Pressed);
    assert_eq!(rig.keyboard.sticky_key_state.deadline(), Some(at(1300)));

    assert_eq!(rig.keyboard.release_sticky_key_on_timeout_at(at(1300)), Step::Done);
    assert_eq!(rig.entry(1).phase, StickyPhase::HoldQualified);
    assert_eq!(rig.entry(1).timing_marker, Some(at(1000)));
    assert_eq!(rig.keyboard.sticky_key_state.deadline(), None);
    rig.key(Action::Modifier(LCTRL), up(1), 1301);
    assert!(rig.holds_nothing());
}

#[test]
fn timeout_goes_by_the_clock() {
    let mut rig = Rig::new(policy(PRESS));
    let now = Instant::now();
    rig.tap(Action::LayerOn(1), 0, now.ticks);
    let mut entry = rig.entry(0);
    entry.timing_marker = Some(at(0));
    rig.keyboard.sticky_key_state.active[0] = Some(entry);
    rig.take_done();
    let step = rig.keyboard.release_sticky_key_if_active_on_timeout();
    rig.run(step);
    assert_eq!(rig.take_done(), vec![Request::DeactivateLayer { layer: 1 }]);

    let far = Instant::now().ticks + 1_000_000_000_000;
    rig.tap(Action::LayerOn(1), 0, far);
    assert_eq!(rig.keyboard.release_sticky_key_if_active_on_timeout(), Step::Done);
    assert!(Instant::now().ticks >= now.ticks);
}

#[test]
fn buffered_press_claims_every_latch_but_its_own() {
    let mut rig = Rig::new(policy(PRESS));
    rig.tap(Action::LayerOn(1), 0, 100);
    rig.tap(Action::Modifier(LCTRL), 1, 200);
    rig.keyboard.sticky_key_state.claim_buffered_press(up(5));
    assert_eq!(rig.keyboard.sticky_key_state.deadline(), Some(at(1110)));
    rig.keyboard.sticky_key_state.claim_buffered_press(down(0));
    assert!(!rig.entry(0).buffered_claim);
    assert!(rig.entry(1).buffered_claim);
    assert_eq!(rig.keyboard.sticky_key_state.deadline(), Some(at(1110)));
    rig.keyboard.sticky_key_state.claim_buffered_press(down(5));
    assert_eq!(rig.keyboard.sticky_key_state.deadline(), None);
    assert_eq!(rig.keyboard.release_sticky_key_on_timeout_at(at(u64::MAX)), Step::Done);

    let before = Instant::now().ticks;
    assert!(rig.keyboard.sticky_key_state.finish_buffered_claim());
    let deadline = rig.keyboard.sticky_key_state.deadline().unwrap().ticks;
    assert!(deadline >= before + TIMEOUT);
    assert!(deadline <= Instant::now().ticks + TIMEOUT);
    assert!(!rig.entry(0).buffered_claim && !rig.entry(1).buffered_claim);
}

#[test]
fn claim_stays_where_the_clock_cannot_show_its_end() {
    let mut endless = policy(PRESS);
    endless.timeout = Duration { ticks: u64::MAX - 1 };
    let mut entry = StickyEntry::new(Action::LayerOn(1), pos(0), endless, at(0));
    entry.on_physical_release(None, at(1));
    entry.claim_buffered_press(pos(5));
    // The clock counts in microseconds, so it is past its first two ticks soon.
    while Instant::now().ticks < 2 {}
    assert!(!entry.finish_buffered_claim());
    assert!(entry.buffered_claim);

    entry.policy.timeout = Duration::max();
    assert!(entry.finish_buffered_claim());
    assert_eq!(entry.timing_marker, None);
    assert!(!entry.buffered_claim);
}

#[test]
fn resuming_is_refused_without_a_place_on_the_clock() {
    let mut held = policy(PRESS);
    held.release_after_hold = StickyKeyHoldDuration::from_duration(Duration { ticks: 300 });
    let rig = Rig::new(held);
    for action in [
        Action::Modifier(LCTRL),
        Action::KeyWithModifier(KEY_TAB, LSHIFT),
    ] {
        for (time, fits) in [(u64::MAX - 300, true), (u64::MAX - 299, false)] {
            let then = Continuation::Policy {
                action,
                event: down(0),
                event_time: at(time),
                modifier_source: direct(0),
            };
            assert_eq!(rig.keyboard.can_resume(then, Reply::Policy(held)), fits);
        }
    }
    let then = Continuation::Proceed(After::Return);
    assert!(rig.keyboard.can_resume(then, Reply::Done));
    assert!(!rig.keyboard.can_resume(then, Reply::LayerCount(1)));
}

#[test]
fn slots_can_be_released_and_removed_by_number() {
    let mut rig = Rig::new(policy(PRESS));
    assert_eq!(rig.keyboard.release_sticky_entry(0), Step::Done);
    rig.tap(Action::LayerOn(2), 0, 100);
    assert_eq!(
        rig.keyboard.release_sticky_entry(0),
        Step::Call {
            request: Request::DeactivateLayer { layer: 2 },
            then: Continuation::Proceed(After::Return),
        }
    );
    assert!(rig.holds_nothing());
    rig.key(Action::Modifier(LCTRL), down(0), 100);
    rig.keyboard.remove_sticky_modifier_entry(0);
    assert!(rig.holds_nothing());
    rig.keyboard.remove_sticky_modifier_entry(0);
    assert_eq!(
        rig.keyboard.finish_modifier_producer_release(0, ModifierProducerRelease::Unmatched, at(0)),
        (false, Step::Done)
    );
}

#[test]
fn deadlines_add_up() {
    assert_eq!(deadline_from(at(50), Duration { ticks: 300 }), Some(at(350)));
    assert_eq!(deadline_from(at(50), Duration::max()), None);
    assert!(has_deadline(at(u64::MAX), Duration::max()));
    assert!(has_deadline(at(1), Duration { ticks: u64::MAX - 1 }));
    assert!(!has_deadline(at(2), Duration { ticks: u64::MAX - 1 }));
    assert_eq!(at(350) - Duration { ticks: 300 }, at(50));
    assert_eq!(at(350) + Duration { ticks: 300 }, at(650));
}

#[test]
fn modifier_keys_are_known_by_their_usage() {
    for usage in 0..=u8::MAX {
        assert_eq!(HidKeyCode { usage }.is_modifier(), (0xE0..=0xE7).contains(&usage));
    }
}

#[test]
fn modifier_operators_work_bit_by_bit() {
    assert_eq!((LCTRL | LSHIFT).into_bits(), 0x03);
    assert_eq!((LCTRL | LSHIFT) & LSHIFT, LSHIFT);
    assert_eq!(LCTRL.complement().into_bits(), 0xFE);
    assert_eq!(ModifierCombination::from_bits(0x80).bits, ModifierCombination::RGUI);
}

#[test]
fn released_tap_key_lets_its_own_key_go_up() {
    let mut rig = Rig::new(policy(PRESS));
    rig.key(Action::KeyWithModifier(KEY_TAB, LSHIFT), down(3), 100);
    assert_eq!(
        rig.keyboard.release_sticky_entry(0),
        Step::Call {
            request: Request::ProcessKey { key: KEY_TAB, event: up(3) },
            then: Continuation::Proceed(After::Return),
        }
    );
    assert!(rig.holds_nothing());
}

#[test]
fn key_reports_between_request_and_reply_do_not_disturb() {
    let mut rig = Rig::new(policy(PRESS));
    rig.tap(Action::LayerOn(1), 0, 100);
    rig.tap(Action::Modifier(LCTRL), 1, 200);
    let then = match rig.keyboard.process_tap_key_effect(KEY_TAB, LSHIFT, policy(PRESS), down(2), at(300)) {
        Step::Call { request, then } => {
            assert_eq!(request, Request::DeactivateLayer { layer: 1 });
            then
        }
        Step::Done => panic!("the layer has to make way"),
    };
    // While the layer is deactivated, a key report uses up the modifier that is next in line.
    rig.keyboard.finish_sticky_key_for_key(down(5), true);
    assert!(rig.holds_nothing());
    assert_eq!(
        rig.keyboard.resume(then, Reply::Done),
        Step::Call {
            request: Request::ProcessKey { key: KEY_TAB, event: down(2) },
            then: Continuation::Proceed(After::Return),
        }
    );
    assert!(rig.entry(0).is_tap_key());
}

#[test]
fn accepted_press_and_its_release_cancel_out() {
    let mut effect = StickyModifierEffect::new(LCTRL, direct(0));
    effect.retain(LSHIFT);
    // The same producer twice: one of the two goes, the other stays.
    effect.begin_press(LCTRL, direct(0));
    effect.on_exact_release(LCTRL, direct(0));
    assert_eq!(effect.producers.iter().flatten().count(), 1);
    assert_eq!(effect.effective(), LCTRL | LSHIFT);
    effect.on_exact_release(LCTRL, direct(0));
    assert_eq!(effect.effective(), LSHIFT);
}

#[test]
fn order_of_slots_does_not_matter() {
    let mut one = StickyModifierEffect::new(LCTRL, direct(0));
    one.begin_press(LSHIFT, direct(1));
    let mut other = StickyModifierEffect::new(LSHIFT, direct(1));
    other.begin_press(LCTRL, direct(0));
    assert_eq!(one.effective(), other.effective());
    assert_ne!(one.producers, other.producers);
}

#[test]
fn index_matching_finds_the_first() {
    let mut state = StickyKeyState::default();
    assert_eq!(state.index_matching(|_| true), None);
    assert_eq!(state.insert(StickyEntry::new(Action::LayerOn(1), pos(0), policy(PRESS), at(0))).unwrap(), 0);
    let modifier = StickyEntry::new_modifier(LCTRL, pos(1), direct(1), policy(PRESS), at(0));
    assert_eq!(state.insert(modifier).unwrap(), 1);
    assert_eq!(state.index_matching(|_| true), Some(0));
    assert_eq!(state.layer_index(), Some(0));
    assert_eq!(state.modifier_index(), Some(1));
    assert_eq!(state.tap_key_index(), None);
    assert!(state.modifier_releases_on_press());
}

#[test]
fn joining_after_a_use_keeps_the_chord_start() {
    let mut held = policy(RELEASE);
    held.release_after_hold = StickyKeyHoldDuration::from_duration(Duration { ticks: 300 });
    let mut entry = StickyEntry::new(Action::Modifier(LCTRL), pos(0), held, at(1000));
    entry.mark_foreign_key();
    assert_eq!(entry.phase, StickyPhase::Held);
    assert_eq!(entry.deadline(), None);
    assert_eq!(entry.held_since(), Some(at(1000)));
    entry.add_modifier_producer(LSHIFT, direct(1));
    entry.begin_modifier_press(pos(1), held, at(1250));
    assert_eq!(entry.phase, StickyPhase::Pressed);
    assert_eq!(entry.deadline(), Some(at(1300)));

    let mut rig = Rig::new(held);
    rig.key(Action::Modifier(LCTRL), down(0), 1000);
    rig.keyboard.finish_sticky_key_for_key(down(5), true);
    rig.key(Action::Modifier(LSHIFT), down(1), 1250);
    assert_eq!(rig.keyboard.sticky_key_state.deadline(), Some(at(1300)));
    rig.key(Action::Modifier(LCTRL), up(0), 1260);
    rig.key(Action::Modifier(LSHIFT), up(1), 1300);
    assert!(rig.holds_nothing());

    let mut late = Rig::new(held);
    late.key(Action::Modifier(LCTRL), down(0), 1000);
    late.keyboard.finish_sticky_key_for_key(down(5), true);
    late.key(Action::Modifier(LSHIFT), down(1), 1400);
    assert_eq!(late.entry(0).phase, StickyPhase::HoldQualified);
    assert_eq!(late.entry(0).timing_marker, Some(at(1000)));
}

#[test]
fn used_press_forgets_its_start_with_its_release() {
    let mut entry = StickyEntry::new(Action::LayerOn(1), pos(0), policy(RELEASE), at(1000));
    entry.mark_foreign_key();
    assert_eq!(entry.timing_marker, Some(at(1000)));
    assert_eq!(entry.on_physical_release(Some(pos(0)), at(1100)), PhysicalRelease::Released);
    assert_eq!(entry.timing_marker, None);
}

#[test]
fn rolling_off_an_earlier_key_leaves_a_press_to_latch() {
    let mut held = policy(RELEASE);
    held.release_after_hold = StickyKeyHoldDuration::from_duration(Duration { ticks: 300 });
    let mut rig = Rig::new(held);
    rig.key(Action::Modifier(LCTRL), down(0), 1000);
    rig.key(Action::LayerOn(1), down(1), 1010);
    let finish = rig.keyboard.finish_sticky_key_for_key(up(5), true);
    assert!(!finish.needs_report);
    assert_eq!(finish.deactivated_layers, [None, None]);
    assert_eq!(rig.entry(0).phase, StickyPhase::Pressed);
    assert_eq!(rig.entry(0).deadline(), Some(at(1300)));
    assert_eq!(rig.entry(1).phase, StickyPhase::Pressed);
    assert_eq!(rig.entry(1).deadline(), Some(at(1310)));
    rig.key(Action::Modifier(LCTRL), up(0), 1100);
    rig.key(Action::LayerOn(1), up(1), 1110);
    assert_eq!(rig.entry(0).phase, StickyPhase::Latched);
    assert_eq!(rig.entry(0).modifiers(), LCTRL);
    assert_eq!(rig.entry(0).deadline(), Some(at(1100 + TIMEOUT)));
    assert_eq!(rig.entry(1).phase, StickyPhase::Latched);

    let mut pressed = Rig::new(held);
    pressed.key(Action::Modifier(LCTRL), down(0), 1000);
    pressed.keyboard.finish_sticky_key_for_key(down(5), true);
    assert_eq!(pressed.entry(0).phase, StickyPhase::Held);
}

#[test]
fn claims_finish_at_a_given_time_or_stay() {
    let mut entry = StickyEntry::new(Action::LayerOn(1), pos(0), policy(PRESS), at(0));
    entry.on_physical_release(None, at(1));
    assert!(entry.try_finish_buffered_claim_at(at(u64::MAX)));
    assert_eq!(entry.timing_marker, Some(at(1 + TIMEOUT)));
    entry.claim_buffered_press(pos(5));
    assert!(!entry.try_finish_buffered_claim_at(at(u64::MAX - TIMEOUT + 1)));
    assert!(entry.buffered_claim);
    assert_eq!(entry.timing_marker, None);
    assert!(entry.try_finish_buffered_claim_at(at(u64::MAX - TIMEOUT)));
    assert!(!entry.buffered_claim);
    assert_eq!(entry.timing_marker, Some(at(u64::MAX)));

    let mut rig = Rig::new(policy(PRESS));
    rig.tap(Action::LayerOn(1), 0, 100);
    rig.tap(Action::Modifier(LCTRL), 1, 200);
    rig.keyboard.sticky_key_state.claim_buffered_press(down(5));
    assert!(!rig.keyboard.sticky_key_state.try_finish_buffered_claim_at([at(u64::MAX), at(500)]));
    assert!(rig.entry(0).buffered_claim);
    assert_eq!(rig.entry(0).timing_marker, None);
    assert!(!rig.entry(1).buffered_claim);
    assert_eq!(rig.entry(1).timing_marker, Some(at(500 + TIMEOUT)));
    assert!(rig.keyboard.sticky_key_state.try_finish_buffered_claim_at([at(600), at(700)]));
    assert_eq!(rig.entry(0).timing_marker, Some(at(600 + TIMEOUT)));
    assert_eq!(rig.entry(1).timing_marker, Some(at(500 + TIMEOUT)));
}

#[test]
fn modifier_entry_is_latched_exactly_while_no_producer_is_down() {
    let mut rig = Rig::new(policy(RELEASE));
    let follows = |rig: &Rig| {
        let entry = rig.entry(0);
        let is_down = entry.modifier_effect().producers.iter().any(|slot| slot.is_some());
        (entry.phase == StickyPhase::Latched) != is_down
    };
    rig.key(Action::Modifier(LCTRL), down(0), 100);
    assert!(follows(&rig));
    rig.key(Action::Modifier(LSHIFT), down(1), 110);
    rig.key(Action::Modifier(LCTRL), up(0), 120);
    assert!(follows(&rig));
    assert_eq!(rig.keyboard.release_sticky_key_on_timeout_at(at(u64::MAX)), Step::Done);
    assert!(follows(&rig));
    rig.key(Action::Modifier(LSHIFT), up(1), 130);
    assert!(follows(&rig));
    assert_eq!(rig.entry(0).phase, StickyPhase::Latched);
    rig.key(Action::Modifier(LSHIFT), down(1), 140);
    assert!(follows(&rig));
}

#[test]
fn tap_key_released_after_its_threshold_keeps_its_modifiers() {
    let tab = Action::KeyWithModifier(KEY_TAB, LSHIFT);
    let foreign = Action::Key(KeyCode::Hid(KEY_A));
    for (mode, event) in [(PRESS, down(5)), (RELEASE, up(5))] {
        let mut held = policy(mode);
        held.release_after_hold = StickyKeyHoldDuration::from_duration(Duration { ticks: 300 });
        let mut rig = Rig::new(held);
        rig.key(tab, down(0), 1000);
        rig.key(tab, up(0), 1300);
        assert_eq!(rig.entry(0).phase, StickyPhase::HoldQualified);
        assert_eq!(rig.keyboard.sticky_key_state.modifiers(true), LSHIFT);
        assert_eq!(rig.keyboard.sticky_key_state.modifiers(false), LSHIFT);
        rig.take_done();
        let (post, step) = rig.keyboard.prepare_sticky_key_for_action(foreign, event);
        rig.run(step);
        assert_eq!(rig.holds_nothing(), event.pressed);
        let step = rig.keyboard.finish_sticky_key_after_action(post);
        rig.run(step);
        assert!(rig.holds_nothing());
        assert_eq!(rig.take_done(), vec![Request::SendReport { pressed: false }]);
    }
}
