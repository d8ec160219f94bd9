use vibepanel::bar::{BarPosition, BarVisibility};
use vibepanel::bar_visibility::{
    slide_frame, trigger_plan, BarVisibilityController, BlurChange, Inputs, Policy, Settings,
    Surroundings, Visual, MINIMUM_WAIT_NS,
};
use vibepanel::compositor::visibility::HideDecision;

const MILLIS: u64 = 1_000_000;

fn settings(mode: BarVisibility) -> Settings {
    Settings {
        mode,
        hide_delay: 300 * MILLIS,
        reveal_delay: 100 * MILLIS,
    }
}

fn input(decision: HideDecision) -> Inputs {
    Inputs {
        suppressed: false,
        interacting: false,
        edge: false,
        decision,
    }
}

#[test]
fn scene_hides_immediately_but_pointer_release_waits_for_delay() {
    let now = 1_000 * MILLIS;
    let settings = settings(BarVisibility::Intellihide);
    let mut policy = Policy::default();
    assert!(policy.update(now, &settings, input(HideDecision::Show)));
    assert!(!policy.update(now, &settings, input(HideDecision::Hide)));
    let mut hover = input(HideDecision::Hide);
    hover.interacting = true;
    assert!(policy.update(now + 301 * MILLIS, &settings, hover));
    assert!(policy.update(now + 500 * MILLIS, &settings, input(HideDecision::Hide)));
    assert!(!policy.update(now + 800 * MILLIS, &settings, input(HideDecision::Hide)));
}

#[test]
fn edge_requires_continuous_dwell_and_manual_hide_wins() {
    let now = 1_000 * MILLIS;
    let settings = settings(BarVisibility::AutoHide);
    let mut policy = Policy::default();
    let edge = || Inputs {
        edge: true,
        ..input(HideDecision::Show)
    };
    assert!(!policy.update(now, &settings, edge()));
    assert!(!policy.update(now + 50 * MILLIS, &settings, input(HideDecision::Show)));
    assert!(!policy.update(now + 90 * MILLIS, &settings, edge()));
    assert!(!policy.update(now + 100 * MILLIS, &settings, edge()));
    assert!(policy.update(now + 190 * MILLIS, &settings, edge()));
    assert!(!policy.update(
        now + 191 * MILLIS,
        &settings,
        Inputs {
            suppressed: true,
            interacting: true,
            ..edge()
        }
    ));
}

#[test]
fn unavailable_scene_falls_back_but_clear_scene_reveals_immediately() {
    let now = 1_000 * MILLIS;
    let settings = settings(BarVisibility::Intellihide);
    let mut policy = Policy::default();
    assert!(!policy.update(now, &settings, input(HideDecision::Unknown)));
    assert!(policy.update(now, &settings, input(HideDecision::Show)));
}

#[test]
fn ipc_hide_retracts_immediately_unless_hovered() {
    let now = 1_000 * MILLIS;
    let settings = settings(BarVisibility::AutoHide);
    let mut policy = Policy::default();
    let hover = || Inputs {
        interacting: true,
        ..input(HideDecision::Unknown)
    };
    assert!(policy.update(now, &settings, hover()));
    policy.dismiss(HideDecision::Unknown);
    assert!(policy.update(now, &settings, hover()));
    policy.dismiss(HideDecision::Unknown);
    assert!(!policy.update(now, &settings, input(HideDecision::Unknown)));
}

#[test]
fn intellihide_dismissal_holds_until_decision_changes() {
    let now = 1_000 * MILLIS;
    let settings = settings(BarVisibility::Intellihide);
    let mut policy = Policy::default();
    assert!(policy.update(now, &settings, input(HideDecision::Show)));
    policy.dismiss(HideDecision::Show);
    let later = now + 5_000 * MILLIS;
    assert!(!policy.update(later, &settings, input(HideDecision::Show)));
    assert!(!policy.update(later, &settings, input(HideDecision::Hide)));
    assert!(policy.update(later, &settings, input(HideDecision::Show)));
}

#[test]
fn deadlines_follow_the_delays() {
    let settings = settings(BarVisibility::AutoHide);
    let mut policy = Policy::default();
    assert_eq!(policy.next_deadline(0, &settings), None);
    policy.update(5, &settings, Inputs { edge: true, ..input(HideDecision::Show) });
    assert_eq!(policy.next_deadline(5, &settings), Some(5 + 100 * MILLIS));
    assert_eq!(policy.next_deadline(5 + 100 * MILLIS, &settings), None);
    policy.update(10, &settings, Inputs { interacting: true, ..input(HideDecision::Show) });
    policy.update(20, &settings, input(HideDecision::Show));
    assert_eq!(policy.next_deadline(20, &settings), Some(20 + 300 * MILLIS));
}

fn surroundings(now: u64, decision: HideDecision) -> Surroundings {
    Surroundings {
        now,
        decision,
        popup_open: false,
        animations_enabled: true,
        animating: false,
        has_clock: true,
    }
}

#[test]
fn a_bar_that_is_always_shown_has_no_trigger_and_snaps() {
    let mut bar =
        BarVisibilityController::new(BarVisibility::Always, 300, 100, BarPosition::Top, false);
    assert!(bar.reveal_trigger().is_none());
    let plan = bar.tick(surroundings(0, HideDecision::Unknown));
    assert!(plan.shown);
    assert_eq!(plan.visual, Visual::Snap { shown: true });
    assert_eq!(plan.trigger, None);
    assert_eq!(plan.scene_became_unknown, None);
    assert!(bar.set_ipc_shown(false, HideDecision::Unknown));
    let plan = bar.tick(surroundings(1, HideDecision::Unknown));
    assert!(!plan.shown && !plan.window_visible);
    assert_eq!(plan.visual, Visual::Snap { shown: false });
    assert!(!bar.set_ipc_shown(true, HideDecision::Unknown));
    assert!(bar.tick(surroundings(2, HideDecision::Unknown)).shown);
}

#[test]
fn an_automatic_bar_animates_and_keeps_its_trigger_under_the_pointer() {
    let mut bar =
        BarVisibilityController::new(BarVisibility::AutoHide, 300, 100, BarPosition::Left, false);
    let trigger = bar.reveal_trigger().unwrap();
    assert_eq!(trigger, trigger_plan(BarPosition::Left));
    assert_eq!(trigger.default_size, (2, -1));
    assert_eq!(trigger.content_size, (2, 1));
    assert!(trigger.top && trigger.bottom && trigger.left && !trigger.right);
    assert_eq!(bar.tick(surroundings(0, HideDecision::Unknown)).trigger, Some(true));
    bar.pointer_moved(true, true);
    assert_eq!(bar.tick(surroundings(0, HideDecision::Unknown)).visual, Visual::Keep);
    let plan = bar.tick(surroundings(100 * MILLIS, HideDecision::Unknown));
    assert_eq!(plan.visual, Visual::Animate { shown: true });
    assert_eq!(plan.trigger, Some(true));
    bar.pointer_moved(true, false);
    let plan = bar.tick(surroundings(101 * MILLIS, HideDecision::Unknown));
    assert!(plan.shown);
    assert_eq!(plan.trigger, Some(false));
    assert!(!bar.tick(surroundings(401 * MILLIS, HideDecision::Unknown)).shown);
    bar.set_ipc_shown(true, HideDecision::Unknown);
    assert!(bar.tick(surroundings(402 * MILLIS, HideDecision::Unknown)).shown);
    bar.set_monitor_suppressed(true);
    let plan = bar.tick(surroundings(403 * MILLIS, HideDecision::Unknown));
    assert!(!plan.shown && plan.window_visible);
    assert!(!bar.is_shown());
}

#[test]
fn updates_are_queued_once() {
    let mut bar =
        BarVisibilityController::new(BarVisibility::AutoHide, 300, 100, BarPosition::Top, false);
    assert!(bar.queue_update());
    assert!(!bar.queue_update());
    bar.update_started();
    assert!(bar.queue_update());
}

#[test]
fn a_scene_that_becomes_known_is_told_once() {
    let mut bar =
        BarVisibilityController::new(BarVisibility::Intellihide, 300, 100, BarPosition::Top, false);
    let plan = bar.tick(surroundings(0, HideDecision::Unknown));
    assert_eq!(plan.scene_became_unknown, None);
    let plan = bar.tick(surroundings(1, HideDecision::Show));
    assert_eq!(plan.scene_became_unknown, Some(false));
    let plan = bar.tick(surroundings(2, HideDecision::Hide));
    assert_eq!(plan.scene_became_unknown, None);
    let plan = bar.tick(surroundings(3, HideDecision::Unknown));
    assert_eq!(plan.scene_became_unknown, Some(true));
}

#[test]
fn islands_take_input_up_to_the_edge() {
    let mut bar =
        BarVisibilityController::new(BarVisibility::Always, 300, 100, BarPosition::Top, true);
    let islands = vec![(10, 4, 30, 20)];
    assert_eq!(bar.input_rects(true, false, &islands, (100, 40)), vec![]);
    bar.tick(surroundings(0, HideDecision::Unknown));
    assert_eq!(
        bar.input_rects(false, false, &islands, (100, 40)),
        vec![(10, 0, 30, 24)]
    );
    assert_eq!(
        bar.input_rects(false, true, &islands, (100, 40)),
        vec![(0, 0, 100, 40)]
    );
    bar.position = BarPosition::Bottom;
    assert_eq!(
        bar.input_rects(false, false, &islands, (100, 40)),
        vec![(10, 4, 30, 36)]
    );
    bar.position = BarPosition::Left;
    assert_eq!(
        bar.input_rects(false, false, &islands, (100, 40)),
        vec![(0, 4, 40, 20)]
    );
    bar.position = BarPosition::Right;
    assert_eq!(
        bar.input_rects(false, false, &islands, (100, 40)),
        vec![(10, 4, 90, 20)]
    );
}

#[test]
fn the_blur_goes_while_a_bar_slides() {
    let bar = |islands: bool| {
        BarVisibilityController::new(BarVisibility::AutoHide, 300, 100, BarPosition::Top, islands)
    };
    let leaving = bar(false).apply_visual(true, false, true);
    assert!(!leaving.clickable && leaving.marked_hidden && leaving.apply_islands);
    assert_eq!(leaving.blur, BlurChange::Remove);
    let sliding = bar(false).apply_visual(false, false, true);
    assert!(!sliding.apply_islands);
    assert_eq!(sliding.blur, BlurChange::Keep);
    let shown = bar(false).apply_visual(false, true, true);
    assert!(shown.clickable && !shown.marked_hidden && shown.apply_islands);
    assert_eq!(shown.blur, BlurChange::Apply);
    assert_eq!(bar(false).apply_visual(false, true, false).blur, BlurChange::Keep);
    assert_eq!(bar(true).apply_visual(false, true, true).blur, BlurChange::Keep);
    assert_eq!(bar(true).apply_visual(true, false, true).blur, BlurChange::Remove);

    let (half, full) = (0.5f64.to_bits(), 1.0f64.to_bits());
    assert_eq!(slide_frame(true, half, false, full), (half, false));
    assert_eq!(slide_frame(false, half, false, full), (full, true));
}

#[test]
fn waits_last_until_the_next_deadline() {
    let mut bar =
        BarVisibilityController::new(BarVisibility::AutoHide, 300, 100, BarPosition::Top, false);
    let now = 1_000 * MILLIS;
    bar.tick(surroundings(now, HideDecision::Unknown));
    assert_eq!(bar.next_wait(now, now), None);
    bar.pointer_moved(true, true);
    bar.tick(surroundings(now, HideDecision::Unknown));
    assert_eq!(bar.next_wait(now, now), Some(100 * MILLIS));
    assert_eq!(bar.next_wait(now, now + 40 * MILLIS), Some(60 * MILLIS));
    assert_eq!(bar.next_wait(now, now + 100 * MILLIS), Some(MINIMUM_WAIT_NS));
    assert_eq!(bar.next_wait(now, now + 200 * MILLIS), Some(MILLIS));
}
