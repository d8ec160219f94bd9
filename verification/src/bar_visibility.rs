//! When the bar of an output is shown: the policy, its timing, and what a change of it does to
//! the windows of the bar.
//!
//! Instants and delays are in nanoseconds.

use vstd::prelude::*;
use crate::bar::{BarPosition, BarVisibility};
use crate::compositor::visibility::HideDecision;

verus! {

/// What the policy remembers.
#[derive(Clone, Copy, Debug, PartialEq, Eq, Structural)]
pub struct Policy {
    pub shown: bool,
    /// Since when nothing holds a bar that the pointer held.
    pub hide_since: Option<u64>,
    /// Since when the pointer dwells on the edge.
    pub edge_since: Option<u64>,
    /// Last shown because of the pointer, a popup or a pin.
    pub held: bool,
    /// The decision under which a user hid the bar; holds until the decision changes.
    pub dismissed: Option<HideDecision>,
}

/// What the policy goes by.
#[derive(Clone, Copy, Debug, PartialEq, Eq, Structural)]
pub struct Inputs {
    /// The bar must not be shown at all.
    pub suppressed: bool,
    /// The pointer is on the bar, a popup is open, or the bar is pinned.
    pub interacting: bool,
    /// The pointer is on the edge of the screen.
    pub edge: bool,
    pub decision: HideDecision,
}

/// How the policy behaves.
#[derive(Clone, Copy, Debug, PartialEq, Eq, Structural)]
pub struct Settings {
    pub mode: BarVisibility,
    pub hide_delay: u64,
    pub reveal_delay: u64,
}

/// Time from `since` to `now`; none if `since` lies ahead.
pub open spec fn elapsed(now: u64, since: u64) -> int {
    if now >= since {
        now - since
    } else {
        0
    }
}

fn time_since(now: u64, since: u64) -> (t: u64)
    ensures
        t == elapsed(now, since),
{
    if now >= since {
        now - since
    } else {
        0
    }
}

/// The instant in `since`, or `now` if there is none yet.
pub open spec fn since_or(since: Option<u64>, now: u64) -> u64 {
    match since {
        Some(t) => t,
        None => now,
    }
}

impl Policy {
    pub open spec fn hidden() -> Policy {
        Policy { shown: false, hide_since: None, edge_since: None, held: false, dismissed: None }
    }

    /// Whether the pointer counts: it is on the bar, or has dwelt on the edge long enough.
    pub open spec fn pointer(self, now: u64, settings: Settings, input: Inputs) -> bool {
        input.interacting || (input.edge && elapsed(now, since_or(self.edge_since, now)) >= settings.reveal_delay)
    }

    /// The dismissal that still holds.
    pub open spec fn dismissal(self, input: Inputs) -> Option<HideDecision> {
        if self.dismissed == Some(input.decision) {
            self.dismissed
        } else {
            None
        }
    }

    /// Whether something calls for the bar.
    pub open spec fn wanted(self, now: u64, settings: Settings, input: Inputs) -> bool {
        ||| settings.mode == BarVisibility::Always
        ||| self.pointer(now, settings, input)
        ||| settings.mode == BarVisibility::Intellihide && input.decision == HideDecision::Show
            && self.dismissal(input) is None
    }

    /// The policy after an update.
    pub open spec fn next(self, now: u64, settings: Settings, input: Inputs) -> Policy {
        if input.suppressed {
            Policy { dismissed: self.dismissed, ..Policy::hidden() }
        } else {
            let base = Policy {
                dismissed: self.dismissal(input),
                edge_since: if input.edge { Some(since_or(self.edge_since, now)) } else { None },
                ..self
            };
            let released = since_or(self.hide_since, now);
            if self.wanted(now, settings, input) {
                Policy { shown: true, hide_since: None, held: self.pointer(now, settings, input), ..base }
            } else if !self.shown {
                base
            } else if !self.held || elapsed(now, released) >= settings.hide_delay {
                Policy { shown: false, hide_since: None, ..base }
            } else {
                Policy { hide_since: Some(released), ..base }
            }
        }
    }

    /// A policy that hides the bar.
    pub fn new() -> (policy: Self)
        ensures
            policy == Policy::hidden(),
    {
        Policy { shown: false, hide_since: None, edge_since: None, held: false, dismissed: None }
    }

    /// Hides at once, skipping the hide delay.
    pub fn dismiss(&mut self, decision: HideDecision)
        ensures
            *final(self) == (Policy { dismissed: Some(decision), ..Policy::hidden() }),
    {
        let mut hidden = Policy::new();
        hidden.dismissed = Some(decision);
        *self = hidden;
    }

    /// Decides whether the bar is shown.
    ///
    /// The delays guard pointer interaction: a bar that the pointer held waits before it hides,
    /// while one that the windows of its output showed hides at once.
    pub fn update(&mut self, now: u64, settings: &Settings, input: Inputs) -> (shown: bool)
        ensures
            *final(self) == old(self).next(now, *settings, input),
            shown == final(self).shown,
    {
        if input.suppressed {
            let dismissed = self.dismissed;
            *self = Policy::new();
            self.dismissed = dismissed;
            return false;
        }
        if self.dismissed != Some(input.decision) {
            self.dismissed = None;
        }
        let edge_ready = if input.edge {
            let since: u64 = match self.edge_since {
                Some(t) => t,
                None => now,
            };
            self.edge_since = Some(since);
            time_since(now, since) >= settings.reveal_delay
        } else {
            self.edge_since = None;
            false
        };
        let pointer = input.interacting || edge_ready;
        if settings.mode == BarVisibility::Always || pointer || (settings.mode == BarVisibility::Intellihide
            && input.decision == HideDecision::Show && self.dismissed.is_none()) {
            self.shown = true;
            self.hide_since = None;
            self.held = pointer;
        } else if self.shown {
            if !self.held {
                self.shown = false;
                self.hide_since = None;
            } else {
                let since: u64 = match self.hide_since {
                    Some(t) => t,
                    None => now,
                };
                if time_since(now, since) >= settings.hide_delay {
                    self.shown = false;
                    self.hide_since = None;
                } else {
                    self.hide_since = Some(since);
                }
            }
        }
        self.shown
    }

    /// The instants at which a delay runs out after `now`.
    pub open spec fn deadlines(self, now: u64, settings: Settings) -> Set<int> {
        Set::new(
            |t: int|
                t > now && ((self.edge_since is Some && t == self.edge_since->0 + settings.reveal_delay) || (
                self.hide_since is Some && t == self.hide_since->0 + settings.hide_delay)),
        )
    }

    /// The next instant at which an update may change the outcome by itself.
    pub fn next_deadline(&self, now: u64, settings: &Settings) -> (deadline: Option<u64>)
        requires
            self.edge_since is Some ==> self.edge_since->0 + settings.reveal_delay <= u64::MAX,
            self.hide_since is Some ==> self.hide_since->0 + settings.hide_delay <= u64::MAX,
        ensures
            match deadline {
                Some(t) => self.deadlines(now, *settings).contains(t as int) && forall|u: int|
                    self.deadlines(now, *settings).contains(u) ==> t <= u,
                None => forall|u: int| !self.deadlines(now, *settings).contains(u),
            },
    {
        let mut deadline: Option<u64> = None;
        match self.edge_since {
            Some(since) => {
                let t: u64 = since + settings.reveal_delay;
                if t > now {
                    deadline = Some(t);
                }
            }
            None => {}
        }
        match self.hide_since {
            Some(since) => {
                let t: u64 = since + settings.hide_delay;
                if t > now {
                    deadline = match deadline {
                        Some(other) => Some(if other <= t { other } else { t }),
                        None => Some(t),
                    };
                }
            }
            None => {}
        }
        deadline
    }
}

impl Default for Policy {
    fn default() -> (policy: Self)
        ensures
            policy == Policy::hidden(),
    {
        Policy::new()
    }
}

/// A suppressed bar is never shown.
pub proof fn suppression_hides(p: Policy, now: u64, settings: Settings, input: Inputs)
    requires
        input.suppressed,
    ensures
        !p.next(now, settings, input).shown,
{
}

/// A bar in the mode `Always` is shown unless it is suppressed.
pub proof fn always_shows(p: Policy, now: u64, settings: Settings, input: Inputs)
    requires
        settings.mode == BarVisibility::Always,
        !input.suppressed,
    ensures
        p.next(now, settings, input).shown,
{
}

/// A bar that a user hid stays hidden while the decision stays the same and no pointer calls
/// for it.
pub proof fn dismissal_holds_until_the_decision_changes(
    p: Policy,
    decision: HideDecision,
    now: u64,
    settings: Settings,
    input: Inputs,
)
    requires
        !p.shown,
        p.dismissed == Some(decision),
        input.decision == decision,
        settings.mode != BarVisibility::Always,
        !p.pointer(now, settings, input),
    ensures
        !p.next(now, settings, input).shown,
        p.next(now, settings, input).dismissed == Some(decision),
{
}

/// A dismissal ends as soon as the decision changes, and does not come back with the decision.
pub proof fn dismissal_ends_with_the_decision(p: Policy, now: u64, settings: Settings, input: Inputs)
    requires
        !input.suppressed,
        p.dismissed != Some(input.decision),
    ensures
        p.next(now, settings, input).dismissed is None,
{
}

/// A bar that the windows showed hides at once when they no longer do.
pub proof fn scene_hides_immediately(p: Policy, now: u64, settings: Settings, input: Inputs)
    requires
        !p.held,
        !p.wanted(now, settings, input),
    ensures
        !p.next(now, settings, input).shown,
{
}

/// A bar that the pointer held stays until the hide delay has run out since its release, and
/// is hidden from then on.
pub proof fn release_waits_for_the_hide_delay(
    p: Policy,
    released: u64,
    now: u64,
    settings: Settings,
    first: Inputs,
    second: Inputs,
)
    requires
        p.shown,
        p.held,
        p.hide_since is None,
        settings.hide_delay > 0,
        released <= now,
        !first.suppressed,
        !p.wanted(released, settings, first),
        !second.suppressed,
        !p.next(released, settings, first).wanted(now, settings, second),
    ensures
        p.next(released, settings, first).shown,
        p.next(released, settings, first).next(now, settings, second).shown <==> now - released < settings.hide_delay,
{
}

/// Leaving the edge starts the dwell over.
pub proof fn leaving_the_edge_resets_the_dwell(p: Policy, now: u64, settings: Settings, input: Inputs)
    requires
        !input.edge,
    ensures
        p.next(now, settings, input).edge_since is None,
{
}

/// Where the reveal trigger is anchored, and its size.
#[derive(Clone, Copy, Debug, PartialEq, Eq)]
pub struct TriggerPlan {
    pub top: bool,
    pub bottom: bool,
    pub left: bool,
    pub right: bool,
    /// Default size of the window; -1 leaves a dimension to the compositor.
    pub default_size: (i32, i32),
    /// Requested size of its contents.
    pub content_size: (i32, i32),
}

/// How thick the reveal trigger is, in pixels.
pub const TRIGGER_THICKNESS: i32 = 2;

/// The shortest wait for an evaluation, in nanoseconds.
pub const MINIMUM_WAIT_NS: u64 = 1_000_000;

/// The trigger along the edge of the bar: it spans the edge and is two pixels thick.
pub open spec fn trigger_at(position: BarPosition) -> TriggerPlan {
    TriggerPlan {
        top: position != BarPosition::Bottom,
        bottom: position != BarPosition::Top,
        left: position != BarPosition::Right,
        right: position != BarPosition::Left,
        default_size: if position.vertical() { (2i32, -1i32) } else { (-1i32, 2i32) },
        content_size: if position.vertical() { (2i32, 1i32) } else { (1i32, 2i32) },
    }
}

/// The trigger along the edge of the bar: it spans the edge and is two pixels thick.
pub fn trigger_plan(position: BarPosition) -> (plan: TriggerPlan)
    ensures
        plan == trigger_at(position),
{
    let vertical = position.is_vertical();
    TriggerPlan {
        top: position == BarPosition::Top || vertical,
        bottom: position == BarPosition::Bottom || vertical,
        left: position == BarPosition::Left || !vertical,
        right: position == BarPosition::Right || !vertical,
        default_size: if vertical { (TRIGGER_THICKNESS, -1) } else { (-1, TRIGGER_THICKNESS) },
        content_size: if vertical { (TRIGGER_THICKNESS, 1) } else { (1, TRIGGER_THICKNESS) },
    }
}

/// How the bar is brought to its new state.
#[derive(Clone, Copy, Debug, PartialEq, Eq, Structural)]
pub enum Visual {
    /// Leave it as it is.
    Keep,
    /// At once.
    Snap { shown: bool },
    /// By animation, from where it is.
    Animate { shown: bool },
}

/// What becomes of the blur behind the bar.
#[derive(Clone, Copy, Debug, PartialEq, Eq, Structural)]
pub enum BlurChange {
    Keep,
    Remove,
    Apply,
}

/// What follows when the bar is drawn at a point of its slide.
#[derive(Clone, Copy, Debug, PartialEq, Eq, Structural)]
pub struct SlidePlan {
    /// Whether the content takes clicks.
    pub clickable: bool,
    /// Whether the window is marked as hidden or on its way.
    pub marked_hidden: bool,
    /// Whether the islands are laid out anew.
    pub apply_islands: bool,
    pub blur: BlurChange,
}

/// A frame of the slide: how far the bar is shown, as the bit pattern of a double, and whether the
/// slide ends there. A slide whose animation was switched off ends at its target.
pub fn slide_frame(animations_enabled: bool, current: u64, complete: bool, target: u64) -> (frame: (u64, bool))
    ensures
        frame == if animations_enabled {
            (current, complete)
        } else {
            (target, true)
        },
{
    if animations_enabled {
        (current, complete)
    } else {
        (target, true)
    }
}

/// What an evaluation finds outside the controller.
#[derive(Clone, Copy, Debug, PartialEq, Eq, Structural)]
pub struct Surroundings {
    pub now: u64,
    pub decision: HideDecision,
    /// A tracked popup holds this output, or a native popover is open in the bar.
    pub popup_open: bool,
    pub animations_enabled: bool,
    /// An animation of the bar is running.
    pub animating: bool,
    /// The window has a frame clock to animate with.
    pub has_clock: bool,
}

/// What an evaluation asks for.
#[derive(Clone, Copy, Debug, PartialEq, Eq, Structural)]
pub struct TickPlan {
    pub shown: bool,
    pub window_visible: bool,
    pub visual: Visual,
    /// Whether the reveal trigger is mapped; `None` if there is no trigger.
    pub trigger: Option<bool>,
    /// Set when the window scene became unknown or known.
    pub scene_became_unknown: Option<bool>,
}

/// The visibility of one bar.
#[derive(Clone, Copy, Debug, PartialEq, Eq, Structural)]
pub struct BarVisibilityController {
    pub settings: Settings,
    pub position: BarPosition,
    /// The bar has no background of its own.
    pub islands: bool,
    pub policy: Policy,
    pub shown: bool,
    pub hovered: bool,
    pub edge_hovered: bool,
    pub manual_hidden: bool,
    pub pinned: bool,
    pub monitor_suppressed: bool,
    /// The window scene was unknown at the last evaluation.
    pub unknown: bool,
    /// An evaluation is queued.
    pub update_queued: bool,
}

impl BarVisibilityController {
    /// Whether the bar hides by itself.
    pub open spec fn automatic(self) -> bool {
        self.settings.mode != BarVisibility::Always
    }

    /// Whether the bar follows the windows of its output.
    pub open spec fn follows_scene(self) -> bool {
        self.settings.mode == BarVisibility::Intellihide
    }

    pub open spec fn suppressed(self) -> bool {
        self.manual_hidden || self.monitor_suppressed
    }

    /// What the policy goes by.
    pub open spec fn inputs(self, s: Surroundings) -> Inputs {
        Inputs {
            suppressed: self.suppressed(),
            interacting: self.pinned || self.hovered || s.popup_open,
            edge: self.edge_hovered,
            decision: s.decision,
        }
    }

    /// The controller after an evaluation.
    pub open spec fn ticked(self, s: Surroundings) -> BarVisibilityController {
        let policy = self.policy.next(s.now, self.settings, self.inputs(s));
        BarVisibilityController {
            policy,
            shown: policy.shown,
            hovered: self.hovered && !self.suppressed(),
            edge_hovered: self.edge_hovered && !self.suppressed(),
            unknown: if self.follows_scene() { s.decision == HideDecision::Unknown } else { self.unknown },
            ..self
        }
    }

    /// What an evaluation asks for.
    pub open spec fn plan(self, s: Surroundings) -> TickPlan {
        let shown = self.ticked(s).shown;
        let changed = shown != self.shown;
        let can_animate = self.automatic() && s.animations_enabled && s.has_clock;
        let is_unknown = s.decision == HideDecision::Unknown;
        TickPlan {
            shown,
            window_visible: !self.manual_hidden,
            visual: if self.suppressed() {
                Visual::Snap { shown: false }
            } else if changed && can_animate {
                Visual::Animate { shown }
            } else if changed || (s.animating && !s.animations_enabled) {
                Visual::Snap { shown }
            } else {
                Visual::Keep
            },
            trigger: if self.automatic() {
                Some(!self.suppressed() && (!shown || self.edge_hovered))
            } else {
                None
            },
            scene_became_unknown: if self.follows_scene() && is_unknown != self.unknown {
                Some(is_unknown)
            } else {
                None
            },
        }
    }

    /// The controller after a user asked for the bar to be shown or hidden.
    pub open spec fn asked(self, shown: bool, decision: HideDecision) -> BarVisibilityController {
        BarVisibilityController {
            manual_hidden: !shown && !self.automatic(),
            pinned: shown && self.automatic(),
            policy: if !self.automatic() {
                self.policy
            } else if shown {
                Policy { dismissed: None, ..self.policy }
            } else {
                Policy { dismissed: Some(decision), ..Policy::hidden() }
            },
            ..self
        }
    }

    /// The controller after the pointer entered or left the bar or its edge.
    pub open spec fn pointed(self, edge: bool, inside: bool) -> BarVisibilityController {
        if edge {
            BarVisibilityController { edge_hovered: inside, ..self }
        } else {
            BarVisibilityController { hovered: inside, ..self }
        }
    }

    /// A hidden bar. Delays are given in milliseconds.
    pub fn new(mode: BarVisibility, hide_delay_ms: u32, reveal_delay_ms: u32, position: BarPosition, islands: bool) -> (controller: Self)
        ensures
            controller == (BarVisibilityController {
                settings: Settings {
                    mode,
                    hide_delay: (hide_delay_ms * 1_000_000) as u64,
                    reveal_delay: (reveal_delay_ms * 1_000_000) as u64,
                },
                position,
                islands,
                policy: Policy::hidden(),
                shown: false,
                hovered: false,
                edge_hovered: false,
                manual_hidden: false,
                pinned: false,
                monitor_suppressed: false,
                unknown: true,
                update_queued: false,
            }),
    {
        BarVisibilityController {
            settings: Settings {
                mode,
                hide_delay: hide_delay_ms as u64 * 1_000_000,
                reveal_delay: reveal_delay_ms as u64 * 1_000_000,
            },
            position,
            islands,
            policy: Policy::new(),
            shown: false,
            hovered: false,
            edge_hovered: false,
            manual_hidden: false,
            pinned: false,
            monitor_suppressed: false,
            unknown: true,
            update_queued: false,
        }
    }

    /// The reveal trigger of the bar; a bar that is always shown has none.
    pub fn reveal_trigger(&self) -> (trigger: Option<TriggerPlan>)
        ensures
            trigger == (if self.automatic() {
                Some(trigger_at(self.position))
            } else {
                None
            }),
    {
        if self.settings.mode == BarVisibility::Always {
            None
        } else {
            Some(trigger_plan(self.position))
        }
    }

    pub fn is_shown(&self) -> (shown: bool)
        ensures
            shown == self.shown,
    {
        self.shown
    }

    /// The pointer entered or left the bar, or the reveal trigger if `edge` is set.
    pub fn pointer_moved(&mut self, edge: bool, inside: bool)
        ensures
            *final(self) == old(self).pointed(edge, inside),
    {
        if edge {
            self.edge_hovered = inside;
        } else {
            self.hovered = inside;
        }
    }

    /// Shows or hides the bar at a user's request. A bar that is always shown is hidden until
    /// it is shown again; another one is pinned, or retracts at once and holds against the
    /// windows until their decision changes. Returns whether popups of the output close.
    pub fn set_ipc_shown(&mut self, shown: bool, decision: HideDecision) -> (close_popups: bool)
        ensures
            close_popups == !shown,
            *final(self) == old(self).asked(shown, decision),
    {
        let automatic = self.settings.mode != BarVisibility::Always;
        self.manual_hidden = !shown && !automatic;
        self.pinned = shown && automatic;
        if automatic {
            if shown {
                self.policy.dismissed = None;
            } else {
                self.policy.dismiss(decision);
            }
        }
        !shown
    }

    /// Suppresses the bar while its monitor changes.
    pub fn set_monitor_suppressed(&mut self, suppressed: bool)
        ensures
            *final(self) == (BarVisibilityController { monitor_suppressed: suppressed, ..*old(self) }),
    {
        self.monitor_suppressed = suppressed;
    }

    /// Queues an evaluation. Returns whether it has to be scheduled: one that is queued
    /// already covers later requests.
    pub fn queue_update(&mut self) -> (schedule: bool)
        ensures
            schedule == !old(self).update_queued,
            *final(self) == (BarVisibilityController { update_queued: true, ..*old(self) }),
    {
        let schedule = !self.update_queued;
        self.update_queued = true;
        schedule
    }

    /// The queued evaluation begins.
    pub fn update_started(&mut self)
        ensures
            *final(self) == (BarVisibilityController { update_queued: false, ..*old(self) }),
    {
        self.update_queued = false;
    }

    /// Evaluates the policy and says what follows from it.
    ///
    /// A suppressed bar loses its hover. While its monitor changes it keeps its window, and
    /// with it the space that it reserves. The trigger stays mapped under a pointer that has
    /// not moved since the bar came up.
    pub fn tick(&mut self, s: Surroundings) -> (plan: TickPlan)
        ensures
            *final(self) == old(self).ticked(s),
            plan == old(self).plan(s),
    {
        let was = *self;
        let suppressed = self.manual_hidden || self.monitor_suppressed;
        let automatic = self.settings.mode != BarVisibility::Always;
        let follows_scene = self.settings.mode == BarVisibility::Intellihide;
        let mut scene_became_unknown: Option<bool> = None;
        if follows_scene {
            let unknown = s.decision == HideDecision::Unknown;
            if unknown != self.unknown {
                scene_became_unknown = Some(unknown);
            }
            self.unknown = unknown;
        }
        let input = Inputs {
            suppressed,
            interacting: self.pinned || self.hovered || s.popup_open,
            edge: self.edge_hovered,
            decision: s.decision,
        };
        let settings = self.settings;
        let shown = self.policy.update(s.now, &settings, input);
        let changed = self.shown != shown;
        self.shown = shown;
        if suppressed {
            self.hovered = false;
            self.edge_hovered = false;
        }
        let visual = if suppressed {
            Visual::Snap { shown: false }
        } else if changed {
            if automatic && s.animations_enabled && s.has_clock {
                Visual::Animate { shown }
            } else {
                Visual::Snap { shown }
            }
        } else if s.animating && !s.animations_enabled {
            Visual::Snap { shown }
        } else {
            Visual::Keep
        };
        let trigger = if automatic { Some(!suppressed && (!shown || was.edge_hovered)) } else { None };
        TickPlan { shown, window_visible: !self.manual_hidden, visual, trigger, scene_became_unknown }
    }

    /// What follows when the bar comes to stand at a point of its slide; `settled` tells that it is
    /// fully shown there, `was_settled` that it was before.
    pub open spec fn slide_plan(self, was_settled: bool, settled: bool, blur_enabled: bool) -> SlidePlan {
        SlidePlan {
            clickable: settled,
            marked_hidden: !settled,
            apply_islands: was_settled != settled,
            blur: if was_settled == settled {
                BlurChange::Keep
            } else if !settled {
                BlurChange::Remove
            } else if blur_enabled && !self.islands {
                BlurChange::Apply
            } else {
                BlurChange::Keep
            },
        }
    }

    /// What follows when the bar comes to stand at a point of its slide. The blur of a bar is that of
    /// its full size, so that there is none while it slides.
    pub fn apply_visual(&self, was_settled: bool, settled: bool, blur_enabled: bool) -> (plan: SlidePlan)
        ensures
            plan == self.slide_plan(was_settled, settled, blur_enabled),
    {
        let changed = was_settled != settled;
        let blur = if changed && !settled {
            BlurChange::Remove
        } else if changed && blur_enabled && !self.islands {
            BlurChange::Apply
        } else {
            BlurChange::Keep
        };
        SlidePlan { clickable: settled, marked_hidden: !settled, apply_islands: changed, blur }
    }

    /// How long to wait for the next evaluation, in nanoseconds, after one at `now`; `later` is when
    /// the wait begins. A wait is never shorter than a millisecond.
    pub fn next_wait(&self, now: u64, later: u64) -> (wait: Option<u64>)
        requires
            self.policy.edge_since is Some ==> self.policy.edge_since->0 + self.settings.reveal_delay <= u64::MAX,
            self.policy.hide_since is Some ==> self.policy.hide_since->0 + self.settings.hide_delay <= u64::MAX,
        ensures
            match wait {
                Some(ns) => exists|t: int| #[trigger]
                    self.policy.deadlines(now, self.settings).contains(t) && (forall|u: int|
                        self.policy.deadlines(now, self.settings).contains(u) ==> t <= u) && ns == (if t - later
                        > MINIMUM_WAIT_NS {
                        t - later
                    } else {
                        MINIMUM_WAIT_NS as int
                    }),
                None => forall|u: int| !self.policy.deadlines(now, self.settings).contains(u),
            },
    {
        let settings = self.settings;
        match self.policy.next_deadline(now, &settings) {
            Some(t) => {
                assert(self.policy.deadlines(now, self.settings).contains(t as int));
                if t > later && t - later > MINIMUM_WAIT_NS {
                    Some(t - later)
                } else {
                    Some(MINIMUM_WAIT_NS)
                }
            }
            None => None,
        }
    }

    /// The parts of the bar that take input. `fully_hidden` tells that the slide has reached
    /// its end, `islands` where the widgets of a bar without background are.
    ///
    /// An island takes input up to the edge of the screen, so that the pointer reaches it
    /// there, while the gaps between islands never do.
    pub fn input_rects(
        &self,
        fully_hidden: bool,
        popup_open: bool,
        islands: &Vec<(i32, i32, i32, i32)>,
        surface: (i32, i32),
    ) -> (rects: Vec<(i32, i32, i32, i32)>)
        requires
            forall|i: int| 0 <= i < islands@.len() ==> reachable(#[trigger] islands@[i], surface),
        ensures
            rects@ == (if !self.shown && fully_hidden {
                Seq::empty()
            } else if self.islands && !popup_open {
                islands@.map_values(|r: (i32, i32, i32, i32)| to_edge(self.position, r, surface))
            } else {
                seq![(0i32, 0i32, surface.0, surface.1)]
            }),
    {
        let mut rects: Vec<(i32, i32, i32, i32)> = Vec::new();
        if !self.shown && fully_hidden {
            return rects;
        }
        if !self.islands || popup_open {
            rects.push((0, 0, surface.0, surface.1));
            return rects;
        }
        let ghost all = islands@.map_values(|r: (i32, i32, i32, i32)| to_edge(self.position, r, surface));
        let mut i: usize = 0;
        while i < islands.len()
            invariant
                i <= islands@.len(),
                all == islands@.map_values(|r: (i32, i32, i32, i32)| to_edge(self.position, r, surface)),
                rects@ == all.take(i as int),
                forall|j: int| 0 <= j < islands@.len() ==> reachable(#[trigger] islands@[j], surface),
            decreases islands@.len() - i,
        {
            let (x, y, w, h) = islands[i];
            assert(reachable(islands@[i as int], surface));
            let rect = match self.position {
                BarPosition::Top => (x, 0, w, y + h),
                BarPosition::Bottom => (x, y, w, surface.1 - y),
                BarPosition::Left => (0, y, x + w, h),
                BarPosition::Right => (x, y, surface.0 - x, h),
            };
            rects.push(rect);
            i += 1;
            proof {
                assert(all.take(i as int) =~= all.take(i - 1).push(all[i - 1]));
            }
        }
        proof {
            assert(all.take(i as int) =~= all);
        }
        rects
    }
}

/// Whether the rectangle can be stretched to any edge of the surface.
pub open spec fn reachable(r: (i32, i32, i32, i32), surface: (i32, i32)) -> bool {
    &&& i32::MIN <= r.0 + r.2 <= i32::MAX
    &&& i32::MIN <= r.1 + r.3 <= i32::MAX
    &&& i32::MIN <= surface.0 - r.0 <= i32::MAX
    &&& i32::MIN <= surface.1 - r.1 <= i32::MAX
}

/// The rectangle stretched to the edge at which the bar is.
pub open spec fn to_edge(position: BarPosition, r: (i32, i32, i32, i32), surface: (i32, i32)) -> (i32, i32, i32, i32) {
    match position {
        BarPosition::Top => (r.0, 0i32, r.2, (r.1 + r.3) as i32),
        BarPosition::Bottom => (r.0, r.1, r.2, (surface.1 - r.1) as i32),
        BarPosition::Left => (0i32, r.1, (r.0 + r.2) as i32, r.3),
        BarPosition::Right => (r.0, r.1, (surface.0 - r.0) as i32, r.3),
    }
}

/// A bar that is not fully shown is not blurred: the blur goes when the slide begins, and none comes
/// before it has ended.
pub proof fn sliding_bars_are_not_blurred(c: BarVisibilityController, was_settled: bool, blur_enabled: bool)
    ensures
        was_settled ==> c.slide_plan(was_settled, false, blur_enabled).blur == BlurChange::Remove,
        c.slide_plan(was_settled, false, blur_enabled).blur != BlurChange::Apply,
{
}

/// A suppressed bar is hidden at once, and its trigger is not mapped.
pub proof fn manual_hide_wins(c: BarVisibilityController, s: Surroundings)
    requires
        c.suppressed(),
    ensures
        !c.ticked(s).shown,
        c.plan(s).visual == (Visual::Snap { shown: false }),
        c.plan(s).trigger != Some(true),
{
}

/// A bar that is not suppressed is shown and held while the pointer is on it, while it is pinned and while
/// a popup is open, in every mode and at every time.
pub proof fn attention_holds_the_bar(c: BarVisibilityController, s: Surroundings)
    requires
        !c.manual_hidden,
        !c.monitor_suppressed,
        c.hovered || c.pinned || s.popup_open,
    ensures
        c.ticked(s).shown,
        c.ticked(s).policy.shown,
        c.ticked(s).policy.held,
        c.ticked(s).policy.hide_since is None,
        c.plan(s).shown,
{
}

/// Whether nothing but the windows or the edge calls for a bar.
pub open spec fn left_alone(c: BarVisibilityController, s: Surroundings) -> bool {
    !c.manual_hidden && !c.monitor_suppressed && !c.hovered && !c.pinned && !s.popup_open
}

/// A pointer that dwells on the edge brings the bar once the reveal delay has passed since it came there,
/// and not before. The dwell is counted from the first evaluation that finds it there.
pub proof fn dwelling_on_the_edge_reveals(c: BarVisibilityController, s: Surroundings)
    requires
        left_alone(c, s),
        c.edge_hovered,
        c.settings.mode == BarVisibility::AutoHide,
        !c.policy.shown,
    ensures
        c.policy.edge_since matches Some(t) ==> {
            &&& c.ticked(s).policy.edge_since == Some(t)
            &&& c.ticked(s).shown <==> s.now >= t + c.settings.reveal_delay || c.settings.reveal_delay == 0
        },
        c.policy.edge_since is None ==> {
            &&& c.ticked(s).policy.edge_since == Some(s.now)
            &&& c.ticked(s).shown <==> c.settings.reveal_delay == 0
        },
        c.ticked(s).shown ==> c.ticked(s).policy.held,
{
}

/// A bar that nobody attends to is shown exactly if it is always shown, if it follows the windows and they
/// leave room for it against the wish of no user, or if it was held and the hide delay has not passed
/// since it was let go.
pub proof fn bars_left_alone_go_by_mode_windows_and_delay(c: BarVisibilityController, s: Surroundings)
    requires
        left_alone(c, s),
        !c.edge_hovered,
    ensures
        c.settings.mode == BarVisibility::Always ==> c.ticked(s).shown,
        c.settings.mode == BarVisibility::Intellihide && s.decision == HideDecision::Show && c.policy.dismissed != Some(
            HideDecision::Show,
        ) ==> c.ticked(s).shown && !c.ticked(s).policy.held,
        c.settings.mode == BarVisibility::AutoHide || (c.settings.mode == BarVisibility::Intellihide && (s.decision
            != HideDecision::Show || c.policy.dismissed == Some(HideDecision::Show))) ==> {
            &&& !c.policy.shown ==> !c.ticked(s).shown
            &&& !c.policy.held ==> !c.ticked(s).shown
            &&& c.policy.shown && c.policy.held ==> match c.policy.hide_since {
                Some(t) => {
                    &&& c.ticked(s).shown <==> s.now < t + c.settings.hide_delay && c.settings.hide_delay > 0
                    &&& c.ticked(s).shown ==> c.ticked(s).policy.hide_since == Some(t)
                },
                None => {
                    &&& c.ticked(s).shown <==> c.settings.hide_delay > 0
                    &&& c.ticked(s).shown ==> c.ticked(s).policy.hide_since == Some(s.now)
                },
            }
        },
        !c.ticked(s).shown ==> c.ticked(s).policy.hide_since is None || !c.policy.shown,
        c.ticked(s).policy.edge_since is None,
{
}

/// A suppressed bar is hidden, forgets the pointer and every delay, and keeps what a user asked for.
pub proof fn suppressed_bars_forget_the_pointer(c: BarVisibilityController, s: Surroundings)
    requires
        c.manual_hidden || c.monitor_suppressed,
    ensures
        ({
            let after = c.ticked(s);
            &&& !after.shown && !after.policy.shown && !after.policy.held && !after.hovered && !after.edge_hovered
            &&& after.policy.hide_since is None && after.policy.edge_since is None
            &&& after.policy.dismissed == c.policy.dismissed
            &&& after.pinned == c.pinned
            &&& !c.plan(s).shown && c.plan(s).visual == (Visual::Snap { shown: false })
            &&& c.plan(s).trigger != Some(true)
        }),
{
}

/// The evaluation of a bar that is not suppressed leaves the pointer where it is, and an evaluation
/// changes neither settings nor what the user asked for.
pub proof fn evaluations_keep_what_they_are_told(c: BarVisibilityController, s: Surroundings)
    ensures
        ({
            let after = c.ticked(s);
            &&& after.settings == c.settings && after.position == c.position && after.islands == c.islands
            &&& after.manual_hidden == c.manual_hidden && after.monitor_suppressed == c.monitor_suppressed
            &&& after.pinned == c.pinned && after.update_queued == c.update_queued
            &&& !c.manual_hidden && !c.monitor_suppressed ==> after.hovered == c.hovered && after.edge_hovered
                == c.edge_hovered
            &&& after.shown == after.policy.shown && c.plan(s).shown == after.shown
        }),
{
}

/// The window goes only where a user hid a bar that is always shown: while the monitor changes it keeps
/// the space that it reserves.
pub proof fn windows_keep_their_space(c: BarVisibilityController, s: Surroundings)
    ensures
        c.plan(s).window_visible <==> !c.manual_hidden,
{
}

/// The bar is drawn as it is decided: what moves it moves it to the new state, it moves whenever the state
/// changes, and it slides only where animations are on, a clock is there and it is not always shown.
pub proof fn bars_are_drawn_as_decided(c: BarVisibilityController, s: Surroundings)
    requires
        !c.manual_hidden,
        !c.monitor_suppressed,
    ensures
        match c.plan(s).visual {
            Visual::Snap { shown } => shown == c.ticked(s).shown,
            Visual::Animate { shown } => shown == c.ticked(s).shown && shown != c.shown && s.animations_enabled && s.has_clock
                && c.settings.mode != BarVisibility::Always,
            Visual::Keep => c.shown == c.ticked(s).shown && (s.animations_enabled || !s.animating),
        },
        c.shown != c.ticked(s).shown && s.animations_enabled && s.has_clock && c.settings.mode != BarVisibility::Always
            ==> c.plan(s).visual is Animate,
        c.shown == c.ticked(s).shown && (s.animations_enabled || !s.animating) ==> c.plan(s).visual is Keep,
{
}

/// The reveal trigger is there while the bar is hidden and while the pointer rests on it. A bar that is
/// always shown has none.
pub proof fn hidden_bars_can_be_revealed(c: BarVisibilityController, s: Surroundings)
    ensures
        c.plan(s).trigger is None <==> c.settings.mode == BarVisibility::Always,
        !c.manual_hidden && !c.monitor_suppressed && c.settings.mode != BarVisibility::Always ==> (c.plan(s).trigger
            == Some(true) <==> !c.ticked(s).shown || c.edge_hovered),
{
}

/// That the windows became unknown or known is told once, and only of bars that follow them.
pub proof fn lost_scenes_are_told_once(c: BarVisibilityController, s: Surroundings, later: Surroundings)
    requires
        later.decision == s.decision,
    ensures
        match c.plan(s).scene_became_unknown {
            Some(unknown) => c.settings.mode == BarVisibility::Intellihide && unknown != c.unknown && (unknown <==> s.decision
                == HideDecision::Unknown),
            None => c.settings.mode == BarVisibility::Intellihide ==> (c.unknown <==> s.decision == HideDecision::Unknown),
        },
        c.ticked(s).plan(later).scene_became_unknown is None,
{
}

/// A bar that a user hides is hidden by the next evaluation and stays so at every later one that finds the
/// same decision and no one attending to it. One that a user shows is shown until it is hidden again.
pub proof fn requests_of_users_hold(c: BarVisibilityController, shown: bool, s: Surroundings, later: Surroundings)
    requires
        !c.monitor_suppressed,
        !c.hovered && !c.edge_hovered,
        !s.popup_open && !later.popup_open,
        later.decision == s.decision,
    ensures
        ({
            let first = c.asked(shown, s.decision).ticked(s);
            &&& first.shown == shown
            &&& first.ticked(later).shown == shown
        }),
{
}

/// A bar that a user hid follows the windows again once their decision has changed.
pub proof fn hidden_bars_follow_the_windows_again(
    c: BarVisibilityController,
    s: Surroundings,
    between: Surroundings,
    later: Surroundings,
)
    requires
        !c.monitor_suppressed,
        c.settings.mode == BarVisibility::Intellihide,
        between.decision != s.decision,
        later.decision == HideDecision::Show,
    ensures
        c.asked(false, s.decision).ticked(s).ticked(between).ticked(later).shown,
{
}

/// The pointer enters and leaves the bar and the edge independently.
pub proof fn pointer_is_on_the_bar_or_its_edge(c: BarVisibilityController, edge: bool, inside: bool)
    ensures
        edge ==> c.pointed(edge, inside).edge_hovered == inside && c.pointed(edge, inside).hovered == c.hovered,
        !edge ==> c.pointed(edge, inside).hovered == inside && c.pointed(edge, inside).edge_hovered == c.edge_hovered,
        c.pointed(edge, inside).policy == c.policy,
        c.pointed(edge, inside).pointed(edge, !inside).pointed(edge, inside) == c.pointed(edge, inside),
{
}

/// A delay ends when its length has passed since it began: what is awaited lies ahead, and every delay that
/// has not run out is awaited.
pub proof fn delays_are_awaited(p: Policy, now: u64, settings: Settings, t: int)
    ensures
        p.deadlines(now, settings).contains(t) ==> t > now,
        p.edge_since matches Some(since) ==> since + settings.reveal_delay > now ==> p.deadlines(now, settings).contains(
            since + settings.reveal_delay,
        ),
        p.hide_since matches Some(since) ==> since + settings.hide_delay > now ==> p.deadlines(now, settings).contains(
            since + settings.hide_delay,
        ),
        p.edge_since is None && p.hide_since is None ==> !p.deadlines(now, settings).contains(t),
        p.edge_since is None && p.hide_since is Some && p.deadlines(now, settings).contains(t) ==> t - p.hide_since->0
            == settings.hide_delay,
        p.hide_since is None && p.edge_since is Some && p.deadlines(now, settings).contains(t) ==> t - p.edge_since->0
            == settings.reveal_delay,
{
}

/// The trigger lies along the edge of the bar and spans it: it is anchored to that edge and to both that
/// meet it, not to the one across, and it is thin.
pub proof fn triggers_lie_along_the_edge(position: BarPosition)
    ensures
        ({
            let plan = trigger_at(position);
            &&& plan.top || plan.bottom
            &&& plan.left || plan.right
            &&& position == BarPosition::Top ==> plan.top && !plan.bottom && plan.left && plan.right
            &&& position == BarPosition::Bottom ==> plan.bottom && !plan.top && plan.left && plan.right
            &&& position == BarPosition::Left ==> plan.left && !plan.right && plan.top && plan.bottom
            &&& position == BarPosition::Right ==> plan.right && !plan.left && plan.top && plan.bottom
            &&& position == BarPosition::Top || position == BarPosition::Bottom ==> plan.default_size.1 == 2
                && plan.default_size.0 == -1 && plan.content_size.1 == 2 && plan.content_size.0 == 1
            &&& position == BarPosition::Left || position == BarPosition::Right ==> plan.default_size.0 == 2
                && plan.default_size.1 == -1 && plan.content_size.0 == 2 && plan.content_size.1 == 1
        }),
{
}

/// An island takes input from its own place up to the edge of the screen at which the bar is, and no
/// further to either side.
pub proof fn islands_reach_the_edge(position: BarPosition, r: (i32, i32, i32, i32), surface: (i32, i32))
    requires
        reachable(r, surface),
    ensures
        ({
            let (x, y, w, h) = to_edge(position, r, surface);
            match position {
                BarPosition::Top => y == 0 && y + h == r.1 + r.3 && x == r.0 && w == r.2,
                BarPosition::Bottom => y + h == surface.1 && y == r.1 && x == r.0 && w == r.2,
                BarPosition::Left => x == 0 && x + w == r.0 + r.2 && y == r.1 && h == r.3,
                BarPosition::Right => x + w == surface.0 && x == r.0 && y == r.1 && h == r.3,
            }
        }),
{
}

/// A bar takes clicks exactly where it is fully shown, and is marked as hidden elsewhere. What is laid out
/// or blurred changes only when the slide begins or ends; islands are never blurred as a whole.
pub proof fn slides_begin_and_end(c: BarVisibilityController, was_settled: bool, settled: bool, blur_enabled: bool)
    ensures
        ({
            let plan = c.slide_plan(was_settled, settled, blur_enabled);
            &&& plan.clickable == settled && plan.marked_hidden != settled
            &&& plan.apply_islands <==> was_settled != settled
            &&& plan.blur == BlurChange::Apply <==> settled && !was_settled && blur_enabled && !c.islands
            &&& plan.blur == BlurChange::Remove <==> was_settled && !settled
        }),
{
}

} // verus!
