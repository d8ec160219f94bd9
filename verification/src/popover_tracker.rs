//! Which popover is open, so that a click on one widget's menu replaces another's.

use vstd::prelude::*;

verus! {

/// A surface that can be dismissed, by its number.
pub type SurfaceId = u64;

/// Tracks the popover that is open.
///
/// Whether a surface is visible and how it is dismissed is up to its owner: the operations
/// are told the former and say when to do the latter.
#[derive(Clone, Copy, Debug, PartialEq, Eq, Structural)]
pub struct PopoverTracker {
    /// The popover that was opened last and has not been cleared.
    pub active: Option<SurfaceId>,
}

impl PopoverTracker {
    /// A tracker without an active popover.
    pub fn new() -> (tracker: Self)
        ensures
            tracker.active is None,
    {
        PopoverTracker { active: None }
    }

    /// The tracker in `slot`, which is created on first use.
    pub fn global(slot: &mut Option<PopoverTracker>) -> (tracker: &mut PopoverTracker)
        ensures
            *tracker == (match *old(slot) {
                Some(t) => t,
                None => PopoverTracker { active: None },
            }),
            *final(slot) == Some(*final(tracker)),
    {
        slot.get_or_insert(PopoverTracker::new())
    }

    /// The tracker after it was asked to make `popover` the active one, and the popover to dismiss: the
    /// one that was active, if it is another one and visible. While there is one to dismiss, none
    /// is active.
    pub open spec fn asked(self, popover: SurfaceId, active_visible: bool) -> (PopoverTracker, Option<SurfaceId>) {
        if self.active is Some && self.active != Some(popover) && active_visible {
            (PopoverTracker { active: None }, self.active)
        } else {
            (PopoverTracker { active: Some(popover) }, None)
        }
    }

    /// The tracker after `popover` was made the active one.
    pub open spec fn activated(self, popover: SurfaceId) -> PopoverTracker {
        PopoverTracker { active: Some(popover) }
    }

    /// The tracker after it was cleared.
    pub open spec fn cleared(self) -> PopoverTracker {
        PopoverTracker { active: None }
    }

    /// Begins to make `popover` the active one and returns the popover to dismiss first: the one that
    /// was active, if it is another one and `active_visible` says that it is visible. Once it is
    /// dismissed, [`PopoverTracker::activate`] makes the new one active; without one to dismiss the new
    /// one is active at once.
    pub fn set_active(&mut self, popover: SurfaceId, active_visible: bool) -> (dismiss: Option<SurfaceId>)
        ensures
            final(self).active == (if dismiss is Some {
                None
            } else {
                Some(popover)
            }),
            dismiss == (if old(self).active is Some && old(self).active != Some(popover) && active_visible {
                old(self).active
            } else {
                None
            }),
            (*final(self), dismiss) == old(self).asked(popover, active_visible),
    {
        if self.active == Some(popover) {
            return None;
        }
        let dismiss = self.dismiss_active(active_visible);
        if dismiss.is_none() {
            self.active = Some(popover);
        }
        dismiss
    }

    /// Makes `popover` the active one after the one before was dismissed.
    pub fn activate(&mut self, popover: SurfaceId)
        ensures
            final(self).active == Some(popover),
            *final(self) == old(self).activated(popover),
    {
        self.active = Some(popover);
    }

    /// Forgets the active popover without dismissing it.
    pub fn clear(&mut self)
        ensures
            final(self).active is None,
            *final(self) == old(self).cleared(),
    {
        self.active = None;
    }

    /// Forgets the active popover and returns it for dismissal if it is visible.
    ///
    /// It is forgotten before it is dismissed, since dismissal clears the tracker again.
    pub fn dismiss_active(&mut self, active_visible: bool) -> (dismiss: Option<SurfaceId>)
        ensures
            final(self).active is None,
            dismiss == (if active_visible {
                old(self).active
            } else {
                None
            }),
    {
        let active = self.active;
        self.active = None;
        if active_visible {
            active
        } else {
            None
        }
    }

    /// Whether a popover is active and visible.
    pub fn has_active(&self, active_visible: bool) -> (yes: bool)
        ensures
            yes == (self.active is Some && active_visible),
    {
        self.active.is_some() && active_visible
    }
}

/// A popover that replaces another is active once the other was dismissed, whether the dismissal clears
/// the tracker or not. The other is handed out for it while none is active.
pub proof fn new_popover_outlasts_the_dismissal(tracker: PopoverTracker, popover: SurfaceId, active_visible: bool)
    ensures
        ({
            let (asked, dismiss) = tracker.asked(popover, active_visible);
            &&& dismiss is Some ==> {
                &&& dismiss == tracker.active
                &&& asked.active is None
                &&& asked.activated(popover).active == Some(popover)
                &&& asked.cleared().activated(popover).active == Some(popover)
            }
            &&& dismiss is None ==> asked.active == Some(popover)
        }),
{
}

} // verus!
