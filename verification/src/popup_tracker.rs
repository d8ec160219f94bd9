//! Which popup is open, so that a click on one widget's menu replaces another's.

use vstd::prelude::*;
use crate::popover_tracker::SurfaceId;

verus! {

/// Tracks the popup that is open.
///
/// Whether a surface is visible and how it is dismissed is up to its owner: the operations
/// are told the former and say when to do the latter.
#[derive(Clone, Copy, Debug, PartialEq, Eq, Structural)]
pub struct PopupTracker {
    /// The popup that was opened last and has not been cleared.
    pub active: Option<SurfaceId>,
}

impl PopupTracker {
    /// A tracker without an active popup.
    pub fn new() -> (tracker: Self)
        ensures
            tracker.active is None,
    {
        PopupTracker { active: None }
    }

    /// The tracker in `slot`, which is created on first use.
    pub fn global(slot: &mut Option<PopupTracker>) -> (tracker: &mut PopupTracker)
        ensures
            *tracker == (match *old(slot) {
                Some(t) => t,
                None => PopupTracker { active: None },
            }),
            *final(slot) == Some(*final(tracker)),
    {
        slot.get_or_insert(PopupTracker::new())
    }

    /// The tracker after it was asked to make `popup` the active one, and the popup to dismiss: the
    /// one that was active, if it is another one and visible. While there is one to dismiss, none
    /// is active.
    pub open spec fn asked(self, popup: SurfaceId, active_visible: bool) -> (PopupTracker, Option<SurfaceId>) {
        if self.active is Some && self.active != Some(popup) && active_visible {
            (PopupTracker { active: None }, self.active)
        } else {
            (PopupTracker { active: Some(popup) }, None)
        }
    }

    /// The tracker after `popup` was made the active one.
    pub open spec fn activated(self, popup: SurfaceId) -> PopupTracker {
        PopupTracker { active: Some(popup) }
    }

    /// The tracker after it was cleared.
    pub open spec fn cleared(self) -> PopupTracker {
        PopupTracker { active: None }
    }

    /// Begins to make `popup` the active one and returns the popup to dismiss first: the one that
    /// was active, if it is another one and `active_visible` says that it is visible. Once it is
    /// dismissed, [`PopupTracker::activate`] makes the new one active; without one to dismiss the new
    /// one is active at once.
    pub fn set_active(&mut self, popup: SurfaceId, active_visible: bool) -> (dismiss: Option<SurfaceId>)
        ensures
            final(self).active == (if dismiss is Some {
                None
            } else {
                Some(popup)
            }),
            dismiss == (if old(self).active is Some && old(self).active != Some(popup) && active_visible {
                old(self).active
            } else {
                None
            }),
            (*final(self), dismiss) == old(self).asked(popup, active_visible),
    {
        if self.active == Some(popup) {
            return None;
        }
        let dismiss = self.dismiss_active(active_visible);
        if dismiss.is_none() {
            self.active = Some(popup);
        }
        dismiss
    }

    /// Makes `popup` the active one after the one before was dismissed.
    pub fn activate(&mut self, popup: SurfaceId)
        ensures
            final(self).active == Some(popup),
            *final(self) == old(self).activated(popup),
    {
        self.active = Some(popup);
    }

    /// Forgets the active popup without dismissing it.
    pub fn clear(&mut self)
        ensures
            final(self).active is None,
            *final(self) == old(self).cleared(),
    {
        self.active = None;
    }

    /// Forgets the active popup and returns it for dismissal if it is visible.
    ///
    /// It is forgotten before it is dismissed, since dismissal clears the tracker again.
    pub fn dismiss_active(&mut self, active_visible: bool) -> (dismiss: Option<SurfaceId>)
        ensures
            final(self).active is None,
            dismiss == (if active_visible {
                old(self).active
            } else {
                None
            }),
    {
        let active = self.active;
        self.active = None;
        if active_visible {
            active
        } else {
            None
        }
    }

    /// Whether a popup is active and visible.
    pub fn has_active(&self, active_visible: bool) -> (yes: bool)
        ensures
            yes == (self.active is Some && active_visible),
    {
        self.active.is_some() && active_visible
    }
}

/// A popup that replaces another is active once the other was dismissed, whether the dismissal clears
/// the tracker or not. The other is handed out for it while none is active.
pub proof fn new_popup_outlasts_the_dismissal(tracker: PopupTracker, popup: SurfaceId, active_visible: bool)
    ensures
        ({
            let (asked, dismiss) = tracker.asked(popup, active_visible);
            &&& dismiss is Some ==> {
                &&& dismiss == tracker.active
                &&& asked.active is None
                &&& asked.activated(popup).active == Some(popup)
                &&& asked.cleared().activated(popup).active == Some(popup)
            }
            &&& dismiss is None ==> asked.active == Some(popup)
        }),
{
}

} // verus!
