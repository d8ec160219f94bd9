use vibepanel::popover_tracker::PopoverTracker;
use vibepanel::popup_tracker::PopupTracker;

#[test]
fn a_new_popover_dismisses_the_visible_one() {
    let mut slot = None;
    let tracker = PopoverTracker::global(&mut slot);
    assert!(!tracker.has_active(true));
    assert_eq!(tracker.set_active(1, true), None);
    assert_eq!(tracker.set_active(1, true), None);
    assert_eq!(tracker.active, Some(1));
    assert_eq!(tracker.set_active(2, true), Some(1));
    assert!(!tracker.has_active(true));
    tracker.activate(2);
    assert_eq!(tracker.active, Some(2));
    assert_eq!(tracker.set_active(3, false), None);
    assert!(tracker.has_active(true));
    assert!(!tracker.has_active(false));
    assert_eq!(tracker.dismiss_active(true), Some(3));
    assert_eq!(tracker.dismiss_active(true), None);
    assert!(PopoverTracker::global(&mut slot).active.is_none());
}

#[test]
fn a_dismissal_that_clears_does_not_forget_the_new_popover() {
    let mut tracker = PopoverTracker::new();
    tracker.set_active(1, true);
    assert_eq!(tracker.set_active(2, true), Some(1));
    tracker.clear();
    tracker.activate(2);
    assert!(tracker.has_active(true));
    assert_eq!(tracker.dismiss_active(true), Some(2));
}

#[test]
fn a_new_popup_dismisses_the_visible_one() {
    let mut slot = None;
    let tracker = PopupTracker::global(&mut slot);
    assert_eq!(tracker.set_active(7, true), None);
    assert_eq!(tracker.set_active(8, true), Some(7));
    assert!(!tracker.has_active(true));
    tracker.clear();
    tracker.activate(8);
    assert!(tracker.has_active(true));
    tracker.clear();
    assert_eq!(tracker.dismiss_active(true), None);
    assert!(!tracker.has_active(true));
    assert_eq!(tracker.set_active(9, true), None);
    assert_eq!(tracker.dismiss_active(false), None);
}
