//! What the system bus tells the network service, and what follows from it.

use vstd::prelude::*;
use crate::dbus::has_resumed;
use crate::network::control::{flags_read, modem_interface, modem_signal_refreshes, NmFlags};
use crate::network::service::{unavailable, MobileInternal, NmAction, NmService, ServiceView, Step};
use crate::network::SnapshotView;
use crate::text::chars_of;

verus! {

/// Something that the system bus tells.
#[derive(Debug)]
pub enum BusEvent {
    /// NetworkManager is on the bus, for the first time or again, with these flags.
    Appeared(NmFlags),
    /// NetworkManager left the bus.
    Vanished,
    /// NetworkManager's flags changed.
    FlagsChanged(NmFlags),
    /// Properties of an interface of ModemManager changed.
    ModemChanged { interface: Option<String> },
    /// ModemManager has an object more or less.
    ModemsChanged,
    /// The machine is about to sleep or has woken up, if the signal says which.
    Sleep { preparing: Option<bool> },
}

/// NetworkManager is on the bus: its flags are taken over, and its devices are listed.
pub open spec fn appeared(s: ServiceView, flags: NmFlags) -> Step {
    let there = ServiceView { snapshot: SnapshotView { available: true, ..s.snapshot }, ..s }.notified_if(
        !s.snapshot.available,
    );
    let read = flags_read(there.state, flags);
    Step { state: read.state, actions: there.actions + read.actions + seq![NmAction::DiscoverDevices] }
}

/// Whether an event calls for another look at the modem: a change of it, of the list of modems,
/// or the end of sleep, but not its beginning.
pub open spec fn concerns_modem(event: BusEvent) -> bool {
    match event {
        BusEvent::ModemChanged { interface } => modem_interface(chars_of(interface)),
        BusEvent::ModemsChanged => true,
        BusEvent::Sleep { preparing } => preparing == Some(false),
        _ => false,
    }
}

/// The service after an event, and whether the timer for a look at the modem is to be started.
pub open spec fn heard(s: ServiceView, event: BusEvent) -> (Step, bool) {
    match event {
        BusEvent::Appeared(flags) => (appeared(s, flags), false),
        BusEvent::Vanished => (unavailable(s), false),
        BusEvent::FlagsChanged(flags) => (flags_read(s, flags), false),
        _ => if concerns_modem(event) {
            (
                Step {
                    state: ServiceView { mobile: MobileInternal { refresh_pending: true, ..s.mobile }, ..s },
                    actions: Seq::empty(),
                },
                !s.mobile.refresh_pending,
            )
        } else {
            (Step { state: s, actions: Seq::empty() }, false)
        },
    }
}

impl NmService {
    /// Takes in what the bus tells. Returned is what there is to do, and whether the timer for a
    /// look at the modem is to be started.
    pub fn bus_event(&mut self, event: BusEvent) -> (reaction: (Vec<NmAction>, bool))
        ensures
            (Step { state: final(self)@, actions: reaction.0@ }, reaction.1) == heard(old(self)@, event),
    {
        match event {
            BusEvent::Appeared(flags) => {
                let mut actions = self.set_available(true);
                let mut more = self.update_nm_flags(flags);
                actions.append(&mut more);
                actions.push(NmAction::DiscoverDevices);
                proof {
                    assert(actions@ =~= appeared(old(self)@, flags).actions);
                }
                (actions, false)
            }
            BusEvent::Vanished => (self.set_unavailable(), false),
            BusEvent::FlagsChanged(flags) => (self.update_nm_flags(flags), false),
            BusEvent::ModemChanged { interface } => {
                let concerned = match &interface {
                    Some(name) => modem_signal_refreshes(Some(name.as_str())),
                    None => modem_signal_refreshes(None),
                };
                self.look_at_modem(concerned)
            }
            BusEvent::ModemsChanged => self.look_at_modem(true),
            BusEvent::Sleep { preparing } => self.look_at_modem(has_resumed(preparing)),
        }
    }

    fn look_at_modem(&mut self, wanted: bool) -> (reaction: (Vec<NmAction>, bool))
        ensures
            reaction.0@ == Seq::<NmAction>::empty(),
            reaction.1 == (wanted && !old(self)@.mobile.refresh_pending),
            final(self)@ == if wanted {
                (ServiceView { mobile: MobileInternal { refresh_pending: true, ..old(self)@.mobile }, ..old(self)@ })
            } else {
                old(self)@
            },
    {
        let start = if wanted { self.queue_mobile_refresh() } else { false };
        (Vec::new(), start)
    }
}

/// Signals that follow one another share one look at the modem: the timer is started once.
pub proof fn signals_share_a_look(s: ServiceView, first: BusEvent, second: BusEvent)
    requires
        concerns_modem(first),
    ensures
        !heard(heard(s, first).0.state, second).1,
{
}

/// When NetworkManager comes back after it was lost, listeners are told, and its devices are
/// listed again.
pub proof fn restarts_are_survived(s: ServiceView, flags: NmFlags)
    requires
        s.snapshot.available,
    ensures
        ({
            let lost = heard(s, BusEvent::Vanished).0;
            let back = heard(lost.state, BusEvent::Appeared(flags)).0;
            &&& !lost.state.snapshot.available
            &&& lost.actions == seq![NmAction::Notify, NmAction::ClearProxies]
            &&& back.state.snapshot.available
            &&& back.actions.first() == NmAction::Notify
            &&& back.actions.last() == NmAction::DiscoverDevices
        }),
{
    let lost = heard(s, BusEvent::Vanished).0;
    assert(lost.actions =~= seq![NmAction::Notify, NmAction::ClearProxies]);
}

/// Losing NetworkManager is told once.
pub proof fn loss_is_told_once(s: ServiceView)
    ensures
        ({
            let lost = heard(s, BusEvent::Vanished).0;
            heard(lost.state, BusEvent::Vanished).0 == (Step { state: lost.state, actions: Seq::empty() })
        }),
{
}

} // verus!
