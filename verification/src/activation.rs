//! Tokens by which an application may raise its window after a click on a notification. A token
//! carries the surface that was clicked and the serial of the click.

use vstd::prelude::*;
use crate::text::{self, chars_of};

verus! {

pub const ACTIVATION_INTERFACE: &'static str = "xdg_activation_v1";

pub const SEAT_INTERFACE: &'static str = "wl_seat";

/// How often the compositor is asked for a token at most.
pub const TOKEN_ROUNDTRIPS: u32 = 2;

/// Which kinds of input a seat has.
#[derive(Clone, Copy, Debug, PartialEq, Eq, Structural)]
pub struct Devices {
    pub pointer: bool,
    pub keyboard: bool,
    pub touch: bool,
}

/// An input of the user: the serial of the event, and the surface it was made on.
#[derive(Clone, Copy, Debug, PartialEq, Eq, Structural)]
pub struct Input {
    pub serial: u32,
    pub surface: u32,
}

/// What is known of the seat and of the last input. Surfaces are told by their identifiers.
#[derive(Debug)]
pub struct ActivationState {
    /// Whether the compositor gives tokens.
    pub activation: bool,
    /// Whether a seat is bound: the first that was offered.
    pub seat: bool,
    /// The devices of the seat that are in use.
    pub devices: Devices,
    /// The surface under the pointer.
    pub pointer_surface: Option<u32>,
    /// The surface that the keyboard writes to.
    pub keyboard_surface: Option<u32>,
    pub last_input: Option<Input>,
    /// The token that the compositor has sent.
    pub pending_token: Option<String>,
}

/// What an [`ActivationState`] holds.
pub struct StateView {
    pub activation: bool,
    pub seat: bool,
    pub devices: Devices,
    pub pointer_surface: Option<u32>,
    pub keyboard_surface: Option<u32>,
    pub last_input: Option<Input>,
    pub pending_token: Option<Seq<char>>,
}

impl View for ActivationState {
    type V = StateView;

    open spec fn view(&self) -> StateView {
        StateView {
            activation: self.activation,
            seat: self.seat,
            devices: self.devices,
            pointer_surface: self.pointer_surface,
            keyboard_surface: self.keyboard_surface,
            last_input: self.last_input,
            pending_token: chars_of(self.pending_token),
        }
    }
}

impl StateView {
    /// Nothing is bound.
    pub open spec fn empty() -> StateView {
        StateView {
            activation: false,
            seat: false,
            devices: Devices { pointer: false, keyboard: false, touch: false },
            pointer_surface: None,
            keyboard_surface: None,
            last_input: None,
            pending_token: None,
        }
    }

    /// After an input on a surface, if it was on any.
    pub open spec fn with_input(self, serial: u32, surface: Option<u32>) -> StateView {
        match surface {
            Some(id) => StateView { last_input: Some(Input { serial, surface: id }), ..self },
            None => self,
        }
    }

    /// After a surface was left: an input on it no longer counts.
    pub open spec fn without(self, surface: u32) -> StateView {
        match self.last_input {
            Some(input) => if input.surface == surface {
                StateView { last_input: None, ..self }
            } else {
                self
            },
            None => self,
        }
    }

    /// After a surface was left, if there was one.
    pub open spec fn without_any(self, surface: Option<u32>) -> StateView {
        match surface {
            Some(id) => self.without(id),
            None => self,
        }
    }

    /// After the pointer was taken away.
    pub open spec fn without_pointer(self) -> StateView {
        StateView {
            devices: Devices { pointer: false, ..self.devices },
            pointer_surface: None,
            ..self.without_any(self.pointer_surface)
        }
    }

    /// After the keyboard was taken away.
    pub open spec fn without_keyboard(self) -> StateView {
        StateView {
            devices: Devices { keyboard: false, ..self.devices },
            keyboard_surface: None,
            ..self.without_any(self.keyboard_surface)
        }
    }

    /// After the seat has told which devices it has. Devices that were not in use are as before.
    pub open spec fn with_devices(self, offered: Devices) -> StateView {
        let a = if offered.pointer {
            StateView { devices: Devices { pointer: true, ..self.devices }, ..self }
        } else if self.devices.pointer {
            self.without_pointer()
        } else {
            self
        };
        let b = if offered.keyboard {
            StateView { devices: Devices { keyboard: true, ..a.devices }, ..a }
        } else if a.devices.keyboard {
            a.without_keyboard()
        } else {
            a
        };
        StateView { devices: Devices { touch: offered.touch, ..b.devices }, ..b }
    }
}

/// What is to be bound of what a compositor offers, and in which version.
#[derive(Clone, Copy, Debug, PartialEq, Eq, Structural)]
pub enum ActivationGlobal {
    Activation(u32),
    Seat(u32),
}

/// What is done about a device.
#[derive(Clone, Copy, Debug, PartialEq, Eq, Structural)]
pub enum DeviceStep {
    Keep,
    Get,
    Release,
}

/// What is done about a device that is in use or not and that the seat has or not.
pub open spec fn device_step(in_use: bool, offered: bool) -> DeviceStep {
    if offered && !in_use {
        DeviceStep::Get
    } else if !offered && in_use {
        DeviceStep::Release
    } else {
        DeviceStep::Keep
    }
}

/// What is done about the devices of a seat.
#[derive(Clone, Copy, Debug, PartialEq, Eq, Structural)]
pub struct DeviceSteps {
    pub pointer: DeviceStep,
    pub keyboard: DeviceStep,
    pub touch: DeviceStep,
}

fn step_for(in_use: bool, offered: bool) -> (step: DeviceStep)
    ensures
        step == device_step(in_use, offered),
{
    if offered && !in_use {
        DeviceStep::Get
    } else if !offered && in_use {
        DeviceStep::Release
    } else {
        DeviceStep::Keep
    }
}

impl ActivationState {
    pub fn new() -> (state: ActivationState)
        ensures
            state@ == StateView::empty(),
    {
        ActivationState {
            activation: false,
            seat: false,
            devices: Devices { pointer: false, keyboard: false, touch: false },
            pointer_surface: None,
            keyboard_surface: None,
            last_input: None,
            pending_token: None,
        }
    }

    fn record_input(&mut self, serial: u32, surface: Option<u32>)
        ensures
            final(self)@ == old(self)@.with_input(serial, surface),
    {
        if let Some(id) = surface {
            self.last_input = Some(Input { serial, surface: id });
        }
    }

    fn forget_surface(&mut self, surface: u32)
        ensures
            final(self)@ == old(self)@.without(surface),
    {
        match self.last_input {
            Some(input) => if input.surface == surface {
                self.last_input = None;
            },
            None => {},
        }
    }

    /// The compositor offers an interface. Says what is to be bound.
    pub fn global_offered(&mut self, interface: &str, version: u32) -> (bind: Option<ActivationGlobal>)
        ensures
            bind == (if interface@ == ACTIVATION_INTERFACE@ {
                Some(ActivationGlobal::Activation(1))
            } else if interface@ == SEAT_INTERFACE@ && !old(self)@.seat {
                Some(ActivationGlobal::Seat(if version < 5 { version } else { 5 }))
            } else {
                None
            }),
            final(self)@ == (match bind {
                Some(ActivationGlobal::Activation(_)) => StateView { activation: true, ..old(self)@ },
                Some(ActivationGlobal::Seat(_)) => StateView { seat: true, ..old(self)@ },
                None => old(self)@,
            }),
    {
        if text::str_eq(interface, ACTIVATION_INTERFACE) {
            self.activation = true;
            Some(ActivationGlobal::Activation(1))
        } else if text::str_eq(interface, SEAT_INTERFACE) && !self.seat {
            self.seat = true;
            Some(ActivationGlobal::Seat(if version < 5 { version } else { 5 }))
        } else {
            None
        }
    }

    /// Whether tokens can be had once the compositor has told what it offers.
    pub fn is_ready(&self) -> (yes: bool)
        ensures
            yes == (self@.activation && self@.seat),
    {
        self.activation && self.seat
    }

    /// The seat tells which devices it has. Says what is to be done about each.
    pub fn capabilities(&mut self, offered: Devices) -> (steps: DeviceSteps)
        ensures
            final(self)@ == old(self)@.with_devices(offered),
            steps == (DeviceSteps {
                pointer: device_step(old(self)@.devices.pointer, offered.pointer),
                keyboard: device_step(old(self)@.devices.keyboard, offered.keyboard),
                touch: device_step(old(self)@.devices.touch, offered.touch),
            }),
    {
        let steps = DeviceSteps {
            pointer: step_for(self.devices.pointer, offered.pointer),
            keyboard: step_for(self.devices.keyboard, offered.keyboard),
            touch: step_for(self.devices.touch, offered.touch),
        };
        if offered.pointer {
            self.devices.pointer = true;
        } else if self.devices.pointer {
            self.devices.pointer = false;
            if let Some(surface) = self.pointer_surface.take() {
                self.forget_surface(surface);
            }
        }
        if offered.keyboard {
            self.devices.keyboard = true;
        } else if self.devices.keyboard {
            self.devices.keyboard = false;
            if let Some(surface) = self.keyboard_surface.take() {
                self.forget_surface(surface);
            }
        }
        self.devices.touch = offered.touch;
        steps
    }

    /// The pointer comes to a surface.
    pub fn pointer_enter(&mut self, surface: u32)
        ensures
            final(self)@ == (StateView { pointer_surface: Some(surface), ..old(self)@ }),
    {
        self.pointer_surface = Some(surface);
    }

    /// The pointer leaves a surface.
    pub fn pointer_leave(&mut self, surface: u32)
        ensures
            final(self)@ == (StateView { pointer_surface: None, ..old(self)@.without(surface) }),
    {
        self.forget_surface(surface);
        self.pointer_surface = None;
    }

    /// A button is pressed or released.
    pub fn pointer_button(&mut self, serial: u32)
        ensures
            final(self)@ == old(self)@.with_input(serial, old(self)@.pointer_surface),
    {
        let surface: Option<u32> = self.pointer_surface;
        self.record_input(serial, surface);
    }

    /// The keyboard comes to a surface.
    pub fn keyboard_enter(&mut self, surface: u32)
        ensures
            final(self)@ == (StateView { keyboard_surface: Some(surface), ..old(self)@ }),
    {
        self.keyboard_surface = Some(surface);
    }

    /// The keyboard leaves a surface.
    pub fn keyboard_leave(&mut self, surface: u32)
        ensures
            final(self)@ == (StateView { keyboard_surface: None, ..old(self)@.without(surface) }),
    {
        self.forget_surface(surface);
        self.keyboard_surface = None;
    }

    /// A key is pressed or released.
    pub fn keyboard_key(&mut self, serial: u32)
        ensures
            final(self)@ == old(self)@.with_input(serial, old(self)@.keyboard_surface),
    {
        let surface: Option<u32> = self.keyboard_surface;
        self.record_input(serial, surface);
    }

    /// A finger touches a surface.
    pub fn touch_down(&mut self, serial: u32, surface: u32)
        ensures
            final(self)@ == old(self)@.with_input(serial, Some(surface)),
    {
        self.record_input(serial, Some(surface));
    }

    /// The compositor sends a token.
    pub fn token_done(&mut self, token: String)
        ensures
            final(self)@ == (StateView { pending_token: Some(token@), ..old(self)@ }),
    {
        self.pending_token = Some(token);
    }

    /// A token is wanted. Says which input it is asked for with, if there was any and tokens can be
    /// had; that input is then used up.
    pub fn create_token(&mut self) -> (input: Option<Input>)
        ensures
            if old(self)@.activation && old(self)@.seat && old(self)@.last_input is Some {
                &&& input == old(self)@.last_input
                &&& final(self)@ == (StateView { last_input: None, pending_token: None, ..old(self)@ })
            } else {
                &&& input is None
                &&& final(self)@ == old(self)@
            },
    {
        if !self.activation || !self.seat {
            return None;
        }
        match self.last_input {
            None => None,
            Some(input) => {
                self.last_input = None;
                self.pending_token = None;
                Some(input)
            },
        }
    }

    /// Whether the compositor is asked once more, after so many times: not when it has answered, or
    /// the last time failed.
    pub fn asks_again(&self, times: u32, failed: bool) -> (yes: bool)
        ensures
            yes == (times < TOKEN_ROUNDTRIPS && !failed && self@.pending_token is None),
    {
        times < TOKEN_ROUNDTRIPS && !failed && self.pending_token.is_none()
    }

    /// The token that came, if it is not empty.
    pub fn take_token(&mut self) -> (token: Option<String>)
        ensures
            chars_of(token) == (match old(self)@.pending_token {
                Some(t) => if t.len() > 0 {
                    Some(t)
                } else {
                    None
                },
                None => None,
            }),
            final(self)@ == (StateView { pending_token: None, ..old(self)@ }),
    {
        match self.pending_token.take() {
            Some(token) => if text::to_chars(token.as_str()).len() == 0 {
                None
            } else {
                Some(token)
            },
            None => None,
        }
    }
}

/// An input is on the surface that the pointer or the keyboard is at: what was left is forgotten.
pub proof fn left_surfaces_are_forgotten(s: StateView, surface: u32)
    ensures
        s.without(surface).last_input matches Some(input) ==> input.surface != surface,
        s.last_input matches Some(input) ==> input.surface != surface ==> s.without(surface).last_input
            == s.last_input,
{
}

/// A device that is taken away takes the input on its surface with it.
pub proof fn lost_devices_take_their_input(s: StateView, serial: u32, offered: Devices)
    requires
        s.devices.pointer,
        s.pointer_surface is Some,
        !offered.pointer,
    ensures
        s.with_input(serial, s.pointer_surface).with_devices(offered).last_input is None,
{
}

/// Telling the same devices again changes nothing.
pub proof fn capabilities_are_idempotent(s: StateView, offered: Devices)
    ensures
        s.with_devices(offered).with_devices(offered) == s.with_devices(offered),
{
}

/// The last input counts: it is the one that was made last on a surface. Inputs on no surface do not.
pub proof fn the_last_input_counts(s: StateView, serial: u32, surface: Option<u32>)
    ensures
        surface matches Some(id) ==> s.with_input(serial, surface).last_input == Some(Input { serial, surface: id }),
        surface is None ==> s.with_input(serial, surface) == s,
        s.with_input(serial, surface).pointer_surface == s.pointer_surface,
        s.with_input(serial, surface).keyboard_surface == s.keyboard_surface,
        s.with_input(serial, surface).devices == s.devices,
{
}

/// A seat's devices are those that it tells. One that is new is got and one that is gone released, and with it goes
/// the surface it was at and the input there.
pub proof fn devices_are_those_that_are_told(s: StateView, offered: Devices)
    ensures
        ({
            let after = s.with_devices(offered);
            &&& after.devices == offered
            &&& offered.pointer ==> after.pointer_surface == s.pointer_surface
            &&& offered.keyboard ==> after.keyboard_surface == s.keyboard_surface
            &&& s.devices.pointer && !offered.pointer ==> after.pointer_surface is None
            &&& s.devices.keyboard && !offered.keyboard ==> after.keyboard_surface is None
            &&& s.devices.pointer && !offered.pointer && s.pointer_surface is Some && s.last_input is Some
                && s.last_input->0.surface == s.pointer_surface->0 ==> after.last_input is None
            &&& s.devices.keyboard && !offered.keyboard && s.keyboard_surface is Some && s.last_input is Some
                && s.last_input->0.surface == s.keyboard_surface->0 ==> after.last_input is None
            &&& offered.pointer && offered.keyboard ==> after.last_input == s.last_input
            &&& after.activation == s.activation && after.seat == s.seat && after.pending_token == s.pending_token
        }),
        device_step(false, true) == DeviceStep::Get,
        device_step(true, false) == DeviceStep::Release,
        device_step(true, true) == DeviceStep::Keep,
        device_step(false, false) == DeviceStep::Keep,
{
}

/// Before anything is bound no device is there, nothing is under the pointer, and nothing is asked for.
pub proof fn nothing_is_bound_at_first()
    ensures
        ({
            let s = StateView::empty();
            &&& !s.activation && !s.seat && !s.devices.pointer && !s.devices.keyboard && !s.devices.touch
            &&& s.pointer_surface is None && s.keyboard_surface is None && s.last_input is None && s.pending_token is None
        }),
{
}

} // verus!
