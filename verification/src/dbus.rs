//! Rules about the message bus that several services share.

use vstd::prelude::*;
use crate::text;

verus! {

pub const LOGIND_SERVICE: &'static str = "org.freedesktop.login1";

pub const LOGIND_MANAGER_IFACE: &'static str = "org.freedesktop.login1.Manager";

pub const LOGIND_MANAGER_PATH: &'static str = "/org/freedesktop/login1";

pub const PREPARE_FOR_SLEEP_SIGNAL: &'static str = "PrepareForSleep";

/// How a call over the bus has failed.
#[derive(Clone, Copy, Debug, PartialEq, Eq, Structural)]
pub enum DBusError {
    ServiceUnknown,
    NameHasNoOwner,
    Disconnected,
    NoReply,
    UnknownInterface,
    UnknownMethod,
    /// In another way.
    Other,
}

/// The failure that the bus calls by a name.
pub open spec fn error_called(name: Option<Seq<char>>) -> DBusError {
    if name == Some("org.freedesktop.DBus.Error.ServiceUnknown"@) {
        DBusError::ServiceUnknown
    } else if name == Some("org.freedesktop.DBus.Error.NameHasNoOwner"@) {
        DBusError::NameHasNoOwner
    } else if name == Some("org.freedesktop.DBus.Error.Disconnected"@) {
        DBusError::Disconnected
    } else if name == Some("org.freedesktop.DBus.Error.NoReply"@) {
        DBusError::NoReply
    } else if name == Some("org.freedesktop.DBus.Error.UnknownInterface"@) {
        DBusError::UnknownInterface
    } else if name == Some("org.freedesktop.DBus.Error.UnknownMethod"@) {
        DBusError::UnknownMethod
    } else {
        DBusError::Other
    }
}

/// The failure that the bus calls by a name; one without a name did not come over the bus.
pub fn error_named(name: Option<&str>) -> (error: DBusError)
    ensures
        error == error_called(
            (match name {
                Some(n) => Some(n@),
                None => None,
            }),
        ),
{
    match name {
        Some(n) => if text::str_eq(n, "org.freedesktop.DBus.Error.ServiceUnknown") {
            DBusError::ServiceUnknown
        } else if text::str_eq(n, "org.freedesktop.DBus.Error.NameHasNoOwner") {
            DBusError::NameHasNoOwner
        } else if text::str_eq(n, "org.freedesktop.DBus.Error.Disconnected") {
            DBusError::Disconnected
        } else if text::str_eq(n, "org.freedesktop.DBus.Error.NoReply") {
            DBusError::NoReply
        } else if text::str_eq(n, "org.freedesktop.DBus.Error.UnknownInterface") {
            DBusError::UnknownInterface
        } else if text::str_eq(n, "org.freedesktop.DBus.Error.UnknownMethod") {
            DBusError::UnknownMethod
        } else {
            DBusError::Other
        },
        None => DBusError::Other,
    }
}

/// Whether a failure alone does not tell if the daemon has gone: no reply may also mean that it was
/// slow. Then the bus is asked whether its name has an owner.
pub fn asks_for_owner(error: DBusError) -> (yes: bool)
    ensures
        yes == (error == DBusError::NoReply),
{
    error == DBusError::NoReply
}

/// Whether a call has failed because the daemon has gone. `has_owner` is what the bus says of its
/// name, if it was asked and has answered.
pub open spec fn gone(error: DBusError, has_owner: Option<bool>) -> bool {
    match error {
        DBusError::ServiceUnknown => true,
        DBusError::NameHasNoOwner => true,
        DBusError::Disconnected => true,
        DBusError::NoReply => has_owner == Some(false),
        _ => false,
    }
}

/// Whether a call has failed because the daemon has gone.
pub fn is_dbus_disconnect(error: DBusError, has_owner: Option<bool>) -> (yes: bool)
    ensures
        yes == gone(error, has_owner),
{
    match error {
        DBusError::ServiceUnknown => true,
        DBusError::NameHasNoOwner => true,
        DBusError::Disconnected => true,
        DBusError::NoReply => match has_owner {
            Some(owned) => !owned,
            None => false,
        },
        _ => false,
    }
}

/// Whether a signal says that the system has woken up: logind tells before it sleeps, and after.
/// `preparing` is what the signal holds, if it holds a flag.
pub fn has_resumed(preparing: Option<bool>) -> (yes: bool)
    ensures
        yes == (preparing == Some(false)),
{
    match preparing {
        Some(p) => !p,
        None => false,
    }
}

/// A daemon that was slow is not taken for gone unless its name has lost its owner.
pub proof fn slow_daemons_are_not_gone(has_owner: Option<bool>)
    requires
        has_owner != Some(false),
    ensures
        !gone(DBusError::NoReply, has_owner),
{
}

/// A daemon is gone exactly if the bus does not know it, its name has no owner or the connection is lost, or if it did
/// not reply and its name has lost its owner.
pub proof fn daemons_are_gone_when_nobody_owns_their_name(error: DBusError, has_owner: Option<bool>)
    ensures
        gone(error, has_owner) <==> error == DBusError::ServiceUnknown || error == DBusError::NameHasNoOwner || error
            == DBusError::Disconnected || (error == DBusError::NoReply && has_owner == Some(false)),
{
}

/// Failures are told by the names that the bus gives them, each by its own; any other name, and none, tells nothing more.
pub proof fn failures_are_told_by_their_names(name: Option<Seq<char>>)
    ensures
        error_called(name) is ServiceUnknown <==> name == Some("org.freedesktop.DBus.Error.ServiceUnknown"@),
        error_called(name) is NameHasNoOwner <==> name == Some("org.freedesktop.DBus.Error.NameHasNoOwner"@),
        error_called(name) is Disconnected <==> name == Some("org.freedesktop.DBus.Error.Disconnected"@),
        error_called(name) is NoReply <==> name == Some("org.freedesktop.DBus.Error.NoReply"@),
        error_called(name) is UnknownInterface <==> name == Some("org.freedesktop.DBus.Error.UnknownInterface"@),
        error_called(name) is UnknownMethod <==> name == Some("org.freedesktop.DBus.Error.UnknownMethod"@),
        name is None ==> error_called(name) is Other,
{
    reveal_strlit("org.freedesktop.DBus.Error.ServiceUnknown");
    reveal_strlit("org.freedesktop.DBus.Error.NameHasNoOwner");
    reveal_strlit("org.freedesktop.DBus.Error.Disconnected");
    reveal_strlit("org.freedesktop.DBus.Error.NoReply");
    reveal_strlit("org.freedesktop.DBus.Error.UnknownInterface");
    reveal_strlit("org.freedesktop.DBus.Error.UnknownMethod");
    assert("org.freedesktop.DBus.Error.ServiceUnknown"@[27] == 'S');
    assert("org.freedesktop.DBus.Error.NameHasNoOwner"@[27] == 'N');
    assert("org.freedesktop.DBus.Error.Disconnected"@.len() == 39);
    assert("org.freedesktop.DBus.Error.NoReply"@.len() == 34);
    assert("org.freedesktop.DBus.Error.UnknownInterface"@.len() == 43);
    assert("org.freedesktop.DBus.Error.UnknownMethod"@.len() == 40);
    assert("org.freedesktop.DBus.Error.ServiceUnknown"@.len() == 41);
}

} // verus!
