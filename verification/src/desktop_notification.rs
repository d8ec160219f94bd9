//! Notifications that the panel sends itself.

use vstd::prelude::*;
use crate::notification::{
    hint_views, requested, told, Hint, HintValue, HintView, Hints, NotificationView, NotifyRequest,
    URGENCY_CRITICAL, URGENCY_NORMAL,
};
use crate::text::chars_of;

verus! {

pub const NOTIFICATIONS_IFACE: &'static str = "org.freedesktop.Notifications";

/// How long a call may take, in milliseconds.
pub const DBUS_CALL_TIMEOUT_MS: i32 = 5000;

/// How urgent a notification is.
#[derive(Clone, Copy, Debug, PartialEq, Eq, Structural)]
pub enum Urgency {
    Normal,
    Critical,
}

impl Urgency {
    /// The number that stands for it.
    pub open spec fn number(self) -> u8 {
        match self {
            Urgency::Normal => URGENCY_NORMAL,
            Urgency::Critical => URGENCY_CRITICAL,
        }
    }

    /// The number that stands for it in a hint.
    pub fn as_hint(self) -> (n: u8)
        ensures
            n == self.number(),
    {
        match self {
            Urgency::Normal => URGENCY_NORMAL,
            Urgency::Critical => URGENCY_CRITICAL,
        }
    }
}

/// The hints that go with a notification.
pub open spec fn hints_for(urgency: Urgency, transient: bool, close_toast_on_close: bool) -> Seq<
    (Seq<char>, HintView),
> {
    seq![
        ("urgency"@, HintView::Byte(urgency.number())),
        ("transient"@, HintView::Flag(transient)),
        ("x-vibepanel-close-toast-on-close"@, HintView::Flag(close_toast_on_close)),
    ]
}

/// What is asked of the notification server to show a notification: it replaces no other, offers no
/// action, and stays as long as the server likes.
pub fn send_with_id(
    summary: &str,
    body: &str,
    icon: &str,
    urgency: Urgency,
    transient: bool,
    close_toast_on_close: bool,
) -> (request: NotifyRequest)
    ensures
        chars_of(request.app_name) == Some("vibepanel"@),
        request.replaces_id == Some(0u32),
        chars_of(request.app_icon) == Some(icon@),
        chars_of(request.summary) == Some(summary@),
        chars_of(request.body) == Some(body@),
        request.actions@.len() == 0,
        hint_views(request.hints@) == hints_for(urgency, transient, close_toast_on_close),
        request.expire_timeout == Some(-1i32),
{
    let mut hints: Vec<Hint> = Vec::new();
    hints.push(Hint { key: "urgency".to_owned(), value: HintValue::Byte(urgency.as_hint()) });
    hints.push(Hint { key: "transient".to_owned(), value: HintValue::Flag(transient) });
    hints.push(
        Hint {
            key: "x-vibepanel-close-toast-on-close".to_owned(),
            value: HintValue::Flag(close_toast_on_close),
        },
    );
    proof {
        assert(hint_views(hints@) =~= hints_for(urgency, transient, close_toast_on_close));
    }
    NotifyRequest {
        app_name: Some("vibepanel".to_owned()),
        replaces_id: Some(0),
        app_icon: Some(icon.to_owned()),
        summary: Some(summary.to_owned()),
        body: Some(body.to_owned()),
        actions: Vec::new(),
        hints,
        expire_timeout: Some(-1),
    }
}

proof fn keys_differ()
    ensures
        "urgency"@ != "transient"@,
        "urgency"@ != "x-vibepanel-close-toast-on-close"@,
        "transient"@ != "x-vibepanel-close-toast-on-close"@,
        "transient"@ != "desktop-entry"@,
        "transient"@ != "image-path"@,
        "transient"@ != "image-data"@,
        "x-vibepanel-close-toast-on-close"@ != "desktop-entry"@,
        "x-vibepanel-close-toast-on-close"@ != "image-path"@,
        "x-vibepanel-close-toast-on-close"@ != "image-data"@,
{
    reveal_strlit("urgency");
    reveal_strlit("transient");
    reveal_strlit("x-vibepanel-close-toast-on-close");
    reveal_strlit("desktop-entry");
    reveal_strlit("image-path");
    reveal_strlit("image-data");
    assert("urgency"@.len() == 7 && "transient"@.len() == 9 && "x-vibepanel-close-toast-on-close"@.len() == 32);
}

/// In whatever order the hints of a notification arrive, they say what was meant.
pub proof fn hints_are_understood(
    arrived: Seq<(Seq<char>, HintView)>,
    urgency: Urgency,
    transient: bool,
    close_toast_on_close: bool,
)
    requires
        arrived.len() == 3,
        arrived.contains(hints_for(urgency, transient, close_toast_on_close)[0]),
        arrived.contains(hints_for(urgency, transient, close_toast_on_close)[1]),
        arrived.contains(hints_for(urgency, transient, close_toast_on_close)[2]),
    ensures
        told(arrived) == (Hints {
            urgency: urgency.number(),
            transient,
            close_toast_on_close,
            ..Hints::none()
        }),
{
    keys_differ();
    let first = arrived.drop_last();
    let second = first.drop_last();
    assert(second.drop_last().len() == 0);
    assert(told(second.drop_last()) == Hints::none());
    assert(arrived.last() == arrived[2] && first.last() == arrived[1] && second.last() == arrived[0]);
    let hints = hints_for(urgency, transient, close_toast_on_close);
    let i = choose|i: int| 0 <= i < 3 && arrived[i] == hints[0];
    let j = choose|j: int| 0 <= j < 3 && arrived[j] == hints[1];
    let k = choose|k: int| 0 <= k < 3 && arrived[k] == hints[2];
    assert(hints[0].0 == "urgency"@ && hints[1].0 == "transient"@ && hints[2].0
        == "x-vibepanel-close-toast-on-close"@);
    assert(i != j && j != k && i != k);
    reveal_with_fuel(told, 4);
}

/// A notification server of this kind shows what was asked for.
pub proof fn sent_notifications_are_understood(
    request: NotifyRequest,
    summary: Seq<char>,
    body: Seq<char>,
    icon: Seq<char>,
    urgency: Urgency,
    transient: bool,
    close_toast_on_close: bool,
    id: u32,
    timestamp: u64,
)
    requires
        chars_of(request.app_name) == Some("vibepanel"@),
        chars_of(request.app_icon) == Some(icon),
        chars_of(request.summary) == Some(summary),
        chars_of(request.body) == Some(body),
        request.actions@.len() == 0,
        hint_views(request.hints@) == hints_for(urgency, transient, close_toast_on_close),
        request.expire_timeout == Some(-1i32),
    ensures
        requested(request, id, timestamp) == (NotificationView {
            id,
            app_name: "vibepanel"@,
            app_icon: icon,
            summary,
            body,
            actions: Seq::empty(),
            urgency: urgency.number(),
            timestamp,
            expire_timeout: -1i32,
            desktop_entry: None,
            image_path: None,
            image_data: None,
            transient,
            close_toast_on_close,
        }),
{
    reveal_strlit("vibepanel");
    let hints = hints_for(urgency, transient, close_toast_on_close);
    assert(hints[0] == hints[0] && hints[1] == hints[1] && hints[2] == hints[2]);
    hints_are_understood(hints, urgency, transient, close_toast_on_close);
    assert(requested(request, id, timestamp).actions =~= Seq::empty());
}

/// Urgency is told by the numbers of the protocol.
pub proof fn urgencies_have_their_numbers(urgency: Urgency)
    ensures
        urgency.number() == 1 <==> urgency == Urgency::Normal,
        urgency.number() == 2 <==> urgency == Urgency::Critical,
{
}

} // verus!
