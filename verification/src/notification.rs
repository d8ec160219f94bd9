//! Notifications: what applications send, and what is kept of it.

pub mod service;

use vstd::prelude::*;
use vstd::string::*;
use crate::dbus::DBusError;
use crate::text::{self, chars_of};

verus! {

pub const NOTIFICATIONS_NAME: &'static str = "org.freedesktop.Notifications";

pub const NOTIFICATIONS_PATH: &'static str = "/org/freedesktop/Notifications";

pub const VIBEPANEL_NOTIFICATIONS_INTERFACE: &'static str = "io.github.vibepanel.Notifications1";

pub const UNREAD_METHOD: &'static str = "GetUnreadCount";

/// How long a query of the unread count may take, in milliseconds.
pub const DBUS_CALL_TIMEOUT_MS: i32 = 2_000;

/// The user dismissed a notification.
pub const CLOSE_REASON_DISMISSED: u32 = 2;

/// A notification was closed by a call.
pub const CLOSE_REASON_CLOSED: u32 = 3;

pub const URGENCY_LOW: u8 = 0;

pub const URGENCY_NORMAL: u8 = 1;

pub const URGENCY_CRITICAL: u8 = 2;

/// A picture that came with a notification.
#[derive(Debug)]
pub struct NotificationImage {
    pub width: i32,
    pub height: i32,
    pub rowstride: i32,
    pub has_alpha: bool,
    pub channels: i32,
    pub data: Vec<u8>,
}

/// What a [`NotificationImage`] holds.
pub struct ImageView {
    pub width: i32,
    pub height: i32,
    pub rowstride: i32,
    pub has_alpha: bool,
    pub channels: i32,
    pub data: Seq<u8>,
}

impl View for NotificationImage {
    type V = ImageView;

    open spec fn view(&self) -> ImageView {
        ImageView {
            width: self.width,
            height: self.height,
            rowstride: self.rowstride,
            has_alpha: self.has_alpha,
            channels: self.channels,
            data: self.data@,
        }
    }
}

/// What an optional picture holds.
pub open spec fn image_of(image: Option<NotificationImage>) -> Option<ImageView> {
    match image {
        Some(i) => Some(i@),
        None => None,
    }
}

/// An action that a notification offers.
#[derive(Debug)]
pub struct Action {
    pub key: String,
    pub label: String,
}

/// What an [`Action`] holds.
pub struct ActionView {
    pub key: Seq<char>,
    pub label: Seq<char>,
}

impl View for Action {
    type V = ActionView;

    open spec fn view(&self) -> ActionView {
        ActionView { key: self.key@, label: self.label@ }
    }
}

/// What the actions of a list hold.
pub open spec fn action_views(actions: Seq<Action>) -> Seq<ActionView> {
    actions.map_values(|a: Action| a@)
}

/// A notification. Its time is the bit pattern of a double, in seconds since 1970.
#[derive(Debug)]
pub struct Notification {
    pub id: u32,
    pub app_name: String,
    pub app_icon: String,
    pub summary: String,
    pub body: String,
    pub actions: Vec<Action>,
    pub urgency: u8,
    pub timestamp: u64,
    /// In milliseconds; -1 for the usual time, 0 for ever.
    pub expire_timeout: i32,
    pub desktop_entry: Option<String>,
    pub image_path: Option<String>,
    pub image_data: Option<NotificationImage>,
    /// Only shown for a moment, and not kept.
    pub transient: bool,
    /// Whether closing the notification takes what is shown of it away.
    pub close_toast_on_close: bool,
}

/// What a [`Notification`] holds.
pub struct NotificationView {
    pub id: u32,
    pub app_name: Seq<char>,
    pub app_icon: Seq<char>,
    pub summary: Seq<char>,
    pub body: Seq<char>,
    pub actions: Seq<ActionView>,
    pub urgency: u8,
    pub timestamp: u64,
    pub expire_timeout: i32,
    pub desktop_entry: Option<Seq<char>>,
    pub image_path: Option<Seq<char>>,
    pub image_data: Option<ImageView>,
    pub transient: bool,
    pub close_toast_on_close: bool,
}

impl View for Notification {
    type V = NotificationView;

    open spec fn view(&self) -> NotificationView {
        NotificationView {
            id: self.id,
            app_name: self.app_name@,
            app_icon: self.app_icon@,
            summary: self.summary@,
            body: self.body@,
            actions: action_views(self.actions@),
            urgency: self.urgency,
            timestamp: self.timestamp,
            expire_timeout: self.expire_timeout,
            desktop_entry: chars_of(self.desktop_entry),
            image_path: chars_of(self.image_path),
            image_data: image_of(self.image_data),
            transient: self.transient,
            close_toast_on_close: self.close_toast_on_close,
        }
    }
}

/// What is saved of a notification: neither pictures nor how it is shown.
#[derive(Debug)]
pub struct PersistedNotification {
    pub id: u32,
    pub app_name: String,
    pub app_icon: String,
    pub summary: String,
    pub body: String,
    pub actions: Vec<Action>,
    pub urgency: u8,
    pub timestamp: u64,
    pub expire_timeout: i32,
    pub desktop_entry: Option<String>,
    pub image_path: Option<String>,
}

/// What a [`PersistedNotification`] holds.
pub struct PersistedView {
    pub id: u32,
    pub app_name: Seq<char>,
    pub app_icon: Seq<char>,
    pub summary: Seq<char>,
    pub body: Seq<char>,
    pub actions: Seq<ActionView>,
    pub urgency: u8,
    pub timestamp: u64,
    pub expire_timeout: i32,
    pub desktop_entry: Option<Seq<char>>,
    pub image_path: Option<Seq<char>>,
}

impl View for PersistedNotification {
    type V = PersistedView;

    open spec fn view(&self) -> PersistedView {
        PersistedView {
            id: self.id,
            app_name: self.app_name@,
            app_icon: self.app_icon@,
            summary: self.summary@,
            body: self.body@,
            actions: action_views(self.actions@),
            urgency: self.urgency,
            timestamp: self.timestamp,
            expire_timeout: self.expire_timeout,
            desktop_entry: chars_of(self.desktop_entry),
            image_path: chars_of(self.image_path),
        }
    }
}

/// What is saved of a notification.
pub open spec fn saved(n: NotificationView) -> PersistedView {
    PersistedView {
        id: n.id,
        app_name: n.app_name,
        app_icon: n.app_icon,
        summary: n.summary,
        body: n.body,
        actions: n.actions,
        urgency: n.urgency,
        timestamp: n.timestamp,
        expire_timeout: n.expire_timeout,
        desktop_entry: n.desktop_entry,
        image_path: n.image_path,
    }
}

/// The notification that comes back from what was saved.
pub open spec fn restored(p: PersistedView) -> NotificationView {
    NotificationView {
        id: p.id,
        app_name: p.app_name,
        app_icon: p.app_icon,
        summary: p.summary,
        body: p.body,
        actions: p.actions,
        urgency: p.urgency,
        timestamp: p.timestamp,
        expire_timeout: p.expire_timeout,
        desktop_entry: p.desktop_entry,
        image_path: p.image_path,
        image_data: None,
        transient: false,
        close_toast_on_close: false,
    }
}

/// Restoring and saving loses nothing of what is saved; saving and restoring loses the picture and
/// how the notification is shown, and nothing else.
pub proof fn saving_round_trips(p: PersistedView, n: NotificationView)
    ensures
        saved(restored(p)) == p,
        restored(saved(n)) == (NotificationView {
            image_data: None,
            transient: false,
            close_toast_on_close: false,
            ..n
        }),
{
}

fn copy_actions(actions: &Vec<Action>) -> (copy: Vec<Action>)
    ensures
        action_views(copy@) == action_views(actions@),
{
    let mut copy: Vec<Action> = Vec::new();
    let mut i: usize = 0;
    while i < actions.len()
        invariant
            i <= actions@.len(),
            copy@.len() == i,
            forall|j: int| 0 <= j < i ==> (#[trigger] copy@[j])@ == actions@[j]@,
        decreases actions@.len() - i,
    {
        copy.push(Action { key: actions[i].key.clone(), label: actions[i].label.clone() });
        i += 1;
    }
    proof {
        assert(action_views(copy@) =~= action_views(actions@));
    }
    copy
}

impl Notification {
    /// What is saved of the notification.
    pub fn to_persisted(&self) -> (persisted: PersistedNotification)
        ensures
            persisted@ == saved(self@),
    {
        PersistedNotification {
            id: self.id,
            app_name: self.app_name.clone(),
            app_icon: self.app_icon.clone(),
            summary: self.summary.clone(),
            body: self.body.clone(),
            actions: copy_actions(&self.actions),
            urgency: self.urgency,
            timestamp: self.timestamp,
            expire_timeout: self.expire_timeout,
            desktop_entry: self.desktop_entry.clone(),
            image_path: self.image_path.clone(),
        }
    }

    /// The notification that comes back from what was saved.
    pub fn from_persisted(p: PersistedNotification) -> (notification: Notification)
        ensures
            notification@ == restored(p@),
    {
        Notification {
            id: p.id,
            app_name: p.app_name,
            app_icon: p.app_icon,
            summary: p.summary,
            body: p.body,
            actions: p.actions,
            urgency: p.urgency,
            timestamp: p.timestamp,
            expire_timeout: p.expire_timeout,
            desktop_entry: p.desktop_entry,
            image_path: p.image_path,
            image_data: None,
            transient: false,
            close_toast_on_close: false,
        }
    }
}

/// The value of a hint.
#[derive(Debug)]
pub enum HintValue {
    Byte(u8),
    Int(i32),
    Uint(u32),
    Flag(bool),
    Text(String),
    Image(NotificationImage),
    /// Something else.
    Other,
}

/// What a [`HintValue`] holds.
pub enum HintView {
    Byte(u8),
    Int(i32),
    Uint(u32),
    Flag(bool),
    Text(Seq<char>),
    Image(ImageView),
    Other,
}

impl View for HintValue {
    type V = HintView;

    open spec fn view(&self) -> HintView {
        match *self {
            HintValue::Byte(n) => HintView::Byte(n),
            HintValue::Int(n) => HintView::Int(n),
            HintValue::Uint(n) => HintView::Uint(n),
            HintValue::Flag(b) => HintView::Flag(b),
            HintValue::Text(t) => HintView::Text(t@),
            HintValue::Image(i) => HintView::Image(i@),
            HintValue::Other => HintView::Other,
        }
    }
}

/// A hint of a notification.
#[derive(Debug)]
pub struct Hint {
    pub key: String,
    pub value: HintValue,
}

/// What the hints of a list hold.
pub open spec fn hint_views(hints: Seq<Hint>) -> Seq<(Seq<char>, HintView)> {
    hints.map_values(|h: Hint| (h.key@, h.value@))
}

/// What hints say of a notification.
pub struct Hints {
    pub urgency: u8,
    pub desktop_entry: Option<Seq<char>>,
    pub image_path: Option<Seq<char>>,
    pub image_data: Option<ImageView>,
    pub transient: bool,
    pub close_toast_on_close: bool,
}

impl Hints {
    pub open spec fn none() -> Hints {
        Hints {
            urgency: URGENCY_NORMAL,
            desktop_entry: None,
            image_path: None,
            image_data: None,
            transient: false,
            close_toast_on_close: false,
        }
    }
}

/// The urgency that a value tells: a byte as it is, other numbers brought between 0 and 2.
pub open spec fn urgency_told(value: HintView) -> Option<u8> {
    match value {
        HintView::Byte(n) => Some(n),
        HintView::Int(n) => Some(if n < 0 { 0 } else if n > 2 { 2 } else { n as u8 }),
        HintView::Uint(n) => Some(if n > 2 { 2 } else { n as u8 }),
        _ => None,
    }
}

/// The flag that a value tells: a flag, or a number that is not zero.
pub open spec fn flag_told(value: HintView) -> Option<bool> {
    match value {
        HintView::Flag(b) => Some(b),
        HintView::Byte(n) => Some(n != 0),
        HintView::Int(n) => Some(n != 0),
        HintView::Uint(n) => Some(n != 0),
        _ => None,
    }
}

/// The text that a value tells, if it is not empty.
pub open spec fn text_told(value: HintView) -> Option<Seq<char>> {
    match value {
        HintView::Text(t) => if t.len() > 0 { Some(t) } else { None },
        _ => None,
    }
}

/// What hints say with one more. Values that tell nothing leave what was said before.
pub open spec fn with_hint(h: Hints, key: Seq<char>, value: HintView) -> Hints {
    if key == "urgency"@ {
        match urgency_told(value) {
            Some(urgency) => Hints { urgency, ..h },
            None => h,
        }
    } else if key == "desktop-entry"@ {
        match text_told(value) {
            Some(t) => Hints { desktop_entry: Some(t), ..h },
            None => h,
        }
    } else if key == "image-path"@ {
        match text_told(value) {
            Some(t) => Hints { image_path: Some(t), ..h },
            None => h,
        }
    } else if key == "image-data"@ {
        match value {
            HintView::Image(i) => Hints { image_data: Some(i), ..h },
            _ => h,
        }
    } else if key == "transient"@ {
        match flag_told(value) {
            Some(b) => Hints { transient: b, ..h },
            None => h,
        }
    } else if key == "x-vibepanel-close-toast-on-close"@ {
        match flag_told(value) {
            Some(b) => Hints { close_toast_on_close: b, ..h },
            None => h,
        }
    } else {
        h
    }
}

/// What hints say, one after the other.
pub open spec fn told(hints: Seq<(Seq<char>, HintView)>) -> Hints
    decreases hints.len(),
{
    if hints.len() == 0 {
        Hints::none()
    } else {
        with_hint(told(hints.drop_last()), hints.last().0, hints.last().1)
    }
}

/// A text, or nothing.
pub open spec fn or_empty(t: Option<Seq<char>>) -> Seq<char> {
    match t {
        Some(s) => s,
        None => Seq::empty(),
    }
}

/// The actions that a list of keys and labels in turn means; a key without a label is left out.
pub open spec fn paired(texts: Seq<Option<Seq<char>>>) -> Seq<ActionView> {
    Seq::new(
        texts.len() / 2,
        |i: int| ActionView { key: or_empty(texts[2 * i]), label: or_empty(texts[2 * i + 1]) },
    )
}

/// What the texts of a list hold.
pub open spec fn optional_views(list: Seq<Option<String>>) -> Seq<Option<Seq<char>>> {
    list.map_values(|t: Option<String>| chars_of(t))
}

/// A request to show a notification. Arguments that are of another kind than asked for are missing.
#[derive(Debug)]
pub struct NotifyRequest {
    pub app_name: Option<String>,
    pub replaces_id: Option<u32>,
    pub app_icon: Option<String>,
    pub summary: Option<String>,
    pub body: Option<String>,
    /// Keys and labels in turn.
    pub actions: Vec<Option<String>>,
    pub hints: Vec<Hint>,
    pub expire_timeout: Option<i32>,
}

/// The notification that a request asks for.
pub open spec fn requested(r: NotifyRequest, id: u32, timestamp: u64) -> NotificationView {
    let h = told(hint_views(r.hints@));
    let name = or_empty(chars_of(r.app_name));
    NotificationView {
        id,
        app_name: if name.len() == 0 { "Unknown"@ } else { name },
        app_icon: or_empty(chars_of(r.app_icon)),
        summary: or_empty(chars_of(r.summary)),
        body: or_empty(chars_of(r.body)),
        actions: paired(optional_views(r.actions@)),
        urgency: h.urgency,
        timestamp,
        expire_timeout: match r.expire_timeout {
            Some(ms) => ms,
            None => -1i32,
        },
        desktop_entry: h.desktop_entry,
        image_path: h.image_path,
        image_data: h.image_data,
        transient: h.transient,
        close_toast_on_close: h.close_toast_on_close,
    }
}

fn text_or_empty(t: &Option<String>) -> (s: String)
    ensures
        s@ == or_empty(chars_of(*t)),
{
    match t {
        Some(s) => s.clone(),
        None => String::new(),
    }
}

fn read_urgency(value: &HintValue) -> (urgency: Option<u8>)
    ensures
        urgency == urgency_told(value@),
{
    match value {
        HintValue::Byte(n) => Some(*n),
        HintValue::Int(n) => Some(if *n < 0 { 0 } else if *n > 2 { 2 } else { *n as u8 }),
        HintValue::Uint(n) => Some(if *n > 2 { 2 } else { *n as u8 }),
        _ => None,
    }
}

fn read_flag(value: &HintValue) -> (flag: Option<bool>)
    ensures
        flag == flag_told(value@),
{
    match value {
        HintValue::Flag(b) => Some(*b),
        HintValue::Byte(n) => Some(*n != 0),
        HintValue::Int(n) => Some(*n != 0),
        HintValue::Uint(n) => Some(*n != 0),
        _ => None,
    }
}

fn read_hint_text(value: &HintValue) -> (t: Option<String>)
    ensures
        chars_of(t) == text_told(value@),
{
    match value {
        HintValue::Text(t) => {
            let chars = text::to_chars(t.as_str());
            if chars.len() > 0 { Some(t.clone()) } else { None }
        }
        _ => None,
    }
}

fn copy_image(image: &NotificationImage) -> (copy: NotificationImage)
    ensures
        copy@ == image@,
{
    let mut data: Vec<u8> = Vec::new();
    let mut i: usize = 0;
    while i < image.data.len()
        invariant
            i <= image.data@.len(),
            data@ == image.data@.take(i as int),
        decreases image.data@.len() - i,
    {
        data.push(image.data[i]);
        proof {
            assert(image.data@.take(i + 1) =~= image.data@.take(i as int).push(image.data@[i as int]));
        }
        i += 1;
    }
    proof {
        assert(image.data@.take(i as int) =~= image.data@);
    }
    NotificationImage {
        width: image.width,
        height: image.height,
        rowstride: image.rowstride,
        has_alpha: image.has_alpha,
        channels: image.channels,
        data,
    }
}

/// What hints say.
#[derive(Debug)]
struct ReadHints {
    urgency: u8,
    desktop_entry: Option<String>,
    image_path: Option<String>,
    image_data: Option<NotificationImage>,
    transient: bool,
    close_toast_on_close: bool,
}

impl View for ReadHints {
    type V = Hints;

    closed spec fn view(&self) -> Hints {
        Hints {
            urgency: self.urgency,
            desktop_entry: chars_of(self.desktop_entry),
            image_path: chars_of(self.image_path),
            image_data: image_of(self.image_data),
            transient: self.transient,
            close_toast_on_close: self.close_toast_on_close,
        }
    }
}

fn take_hint(h: &mut ReadHints, hint: &Hint)
    ensures
        final(h)@ == with_hint(old(h)@, hint.key@, hint.value@),
{
    let key = hint.key.as_str();
    if text::str_eq(key, "urgency") {
        match read_urgency(&hint.value) {
            Some(u) => h.urgency = u,
            None => {}
        }
    } else if text::str_eq(key, "desktop-entry") {
        match read_hint_text(&hint.value) {
            Some(t) => h.desktop_entry = Some(t),
            None => {}
        }
    } else if text::str_eq(key, "image-path") {
        match read_hint_text(&hint.value) {
            Some(t) => h.image_path = Some(t),
            None => {}
        }
    } else if text::str_eq(key, "image-data") {
        match &hint.value {
            HintValue::Image(i) => h.image_data = Some(copy_image(i)),
            _ => {}
        }
    } else if text::str_eq(key, "transient") {
        match read_flag(&hint.value) {
            Some(b) => h.transient = b,
            None => {}
        }
    } else if text::str_eq(key, "x-vibepanel-close-toast-on-close") {
        match read_flag(&hint.value) {
            Some(b) => h.close_toast_on_close = b,
            None => {}
        }
    }
}

fn read_hints(hints: &Vec<Hint>) -> (h: ReadHints)
    ensures
        h@ == told(hint_views(hints@)),
{
    let ghost all = hint_views(hints@);
    let mut h = ReadHints {
        urgency: URGENCY_NORMAL,
        desktop_entry: None,
        image_path: None,
        image_data: None,
        transient: false,
        close_toast_on_close: false,
    };
    let mut i: usize = 0;
    proof {
        assert(all.take(0) =~= Seq::empty());
    }
    while i < hints.len()
        invariant
            i <= hints@.len(),
            all == hint_views(hints@),
            h@ == told(all.take(i as int)),
        decreases hints@.len() - i,
    {
        proof {
            assert(all.take(i + 1).drop_last() =~= all.take(i as int));
            assert(all.take(i + 1).last() == (hints@[i as int].key@, hints@[i as int].value@));
        }
        take_hint(&mut h, &hints[i]);
        i += 1;
    }
    proof {
        assert(all.take(i as int) =~= all);
    }
    h
}

fn read_actions(texts: &Vec<Option<String>>) -> (actions: Vec<Action>)
    ensures
        action_views(actions@) == paired(optional_views(texts@)),
{
    let ghost all = optional_views(texts@);
    let mut actions: Vec<Action> = Vec::new();
    let mut i: usize = 0;
    while texts.len() >= 2 && i <= texts.len() - 2
        invariant
            all == optional_views(texts@),
            i == 2 * actions@.len(),
            i <= texts@.len(),
            forall|k: int|
                0 <= k < actions@.len() ==> (#[trigger] actions@[k])@ == (ActionView {
                    key: or_empty(all[2 * k]),
                    label: or_empty(all[2 * k + 1]),
                }),
        decreases texts@.len() - i,
    {
        let key = text_or_empty(&texts[i]);
        let label = text_or_empty(&texts[i + 1]);
        proof {
            assert(all[i as int] == chars_of(texts@[i as int]));
            assert(all[i + 1] == chars_of(texts@[i + 1]));
        }
        actions.push(Action { key, label });
        i += 2;
    }
    proof {
        assert(actions@.len() == all.len() / 2);
        assert(action_views(actions@) =~= paired(all));
    }
    actions
}

/// The notification that a request asks for.
pub fn notification_from(request: &NotifyRequest, id: u32, timestamp: u64) -> (notification: Notification)
    ensures
        notification@ == requested(*request, id, timestamp),
{
    let h = read_hints(&request.hints);
    let name = text_or_empty(&request.app_name);
    let chars = text::to_chars(name.as_str());
    Notification {
        id,
        app_name: if chars.len() == 0 { "Unknown".to_string() } else { name },
        app_icon: text_or_empty(&request.app_icon),
        summary: text_or_empty(&request.summary),
        body: text_or_empty(&request.body),
        actions: read_actions(&request.actions),
        urgency: h.urgency,
        timestamp,
        expire_timeout: match request.expire_timeout {
            Some(ms) => ms,
            None => -1,
        },
        desktop_entry: h.desktop_entry,
        image_path: h.image_path,
        image_data: h.image_data,
        transient: h.transient,
        close_toast_on_close: h.close_toast_on_close,
    }
}

/// The calls that applications can make.
#[derive(Clone, Copy, Debug, PartialEq, Eq, Structural)]
pub enum Method {
    Notify,
    CloseNotification,
    GetCapabilities,
    GetServerInformation,
    Unknown,
}

/// The call with a name.
pub open spec fn named(name: Seq<char>) -> Method {
    if name == "Notify"@ {
        Method::Notify
    } else if name == "CloseNotification"@ {
        Method::CloseNotification
    } else if name == "GetCapabilities"@ {
        Method::GetCapabilities
    } else if name == "GetServerInformation"@ {
        Method::GetServerInformation
    } else {
        Method::Unknown
    }
}

/// The call with a name.
pub fn method_named(name: &str) -> (method: Method)
    ensures
        method == named(name@),
{
    if text::str_eq(name, "Notify") {
        Method::Notify
    } else if text::str_eq(name, "CloseNotification") {
        Method::CloseNotification
    } else if text::str_eq(name, "GetCapabilities") {
        Method::GetCapabilities
    } else if text::str_eq(name, "GetServerInformation") {
        Method::GetServerInformation
    } else {
        Method::Unknown
    }
}

/// What is done with notifications.
pub fn capabilities() -> (list: Vec<&'static str>)
    ensures
        list@ == seq!["body", "body-markup", "actions", "persistence", "icon-static"],
{
    let mut list: Vec<&'static str> = Vec::new();
    list.push("body");
    list.push("body-markup");
    list.push("actions");
    list.push("persistence");
    list.push("icon-static");
    proof {
        assert(list@ =~= seq!["body", "body-markup", "actions", "persistence", "icon-static"]);
    }
    list
}

/// The name, the maker and the version of the service, and the version of the protocol.
pub fn server_information() -> (info: (&'static str, &'static str, &'static str, &'static str))
    ensures
        info == ("vibepanel", "vibepanel", "1.0", "1.2"),
{
    ("vibepanel", "vibepanel", "1.0", "1.2")
}

/// Why a call cannot be answered.
pub fn unknown_method(name: &str) -> (message: String)
    ensures
        message@ == "Unknown method: "@ + name@,
{
    text::joined("Unknown method: ", name)
}

/// The answer to a call of the interface for the unread count: as much of the count as the protocol
/// can tell.
pub fn unread_answer(method: &str, unread: usize) -> (answer: Result<u32, String>)
    ensures
        match answer {
            Ok(count) => method@ == UNREAD_METHOD@ && count == (if unread <= u32::MAX {
                unread as int
            } else {
                u32::MAX as int
            }),
            Err(message) => method@ != UNREAD_METHOD@ && message@ == "Unknown method: "@ + method@,
        },
{
    if !text::str_eq(method, UNREAD_METHOD) {
        return Err(unknown_method(method));
    }
    if unread > u32::MAX as usize {
        Ok(u32::MAX)
    } else {
        Ok(unread as u32)
    }
}

/// What came of a query of the unread count.
#[derive(Debug)]
pub enum UnreadReply {
    /// There is no session bus.
    NoBus(String),
    /// Somebody answered, with a count if the answer is one.
    Answered(Option<u32>),
    /// The call failed.
    Failed { error: DBusError, message: String },
}

/// The unread count that was answered, or what is told of a failure.
pub open spec fn unread_told(reply: UnreadReply) -> Result<u32, Seq<char>> {
    match reply {
        UnreadReply::NoBus(error) => Err("could not connect to the session bus: "@ + error@),
        UnreadReply::Answered(Some(count)) => Ok(count),
        UnreadReply::Answered(None) => Err("notification daemon returned an invalid unread count"@),
        UnreadReply::Failed { error, message } => match error {
            DBusError::ServiceUnknown | DBusError::NameHasNoOwner => Err("no notification daemon is running"@),
            DBusError::UnknownInterface | DBusError::UnknownMethod => Err(
                "the active notification daemon does not support Vibepanel unread queries"@,
            ),
            _ => Err("could not query the active notification daemon: "@ + message@),
        },
    }
}

/// The unread count that was answered, or what is told of a failure.
pub fn unread_notification_count(reply: UnreadReply) -> (count: Result<u32, String>)
    ensures
        match count {
            Ok(n) => unread_told(reply) == Ok::<u32, Seq<char>>(n),
            Err(message) => unread_told(reply) == Err::<u32, Seq<char>>(message@),
        },
{
    match reply {
        UnreadReply::NoBus(error) => Err(text::joined("could not connect to the session bus: ", error.as_str())),
        UnreadReply::Answered(Some(count)) => Ok(count),
        UnreadReply::Answered(None) => Err("notification daemon returned an invalid unread count".to_string()),
        UnreadReply::Failed { error, message } => match error {
            DBusError::ServiceUnknown | DBusError::NameHasNoOwner => {
                Err("no notification daemon is running".to_string())
            }
            DBusError::UnknownInterface | DBusError::UnknownMethod => Err(
                "the active notification daemon does not support Vibepanel unread queries".to_string(),
            ),
            _ => Err(text::joined("could not query the active notification daemon: ", message.as_str())),
        },
    }
}

proof fn lemma_hint_names()
    ensures
        "urgency"@ != "desktop-entry"@ && "urgency"@ != "image-path"@ && "urgency"@ != "image-data"@,
        "urgency"@ != "transient"@ && "urgency"@ != "x-vibepanel-close-toast-on-close"@,
        "desktop-entry"@ != "image-path"@ && "desktop-entry"@ != "image-data"@ && "desktop-entry"@ != "transient"@,
        "desktop-entry"@ != "x-vibepanel-close-toast-on-close"@,
        "image-path"@ != "image-data"@ && "image-path"@ != "transient"@,
        "image-path"@ != "x-vibepanel-close-toast-on-close"@,
        "image-data"@ != "transient"@ && "image-data"@ != "x-vibepanel-close-toast-on-close"@,
        "transient"@ != "x-vibepanel-close-toast-on-close"@,
{
    reveal_strlit("urgency");
    reveal_strlit("desktop-entry");
    reveal_strlit("image-path");
    reveal_strlit("image-data");
    reveal_strlit("transient");
    reveal_strlit("x-vibepanel-close-toast-on-close");
    assert("image-path"@[6] == 'p' && "image-data"@[6] == 'd');
    assert("urgency"@.len() == 7 && "desktop-entry"@.len() == 13 && "image-path"@.len() == 10 && "image-data"@.len() == 10
        && "transient"@.len() == 9 && "x-vibepanel-close-toast-on-close"@.len() == 32);
}

/// A hint tells what it is for and nothing else: the urgency as a byte, or a number brought between low and
/// critical; the application, the picture's path and the picture; and the flags as flags or as numbers that are
/// not zero. Empty texts tell nothing.
pub proof fn hints_tell_what_they_are_for(
    hints: Seq<(Seq<char>, HintView)>,
    key: Seq<char>,
    value: HintView,
)
    ensures
        ({
            let before = told(hints);
            let after = told(hints.push((key, value)));
            &&& key != "urgency"@ ==> after.urgency == before.urgency
            &&& key != "desktop-entry"@ ==> after.desktop_entry == before.desktop_entry
            &&& key != "image-path"@ ==> after.image_path == before.image_path
            &&& key != "image-data"@ ==> after.image_data == before.image_data
            &&& key != "transient"@ ==> after.transient == before.transient
            &&& key != "x-vibepanel-close-toast-on-close"@ ==> after.close_toast_on_close == before.close_toast_on_close
            &&& key == "urgency"@ ==> match value {
                HintView::Byte(n) => after.urgency == n,
                HintView::Int(n) => after.urgency <= 2 && (0 <= n <= 2 ==> after.urgency == n) && (n < 0 ==> after.urgency
                    == 0) && (n > 2 ==> after.urgency == 2),
                HintView::Uint(n) => after.urgency <= 2 && (n <= 2 ==> after.urgency == n) && (n > 2 ==> after.urgency == 2),
                _ => after.urgency == before.urgency,
            }
            &&& key == "desktop-entry"@ ==> match value {
                HintView::Text(t) => if t.len() > 0 {
                    after.desktop_entry == Some(t)
                } else {
                    after.desktop_entry == before.desktop_entry
                },
                _ => after.desktop_entry == before.desktop_entry,
            }
            &&& key == "image-path"@ ==> match value {
                HintView::Text(t) => if t.len() > 0 {
                    after.image_path == Some(t)
                } else {
                    after.image_path == before.image_path
                },
                _ => after.image_path == before.image_path,
            }
            &&& key == "image-data"@ ==> match value {
                HintView::Image(i) => after.image_data == Some(i),
                _ => after.image_data == before.image_data,
            }
            &&& key == "transient"@ ==> match value {
                HintView::Flag(b) => after.transient == b,
                HintView::Byte(n) => after.transient == (n != 0),
                HintView::Int(n) => after.transient == (n != 0),
                HintView::Uint(n) => after.transient == (n != 0),
                _ => after.transient == before.transient,
            }
            &&& key == "x-vibepanel-close-toast-on-close"@ ==> match value {
                HintView::Flag(b) => after.close_toast_on_close == b,
                HintView::Byte(n) => after.close_toast_on_close == (n != 0),
                HintView::Int(n) => after.close_toast_on_close == (n != 0),
                HintView::Uint(n) => after.close_toast_on_close == (n != 0),
                _ => after.close_toast_on_close == before.close_toast_on_close,
            }
        }),
        told(Seq::empty()).urgency == 1,
        told(Seq::empty()).desktop_entry is None && told(Seq::empty()).image_path is None && told(
            Seq::empty(),
        ).image_data is None,
        !told(Seq::empty()).transient && !told(Seq::empty()).close_toast_on_close,
{
    lemma_hint_names();
    assert(hints.push((key, value)).drop_last() =~= hints);
}

/// A notification says what its request says, under the names that the request gives. Without a name the
/// application is unknown, and without a time the usual one counts.
pub proof fn notifications_say_what_was_requested(r: NotifyRequest, id: u32, timestamp: u64)
    ensures
        ({
            let n = requested(r, id, timestamp);
            &&& n.id == id && n.timestamp == timestamp
            &&& r.app_name matches Some(t) ==> (t@.len() > 0 ==> n.app_name == t@)
            &&& (r.app_name is None || r.app_name->0@.len() == 0) ==> n.app_name == "Unknown"@
            &&& r.app_icon matches Some(t) ==> n.app_icon == t@
            &&& r.summary matches Some(t) ==> n.summary == t@
            &&& r.body matches Some(t) ==> n.body == t@
            &&& r.app_icon is None ==> n.app_icon.len() == 0
            &&& r.summary is None ==> n.summary.len() == 0
            &&& r.body is None ==> n.body.len() == 0
            &&& r.expire_timeout matches Some(ms) ==> n.expire_timeout == ms
            &&& r.expire_timeout is None ==> n.expire_timeout == -1
            &&& n.urgency == told(hint_views(r.hints@)).urgency
            &&& n.desktop_entry == told(hint_views(r.hints@)).desktop_entry
            &&& n.image_path == told(hint_views(r.hints@)).image_path
            &&& n.image_data == told(hint_views(r.hints@)).image_data
            &&& n.transient == told(hint_views(r.hints@)).transient
            &&& n.close_toast_on_close == told(hint_views(r.hints@)).close_toast_on_close
            &&& n.actions == paired(optional_views(r.actions@))
        }),
{
}

/// Actions are told as keys and labels in turn; a key at the end without a label is none.
pub proof fn actions_are_keys_and_labels_in_turn(
    texts: Seq<Option<Seq<char>>>,
    key: Seq<char>,
    label: Seq<char>,
)
    ensures
        paired(Seq::empty()).len() == 0,
        paired(seq![Some(key)]).len() == 0,
        ({
            let actions = paired(seq![Some(key), Some(label)] + texts);
            &&& actions.len() == paired(texts).len() + 1
            &&& actions[0].key == key && actions[0].label == label
            &&& actions.skip(1) =~= paired(texts)
        }),
{
    let all = seq![Some(key), Some(label)] + texts;
    let actions = paired(all);
    assert(all.len() / 2 == texts.len() / 2 + 1);
    assert(all[0] == Some(key) && all[1] == Some(label));
    assert forall|i: int| 0 <= i < paired(texts).len() implies actions.skip(1)[i] == paired(texts)[i] by {
        assert(all[2 * (i + 1)] == texts[2 * i]);
        assert(all[2 * (i + 1) + 1] == texts[2 * i + 1]);
    }
}

/// What is saved of a notification is what it says; pictures and how it is shown are not.
pub proof fn saved_notifications_keep_their_words(n: NotificationView)
    ensures
        ({
            let p = saved(n);
            &&& p.id == n.id && p.app_name == n.app_name && p.app_icon == n.app_icon && p.summary == n.summary
            &&& p.body == n.body && p.actions == n.actions && p.urgency == n.urgency && p.timestamp == n.timestamp
            &&& p.expire_timeout == n.expire_timeout && p.desktop_entry == n.desktop_entry && p.image_path == n.image_path
            &&& restored(p).id == n.id && restored(p).summary == n.summary && restored(p).body == n.body
            &&& restored(p).app_name == n.app_name && restored(p).app_icon == n.app_icon && restored(p).actions == n.actions
            &&& restored(p).urgency == n.urgency && restored(p).timestamp == n.timestamp
            &&& restored(p).desktop_entry == n.desktop_entry && restored(p).image_path == n.image_path
            &&& !restored(p).transient && restored(p).image_data is None && !restored(p).close_toast_on_close
        }),
{
}

/// Calls are told apart by their names.
pub proof fn calls_are_told_by_their_names(name: Seq<char>)
    ensures
        named(name) == Method::Notify <==> name == "Notify"@,
        named(name) == Method::CloseNotification <==> name == "CloseNotification"@,
        named(name) == Method::GetCapabilities <==> name == "GetCapabilities"@,
        named(name) == Method::GetServerInformation <==> name == "GetServerInformation"@,
{
    reveal_strlit("Notify");
    reveal_strlit("CloseNotification");
    reveal_strlit("GetCapabilities");
    reveal_strlit("GetServerInformation");
    assert("Notify"@.len() == 6 && "CloseNotification"@.len() == 17 && "GetCapabilities"@.len() == 15
        && "GetServerInformation"@.len() == 20);
}

/// A count is told exactly if one was answered. A failure tells whether a daemon is there at all and whether it
/// knows the question.
pub proof fn unread_counts_are_told_as_answered(reply: UnreadReply)
    ensures
        match unread_told(reply) {
            Ok(count) => reply == UnreadReply::Answered(Some(count)),
            Err(_) => !(reply is Answered && reply->Answered_0 is Some),
        },
        reply matches UnreadReply::Failed { error, message } ==> {
            &&& error == DBusError::ServiceUnknown || error == DBusError::NameHasNoOwner ==> unread_told(reply) == Err::<
                u32,
                Seq<char>,
            >("no notification daemon is running"@)
            &&& error == DBusError::UnknownInterface || error == DBusError::UnknownMethod ==> unread_told(reply) == Err::<
                u32,
                Seq<char>,
            >("the active notification daemon does not support Vibepanel unread queries"@)
        },
{
}

/// Each field of a notification is told as itself.
pub proof fn notifications_are_told_field_by_field(n: Notification)
    ensures
        n@.id == n.id,
        n@.app_name == n.app_name@,
        n@.app_icon == n.app_icon@,
        n@.summary == n.summary@,
        n@.body == n.body@,
        n@.actions == action_views(n.actions@),
        n@.urgency == n.urgency,
        n@.timestamp == n.timestamp,
        n@.expire_timeout == n.expire_timeout,
        n@.desktop_entry == chars_of(n.desktop_entry),
        n@.image_path == chars_of(n.image_path),
        n@.image_data == image_of(n.image_data),
        n@.transient == n.transient,
        n@.close_toast_on_close == n.close_toast_on_close,
{
}

/// Each field that is saved is told as itself.
pub proof fn saved_fields_are_told_as_they_are(n: PersistedNotification)
    ensures
        n@.id == n.id,
        n@.app_name == n.app_name@,
        n@.app_icon == n.app_icon@,
        n@.summary == n.summary@,
        n@.body == n.body@,
        n@.actions == action_views(n.actions@),
        n@.urgency == n.urgency,
        n@.timestamp == n.timestamp,
        n@.expire_timeout == n.expire_timeout,
        n@.desktop_entry == chars_of(n.desktop_entry),
        n@.image_path == chars_of(n.image_path),
{
}

} // verus!
