//! Mango: what the backend asks of the socket, and what it tells its listeners.

use vstd::prelude::*;
use vstd::string::*;
use crate::compositor::mango::{
    self, apply_focused_window_from_monitors, apply_keyboard_layout_from_monitors, apply_monitor_update,
    apply_workspace_from_monitors, info_of, layout_of, listed, mango_workspace_meta, metas, updated, with_focus,
    with_layout, with_monitors, MangoSharedState, MangoView, MonitorChanges,
};
use crate::compositor::mango_windows::{apply_window_list_from_clients, listed_windows};
use crate::compositor::{KeyboardLayoutInfo, WindowInfo, WorkspaceMeta};
use crate::json::{parse_json_line, Json, Tree};
use crate::text::{self, chars_of, digits};

verus! {

/// How long a watch waits before it connects again, in milliseconds.
pub const SOCKET_RECONNECT_MS: u64 = 1000;

/// The backend.
#[derive(Debug)]
pub struct MangoBackend {
    /// The socket, if this session runs under Mango.
    pub socket_path: Option<String>,
    pub shared: MangoSharedState,
    pub running: bool,
    /// Whether somebody listens for the window list.
    pub window_list_callback: bool,
    /// Whether somebody listens for the keyboard layout.
    pub keyboard_layout_callback: bool,
}

/// What starting the backend asks for.
#[derive(Debug)]
pub enum Start {
    /// There is no socket: nothing is started.
    NoSocket,
    AlreadyRunning,
    /// Query the state once, tell the listeners, then watch.
    Run { socket_path: String },
}

/// Which listeners hear of the state when the backend starts.
#[derive(Debug)]
pub struct Announcement {
    pub focused_window: Option<WindowInfo>,
    pub window_list: bool,
    pub keyboard_layout: Option<KeyboardLayoutInfo>,
}

/// The query for the monitors.
pub const GET_MONITORS: &'static str = "get all-monitors";

/// The query for the clients.
pub const GET_CLIENTS: &'static str = "get all-clients";

/// The subscription to the monitors.
pub const WATCH_MONITORS: &'static str = "watch all-monitors";

/// The subscription to the clients.
pub const WATCH_CLIENTS: &'static str = "watch all-clients";

/// The state after the answers to the first queries. Answers that are missing change nothing.
pub open spec fn fetched(s: MangoView, monitors: Option<Tree>, clients: Option<Tree>) -> MangoView {
    let a = match monitors {
        Some(document) => with_layout(with_focus(with_monitors(s, document), document), document),
        None => s,
    };
    match clients {
        Some(document) => MangoView { windows: listed_windows(a, document), ..a },
        None => a,
    }
}

/// What an optional document holds.
pub open spec fn tree_of(document: Option<Json>) -> Option<Tree> {
    match document {
        Some(d) => Some(d@),
        None => None,
    }
}

impl MangoBackend {
    /// A backend for the socket that the session tells; an empty path counts as none.
    pub fn new(socket: Option<String>) -> (backend: Self)
        ensures
            chars_of(backend.socket_path) == (match socket {
                Some(path) => if path@.len() > 0 { Some(path@) } else { None },
                None => None,
            }),
            backend.shared@ == MangoView::initial(),
            !backend.running,
            !backend.window_list_callback,
            !backend.keyboard_layout_callback,
    {
        let socket_path = match socket {
            Some(path) => {
                let chars = text::to_chars(path.as_str());
                if chars.len() > 0 { Some(path) } else { None }
            }
            None => None,
        };
        MangoBackend {
            socket_path,
            shared: MangoSharedState::default(),
            running: false,
            window_list_callback: false,
            keyboard_layout_callback: false,
        }
    }

    /// Starts the backend, once, where there is a socket.
    pub fn start(&mut self) -> (start: Start)
        ensures
            final(self).socket_path == old(self).socket_path,
            final(self).shared == old(self).shared,
            final(self).window_list_callback == old(self).window_list_callback,
            final(self).keyboard_layout_callback == old(self).keyboard_layout_callback,
            final(self).running == (old(self).running || old(self).socket_path is Some),
            start is NoSocket <==> old(self).socket_path is None,
            start is AlreadyRunning <==> old(self).socket_path is Some && old(self).running,
            start is Run ==> start->socket_path@ == old(self).socket_path->0@,
    {
        match &self.socket_path {
            None => Start::NoSocket,
            Some(path) => {
                if self.running {
                    Start::AlreadyRunning
                } else {
                    let socket_path = path.clone();
                    self.running = true;
                    Start::Run { socket_path }
                }
            }
        }
    }

    /// Stops the backend and tells whether it ran.
    pub fn stop(&mut self) -> (ran: bool)
        ensures
            *final(self) == (MangoBackend { running: false, ..*old(self) }),
            ran == old(self).running,
    {
        let ran = self.running;
        self.running = false;
        ran
    }

    pub fn set_window_list_callback(&mut self)
        ensures
            *final(self) == (MangoBackend { window_list_callback: true, ..*old(self) }),
    {
        self.window_list_callback = true;
    }

    pub fn set_keyboard_layout_callback(&mut self)
        ensures
            *final(self) == (MangoBackend { keyboard_layout_callback: true, ..*old(self) }),
    {
        self.keyboard_layout_callback = true;
    }

    /// Takes the answers to [`GET_MONITORS`] and [`GET_CLIENTS`] over.
    pub fn fetch_initial_state(&mut self, monitors: Option<Json>, clients: Option<Json>)
        ensures
            final(self).shared@ == fetched(old(self).shared@, tree_of(monitors), tree_of(clients)),
            final(self).socket_path == old(self).socket_path,
            final(self).running == old(self).running,
            final(self).window_list_callback == old(self).window_list_callback,
            final(self).keyboard_layout_callback == old(self).keyboard_layout_callback,
    {
        match &monitors {
            Some(value) => {
                apply_workspace_from_monitors(&mut self.shared, value);
                apply_focused_window_from_monitors(&mut self.shared, value);
                apply_keyboard_layout_from_monitors(&mut self.shared, value);
            }
            None => {}
        }
        match &clients {
            Some(value) => {
                apply_window_list_from_clients(&mut self.shared, value);
            }
            None => {}
        }
    }

    /// What is told to whom when the backend starts. The workspaces are always told.
    pub fn announcement(&self) -> (told: Announcement)
        ensures
            info_of(told.focused_window) == self.shared@.focused_window,
            told.window_list == self.window_list_callback,
            layout_of(told.keyboard_layout) == if self.keyboard_layout_callback { self.shared@.layout } else { None },
    {
        Announcement {
            focused_window: self.get_focused_window(),
            window_list: self.window_list_callback,
            keyboard_layout: if self.keyboard_layout_callback { self.get_keyboard_layout() } else { None },
        }
    }

    /// The subscriptions: the clients are watched only for a listener of the window list.
    pub fn watches(&self) -> (commands: Vec<&'static str>)
        ensures
            commands@ == if self.window_list_callback {
                seq![WATCH_MONITORS, WATCH_CLIENTS]
            } else {
                seq![WATCH_MONITORS]
            },
    {
        let mut commands: Vec<&'static str> = Vec::new();
        commands.push(WATCH_MONITORS);
        if self.window_list_callback {
            commands.push(WATCH_CLIENTS);
        }
        commands
    }

    /// Takes an update of the monitors over; tells whether the workspaces are to be announced,
    /// and what else is.
    pub fn monitors_changed(&mut self, value: &Json) -> (told: (bool, Announcement))
        ensures
            final(self).shared@ == updated(old(self).shared@, value@),
            final(self).socket_path == old(self).socket_path,
            final(self).running == old(self).running,
            final(self).window_list_callback == old(self).window_list_callback,
            final(self).keyboard_layout_callback == old(self).keyboard_layout_callback,
            told.0 == mango::workspaces_differ(old(self).shared@, final(self).shared@),
            info_of(told.1.focused_window) == if mango::focus_differs(old(self).shared@, final(self).shared@) {
                final(self).shared@.focused_window
            } else {
                None
            },
            told.1.window_list == (old(self).window_list_callback && (told.0 || old(self).shared@.windows
                != final(self).shared@.windows)),
            layout_of(told.1.keyboard_layout) == if old(self).keyboard_layout_callback && old(self).shared@.layout
                != final(self).shared@.layout {
                final(self).shared@.layout
            } else {
                None
            },
    {
        let changes = apply_monitor_update(&mut self.shared, value);
        let told = Announcement {
            focused_window: if changes.focused_window { self.get_focused_window() } else { None },
            window_list: changes.window_list && self.window_list_callback,
            keyboard_layout: if changes.keyboard_layout && self.keyboard_layout_callback {
                self.get_keyboard_layout()
            } else {
                None
            },
        };
        (changes.workspace, told)
    }

    /// The workspaces that can be listed.
    pub fn list_workspaces(&self) -> (workspaces: Vec<WorkspaceMeta>)
        ensures
            metas(workspaces@) == listed(self.shared@.tag_count, self.shared@.snapshot),
    {
        mango_workspace_meta(self.shared.tag_count, &self.shared.snapshot)
    }

    pub fn get_focused_window(&self) -> (info: Option<WindowInfo>)
        ensures
            info_of(info) == self.shared@.focused_window,
    {
        match &self.shared.focused_window {
            Some(info) => Some(info.clone()),
            None => None,
        }
    }

    pub fn get_keyboard_layout(&self) -> (info: Option<KeyboardLayoutInfo>)
        ensures
            layout_of(info) == self.shared@.layout,
    {
        match &self.shared.keyboard_layout {
            Some(info) => Some(
                KeyboardLayoutInfo { layout_name: info.layout_name.clone(), layout_count: info.layout_count },
            ),
            None => None,
        }
    }

    /// The request that shows a workspace. The overview cannot be asked for.
    pub fn switch_workspace(&self, workspace_id: i32) -> (command: Option<String>)
        ensures
            command is Some <==> workspace_id > 0,
            command is Some ==> command->0@ == "dispatch view,"@ + digits(workspace_id as nat),
    {
        if workspace_id > 0 {
            Some(text::joined("dispatch view,", text::decimal(workspace_id as u64).as_str()))
        } else {
            None
        }
    }

    pub fn quit_compositor(&self) -> (command: &'static str)
        ensures
            command@ == "dispatch quit"@,
    {
        "dispatch quit"
    }

    pub fn switch_keyboard_layout_next(&self) -> (command: &'static str)
        ensures
            command@ == "dispatch switch_keyboard_layout"@,
    {
        "dispatch switch_keyboard_layout"
    }

    /// The request that focuses a window.
    pub fn focus_window(&self, window_id: u64) -> (command: String)
        ensures
            command@ == "dispatch focusid client,"@ + digits(window_id as nat),
    {
        text::joined("dispatch focusid client,", text::decimal(window_id).as_str())
    }

    pub fn name(&self) -> (name: &'static str)
        ensures
            name@ == "MangoWC"@,
    {
        "MangoWC"
    }
}

/// The error that an answer to a request tells.
pub fn dispatch_error(answer: &Json) -> (error: Option<String>)
    ensures
        chars_of(error) == answer@.str("error"@),
{
    match answer.get_str("error") {
        Some(text) => Some(text.to_string()),
        None => None,
    }
}

/// What a watch met.
#[derive(Debug)]
pub enum WatchEvent {
    /// A round begins.
    Started,
    ConnectFailed,
    SendFailed,
    Line(String),
    /// Nothing came in time.
    Quiet,
    ReadFailed,
    Closed,
}

/// What a watch does next.
#[derive(Debug)]
pub enum WatchStep {
    Stop,
    /// Connect and subscribe.
    Connect,
    /// Take a document over, then read on.
    Handle(Json),
    Read,
    /// Wait [`SOCKET_RECONNECT_MS`], then begin a new round.
    Retry,
}

/// What a watch does next. A watch that is stopped ends at the next line or pause, and lines that
/// are no document are passed over.
pub fn watch_step(running: bool, event: &WatchEvent) -> (step: WatchStep)
    ensures
        step is Stop <==> !running && !(event is ConnectFailed || event is SendFailed),
        step is Connect <==> running && event is Started,
        step is Retry <==> event is ConnectFailed || event is SendFailed || running && (event is ReadFailed
            || event is Closed),
        step is Handle <==> running && event is Line && text::trim(event->Line_0@).len() > 0 && crate::json::document(
            text::trim(event->Line_0@),
        ) is Some,
        step is Handle ==> Some(step->Handle_0@) == crate::json::document(text::trim(event->Line_0@)),
{
    match event {
        WatchEvent::ConnectFailed => WatchStep::Retry,
        WatchEvent::SendFailed => WatchStep::Retry,
        WatchEvent::Started => if running { WatchStep::Connect } else { WatchStep::Stop },
        WatchEvent::Line(line) => {
            if !running {
                return WatchStep::Stop;
            }
            match parse_json_line(line.as_str()) {
                Some(value) => WatchStep::Handle(value),
                None => WatchStep::Read,
            }
        }
        WatchEvent::Quiet => if running { WatchStep::Read } else { WatchStep::Stop },
        WatchEvent::ReadFailed => if running { WatchStep::Retry } else { WatchStep::Stop },
        WatchEvent::Closed => if running { WatchStep::Retry } else { WatchStep::Stop },
    }
}

/// What is fetched at the start is what the documents tell: workspaces, focus and layout from the one, windows from the
/// other, which goes by the focus of the first.
pub proof fn fetched_states_hold_what_was_told(s: MangoView, monitors: Tree, clients: Tree)
    ensures
        ({
            let both = fetched(s, Some(monitors), Some(clients));
            &&& both.snapshot == with_monitors(s, monitors).snapshot && both.tag_count == with_monitors(s, monitors).tag_count
            &&& both.geometry == with_monitors(s, monitors).geometry
            &&& both.focused_window == with_focus(s, monitors).focused_window
            &&& both.focused_client_id == with_focus(s, monitors).focused_client_id
            &&& both.layout == with_layout(s, monitors).layout
            &&& both.windows == listed_windows(fetched(s, Some(monitors), None), clients)
        }),
        fetched(s, None, None) == s,
        fetched(s, None, Some(clients)) == (MangoView { windows: listed_windows(s, clients), ..s }),
        fetched(s, Some(monitors), None).windows == s.windows,
{
}

} // verus!
