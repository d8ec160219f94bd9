//! When the window scene is read, and what is asked of the compositor for it.

use vstd::prelude::*;
use vstd::string::*;
use crate::compositor::scenes::{
    hyprland_scene, hyprland_whole, mango_scene, mango_whole, niri_scene, niri_whole, sway_scene, sway_whole, whole_of,
    Scene, Whole,
};
use crate::compositor::visibility::{scenes, OutputScene, SceneView};
use crate::json::{byte_document, parse_bytes, Json, Tree};

verus! {

/// The longest reply that is read, in bytes.
pub const MAX_REPLY: usize = 16_777_216;

/// How long a failed read or an incomplete scene waits for the next read, in nanoseconds.
pub const RETRY_NS: u64 = 1_000_000_000;

/// How long floating windows that tell no moves wait for the next read, and how far reads are
/// apart at least, in nanoseconds.
pub const POLL_NS: u64 = 100_000_000;

/// Where the window scene is read, with the path of the socket.
#[derive(Debug)]
pub enum VisibilityReader {
    Mango(String),
    Niri(String),
    Hyprland(String),
    Sway(String),
}

/// How a reply is read.
#[derive(Clone, Copy, Debug, PartialEq, Eq, Structural)]
pub enum Framing {
    /// Up to the end of the first line.
    Line,
    /// Up to the end of the stream.
    Stream,
    /// As a message of that type.
    Message(u32),
}

/// A request to a compositor.
#[derive(Clone, Copy, Debug)]
pub struct Query {
    pub request: &'static str,
    pub framing: Framing,
}

/// The two queries for a scene.
pub open spec fn queries_of(reader: VisibilityReader) -> (Query, Query) {
    match reader {
        VisibilityReader::Mango(_) => (
            Query { request: "get all-monitors\n", framing: Framing::Line },
            Query { request: "get all-clients\n", framing: Framing::Line },
        ),
        VisibilityReader::Niri(_) => (
            Query { request: "\"Workspaces\"\n", framing: Framing::Line },
            Query { request: "\"Windows\"\n", framing: Framing::Line },
        ),
        VisibilityReader::Hyprland(_) => (
            Query { request: "j/monitors", framing: Framing::Stream },
            Query { request: "j/clients", framing: Framing::Stream },
        ),
        VisibilityReader::Sway(_) => (
            Query { request: "", framing: Framing::Message(1) },
            Query { request: "", framing: Framing::Message(4) },
        ),
    }
}

/// The scene that the replies to the two queries tell.
pub open spec fn read_from(reader: VisibilityReader, first: Tree, second: Tree) -> Option<Whole> {
    match reader {
        VisibilityReader::Mango(_) => mango_whole(first, second),
        VisibilityReader::Niri(_) => niri_whole(
            first.member("Ok"@).member("Workspaces"@),
            second.member("Ok"@).member("Windows"@),
        ),
        VisibilityReader::Hyprland(_) => hyprland_whole(first, second),
        VisibilityReader::Sway(_) => sway_whole(first, second),
    }
}

/// Whether some output has floating windows.
pub open spec fn any_floating(scene: Seq<SceneView>) -> bool {
    exists|i: int| 0 <= i < scene.len() && (#[trigger] scene[i]).windows.floating.len() > 0
}

/// Whether some output is incomplete.
pub open spec fn any_incomplete(scene: Seq<SceneView>) -> bool {
    exists|i: int| 0 <= i < scene.len() && (#[trigger] scene[i]).windows.incomplete
}

/// When to read again without being asked. Niri tells of every move, so its floating windows need
/// no polling.
pub open spec fn fallback(reader: VisibilityReader, scene: Option<Seq<SceneView>>) -> Option<u64> {
    match scene {
        None => Some(RETRY_NS),
        Some(s) => if !(reader is Niri) && any_floating(s) {
            Some(POLL_NS)
        } else if any_incomplete(s) {
            Some(RETRY_NS)
        } else {
            None
        },
    }
}

/// What an optional list of outputs holds.
pub open spec fn scenes_of(scene: Option<Vec<OutputScene>>) -> Option<Seq<SceneView>> {
    match scene {
        Some(s) => Some(scenes(s@)),
        None => None,
    }
}

/// When the next read is due.
#[derive(Clone, Copy, Debug, PartialEq, Eq, Structural)]
pub struct NextRead {
    /// How long to wait for a request, in nanoseconds; forever where there is none.
    pub fallback_ns: Option<u64>,
    /// The instant before which nothing is read, in nanoseconds.
    pub not_before: u64,
}

impl VisibilityReader {
    /// What is asked for a scene.
    pub fn queries(&self) -> (pair: (Query, Query))
        ensures
            pair == queries_of(*self),
    {
        match self {
            VisibilityReader::Mango(_) => (
                Query { request: "get all-monitors\n", framing: Framing::Line },
                Query { request: "get all-clients\n", framing: Framing::Line },
            ),
            VisibilityReader::Niri(_) => (
                Query { request: "\"Workspaces\"\n", framing: Framing::Line },
                Query { request: "\"Windows\"\n", framing: Framing::Line },
            ),
            VisibilityReader::Hyprland(_) => (
                Query { request: "j/monitors", framing: Framing::Stream },
                Query { request: "j/clients", framing: Framing::Stream },
            ),
            VisibilityReader::Sway(_) => (
                Query { request: "", framing: Framing::Message(1) },
                Query { request: "", framing: Framing::Message(4) },
            ),
        }
    }

    /// The scene that the replies to the queries tell.
    pub fn read(&self, first: &Json, second: &Json) -> (scene: Option<Scene>)
        ensures
            whole_of(scene) == read_from(*self, first@, second@),
    {
        match self {
            VisibilityReader::Mango(_) => mango_scene(first, second),
            VisibilityReader::Niri(_) => niri_scene(
                first.member("Ok").member("Workspaces"),
                second.member("Ok").member("Windows"),
            ),
            VisibilityReader::Hyprland(_) => hyprland_scene(first, second),
            VisibilityReader::Sway(_) => sway_scene(first, second),
        }
    }

    /// When to read again without being asked, in nanoseconds.
    pub fn fallback_interval(&self, scene: &Option<Vec<OutputScene>>) -> (interval: Option<u64>)
        ensures
            interval == fallback(*self, scenes_of(*scene)),
    {
        let outputs = match scene {
            Some(s) => s,
            None => {
                return Some(RETRY_NS);
            }
        };
        let ghost all = scenes(outputs@);
        let mut floating = false;
        let mut incomplete = false;
        let mut i: usize = 0;
        while i < outputs.len()
            invariant
                i <= outputs@.len(),
                all == scenes(outputs@),
                floating == exists|j: int| 0 <= j < i && (#[trigger] all[j]).windows.floating.len() > 0,
                incomplete == exists|j: int| 0 <= j < i && (#[trigger] all[j]).windows.incomplete,
            decreases outputs@.len() - i,
        {
            assert(all[i as int] == outputs@[i as int]@);
            let ghost was = (floating, incomplete);
            if outputs[i].windows.floating.len() > 0 {
                floating = true;
            }
            if outputs[i].windows.incomplete {
                incomplete = true;
            }
            proof {
                if was.0 {
                    let j = choose|j: int| 0 <= j < i && (#[trigger] all[j]).windows.floating.len() > 0;
                    assert(0 <= j < i + 1);
                }
                if was.1 {
                    let j = choose|j: int| 0 <= j < i && (#[trigger] all[j]).windows.incomplete;
                    assert(0 <= j < i + 1);
                }
                if floating && !was.0 {
                    assert(all[i as int].windows.floating.len() > 0);
                }
                if incomplete && !was.1 {
                    assert(all[i as int].windows.incomplete);
                }
            }
            i += 1;
        }
        let quiet = match self {
            VisibilityReader::Niri(_) => true,
            _ => false,
        };
        if !quiet && floating {
            Some(POLL_NS)
        } else if incomplete {
            Some(RETRY_NS)
        } else {
            None
        }
    }

    /// When the next read is due after one that ended at `now` with `scene`.
    pub fn after_read(&self, scene: &Option<Vec<OutputScene>>, now: u64) -> (next: NextRead)
        requires
            now + POLL_NS <= u64::MAX,
        ensures
            next.fallback_ns == fallback(*self, scenes_of(*scene)),
            next.not_before == now + POLL_NS,
    {
        NextRead { fallback_ns: self.fallback_interval(scene), not_before: now + POLL_NS }
    }
}

/// Geometry is polled only while floating windows are shown that tell no moves: scenes of tiled
/// windows, and scenes of Niri, are read only when something changed.
pub proof fn polling_needs_floaters(reader: VisibilityReader, scene: Seq<SceneView>)
    ensures
        fallback(reader, Some(scene)) == Some(POLL_NS) <==> !(reader is Niri) && any_floating(scene),
        !any_floating(scene) && !any_incomplete(scene) ==> fallback(reader, Some(scene)) is None,
{
}

/// The document of a reply; none if it is too long.
pub fn reply(response: &Vec<u8>) -> (document: Option<Json>)
    ensures
        match document {
            Some(d) => response@.len() <= MAX_REPLY && byte_document(response@) == Some(d@),
            None => response@.len() > MAX_REPLY || byte_document(response@) is None,
        },
{
    if response.len() > MAX_REPLY {
        return None;
    }
    parse_bytes(response.as_slice())
}

/// The document of a message; none if it answers something else.
pub fn message(kind: u32, reply_type: u32, response: &Vec<u8>) -> (document: Option<Json>)
    ensures
        match document {
            Some(d) => reply_type == kind && byte_document(response@) == Some(d@),
            None => reply_type != kind || byte_document(response@) is None,
        },
{
    if reply_type != kind {
        return None;
    }
    parse_bytes(response.as_slice())
}

/// What the thread that reads the scene is asked to do.
#[derive(Clone, Copy, Debug, PartialEq, Eq, Structural)]
pub struct RefreshState {
    pub pending: bool,
    pub stopped: bool,
}

/// How the thread goes on.
#[derive(Clone, Copy, Debug, PartialEq, Eq, Structural)]
pub enum Pause {
    /// Wait for a request, for the fallback if there is one.
    Idle,
    /// Wait until the next read is allowed.
    Throttled,
    /// Read.
    Read,
    /// End.
    End,
}

impl RefreshState {
    pub fn new() -> (state: Self)
        ensures
            state == (RefreshState { pending: false, stopped: false }),
    {
        RefreshState { pending: false, stopped: false }
    }

    /// Asks for a read.
    pub fn request(&mut self)
        ensures
            *final(self) == (RefreshState { pending: true, ..*old(self) }),
    {
        self.pending = true;
    }

    /// Ends the thread.
    pub fn stop(&mut self)
        ensures
            *final(self) == (RefreshState { stopped: true, ..*old(self) }),
    {
        self.stopped = true;
    }

    /// How the thread goes on at `now`. `due` tells that the fallback has passed, or that a request
    /// was seen while waiting. Bursts of requests are read as one.
    pub fn wait(&mut self, due: bool, now: u64, not_before: u64) -> (pause: Pause)
        ensures
            pause is End <==> old(self).stopped,
            pause is Idle <==> !old(self).stopped && !old(self).pending && !due,
            pause is Throttled <==> !old(self).stopped && (old(self).pending || due) && now < not_before,
            pause is Read <==> !old(self).stopped && (old(self).pending || due) && now >= not_before,
            *final(self) == (RefreshState {
                pending: old(self).pending && !(pause is Read || pause is End),
                ..*old(self)
            }),
    {
        if self.stopped {
            self.pending = false;
            Pause::End
        } else if !self.pending && !due {
            Pause::Idle
        } else if now < not_before {
            Pause::Throttled
        } else {
            self.pending = false;
            Pause::Read
        }
    }
}

/// Asks the thread for a read, if there is one.
pub fn notify_changed(signal: &mut Option<RefreshState>)
    ensures
        *final(signal) == (match *old(signal) {
            Some(state) => Some(RefreshState { pending: true, ..state }),
            None => None,
        }),
{
    match signal {
        Some(state) => state.pending = true,
        None => {}
    }
}

/// Each compositor is read in its own way: Niri wraps its answers, the others give them as they are.
pub proof fn compositors_are_read_in_their_own_way(socket: String, first: Tree, second: Tree)
    ensures
        read_from(VisibilityReader::Mango(socket), first, second) == mango_whole(first, second),
        read_from(VisibilityReader::Hyprland(socket), first, second) == hyprland_whole(first, second),
        read_from(VisibilityReader::Sway(socket), first, second) == sway_whole(first, second),
        read_from(VisibilityReader::Niri(socket), first, second) == niri_whole(
            first.member("Ok"@).member("Workspaces"@),
            second.member("Ok"@).member("Windows"@),
        ),
        queries_of(VisibilityReader::Sway(socket)).0.framing == Framing::Message(1),
        queries_of(VisibilityReader::Sway(socket)).1.framing == Framing::Message(4),
        queries_of(VisibilityReader::Mango(socket)).0.request@ == "get all-monitors\n"@,
        queries_of(VisibilityReader::Mango(socket)).1.request@ == "get all-clients\n"@,
        queries_of(VisibilityReader::Hyprland(socket)).0.request@ == "j/monitors"@,
        queries_of(VisibilityReader::Hyprland(socket)).1.request@ == "j/clients"@,
{
}

/// A scene that could not be read, or is incomplete, is read again after a second. While windows float it is read ten
/// times a second, except from Niri, which tells when they move. Otherwise nothing is read without need.
pub proof fn scenes_are_read_again_while_needed(reader: VisibilityReader, scene: Seq<SceneView>, i: int)
    ensures
        fallback(reader, None) == Some(1_000_000_000u64),
        0 <= i < scene.len() && scene[i].windows.floating.len() > 0 && !(reader is Niri) ==> fallback(reader, Some(scene))
            == Some(100_000_000u64),
        0 <= i < scene.len() && scene[i].windows.incomplete && (forall|k: int|
            0 <= k < scene.len() ==> (#[trigger] scene[k]).windows.floating.len() == 0) ==> fallback(reader, Some(scene))
            == Some(1_000_000_000u64),
        (forall|k: int|
            0 <= k < scene.len() ==> !(#[trigger] scene[k]).windows.incomplete && scene[k].windows.floating.len() == 0)
            ==> fallback(reader, Some(scene)) is None,
        reader is Niri && (forall|k: int| 0 <= k < scene.len() ==> !(#[trigger] scene[k]).windows.incomplete) ==> fallback(
            reader,
            Some(scene),
        ) is None,
{
}

} // verus!
