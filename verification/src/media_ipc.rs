//! What the command line and the panel tell each other about the media player.

use vstd::prelude::*;
use vstd::string::*;
use vstd::utf8::{decode_utf8, valid_utf8};
use crate::network::settings::utf8_text;
use crate::paths::{join_path, joined_path, split, split_on};
use crate::text::{self, chars_of, trim, trim_end, trim_start, views};

verus! {

/// Where messages are sent to: in the runtime directory, if there is one.
pub fn socket_path(runtime_dir: Option<&str>) -> (path: String)
    ensures
        path@ == (match runtime_dir {
            Some(dir) => joined_path(dir@, "vibepanel-media.sock"@),
            None => "/tmp/vibepanel-media.sock"@,
        }),
{
    match runtime_dir {
        Some(dir) => join_path(dir, "vibepanel-media.sock"),
        None => "/tmp/vibepanel-media.sock".to_string(),
    }
}

/// Where the state is written: in the runtime directory, if there is one.
pub fn state_file_path(runtime_dir: Option<&str>) -> (path: String)
    ensures
        path@ == (match runtime_dir {
            Some(dir) => joined_path(dir@, "vibepanel-media-state"@),
            None => "/tmp/vibepanel-media-state"@,
        }),
{
    match runtime_dir {
        Some(dir) => join_path(dir, "vibepanel-media-state"),
        None => "/tmp/vibepanel-media-state".to_string(),
    }
}

/// A message to the panel.
#[derive(Debug, PartialEq)]
pub enum MediaIpcMessage {
    /// Select a player by its name on the bus.
    Select { bus_name: String },
    /// Let the panel select a player.
    Auto,
}

/// What a [`MediaIpcMessage`] holds.
pub enum MessageView {
    Select { bus_name: Seq<char> },
    Auto,
}

impl View for MediaIpcMessage {
    type V = MessageView;

    open spec fn view(&self) -> MessageView {
        match *self {
            MediaIpcMessage::Select { bus_name } => MessageView::Select { bus_name: bus_name@ },
            MediaIpcMessage::Auto => MessageView::Auto,
        }
    }
}

/// What an optional message holds.
pub open spec fn message_of(message: Option<MediaIpcMessage>) -> Option<MessageView> {
    match message {
        Some(m) => Some(m@),
        None => None,
    }
}

/// How a message is written.
pub open spec fn wire(message: MessageView) -> Seq<char> {
    match message {
        MessageView::Select { bus_name } => "select:"@ + bus_name,
        MessageView::Auto => "auto"@,
    }
}

/// The message that a text is.
pub open spec fn unwired(s: Seq<char>) -> Option<MessageView> {
    let t = trim(s);
    if t == "auto"@ {
        Some(MessageView::Auto)
    } else if "select:"@.is_prefix_of(t) {
        Some(MessageView::Select { bus_name: t.skip("select:"@.len() as int) })
    } else {
        None
    }
}

impl MediaIpcMessage {
    /// How the message is written.
    pub fn to_wire(&self) -> (s: String)
        ensures
            s@ == wire(self@),
    {
        match self {
            MediaIpcMessage::Select { bus_name } => text::joined("select:", bus_name.as_str()),
            MediaIpcMessage::Auto => "auto".to_string(),
        }
    }

    /// The message that a text is.
    pub fn from_wire(s: &str) -> (message: Option<Self>)
        ensures
            message_of(message) == unwired(s@),
    {
        let t = text::trimmed(s);
        if text::str_eq(t.as_str(), "auto") {
            return Some(MediaIpcMessage::Auto);
        }
        match text::after_prefix(t.as_str(), "select:") {
            Some(bus_name) => Some(MediaIpcMessage::Select { bus_name }),
            None => None,
        }
    }
}

proof fn lemma_trim_start_stays(s: Seq<char>)
    requires
        s.len() == 0 || !text::white_space(s[0]),
    ensures
        trim_start(s) == s,
{
}

proof fn lemma_trim_end_keeps_front(a: Seq<char>, b: Seq<char>)
    requires
        a.len() > 0,
        !text::white_space(a.last()),
    ensures
        trim_end(a + b) == a + trim_end(b),
    decreases b.len(),
{
    if b.len() > 0 && text::white_space(b.last()) {
        assert((a + b).drop_last() =~= a + b.drop_last());
        assert((a + b).last() == b.last());
        lemma_trim_end_keeps_front(a, b.drop_last());
    } else if b.len() > 0 {
        assert((a + b).last() == b.last());
        assert(trim_end(b) == b);
    } else {
        assert(a + b =~= a);
        assert(trim_end(b) =~= b);
    }
}

/// A message comes back from how it is written. A name that ends in white space would lose it.
pub proof fn messages_round_trip(message: MessageView)
    requires
        message is Select ==> trim_end(message->bus_name) == message->bus_name,
    ensures
        unwired(wire(message)) == Some(message),
{
    reveal_strlit("select:");
    reveal_strlit("auto");
    match message {
        MessageView::Select { bus_name } => {
            let s = "select:"@ + bus_name;
            assert(s[0] == 's');
            lemma_trim_start_stays(s);
            lemma_trim_end_keeps_front("select:"@, bus_name);
            assert(trim(s) == s);
            assert("auto"@[0] == 'a');
            assert(s.skip("select:"@.len() as int) =~= bus_name);
            assert("select:"@.is_prefix_of(s));
        },
        MessageView::Auto => {
            lemma_trim_start_stays("auto"@);
            assert(trim_end("auto"@) == "auto"@);
        },
    }
}

/// The message that a datagram is. Bytes that are no text are none.
pub fn message_from_datagram(bytes: Vec<u8>) -> (message: Option<MediaIpcMessage>)
    ensures
        message_of(message) == if valid_utf8(bytes@) { unwired(decode_utf8(bytes@)) } else { None },
{
    match utf8_text(bytes) {
        Some(s) => {
            proof {
                vstd::utf8::encode_utf8_decode_utf8(s@);
            }
            MediaIpcMessage::from_wire(s.as_str())
        }
        None => None,
    }
}

/// What the panel tells of its player.
#[derive(Debug)]
pub struct MediaState {
    pub bus_name: Option<String>,
    /// Whether the panel selected the player.
    pub is_auto: bool,
}

/// How the state is written: the player, and who selected it.
pub open spec fn state_text(bus_name: Option<Seq<char>>, is_auto: bool) -> Seq<char> {
    (match bus_name {
        Some(name) => name,
        None => Seq::empty(),
    }) + seq!['\n'] + (if is_auto { "auto"@ } else { "manual"@ })
}

/// The lines of a text; one that is empty at the end is none.
pub open spec fn lines(s: Seq<char>) -> Seq<Seq<char>> {
    let pieces = split(s, '\n');
    if pieces.len() > 0 && pieces.last().len() == 0 {
        pieces.drop_last()
    } else {
        pieces
    }
}

/// The player that a text tells.
pub open spec fn told_player(s: Seq<char>) -> Option<Seq<char>> {
    if lines(s).len() > 0 && trim(lines(s)[0]).len() > 0 {
        Some(trim(lines(s)[0]))
    } else {
        None
    }
}

/// Whether a text tells that the panel selected the player.
pub open spec fn told_auto(s: Seq<char>) -> bool {
    lines(s).len() > 1 ==> trim(lines(s)[1]) == "auto"@
}

/// How the state is written.
pub fn write_state(active_bus_name: Option<&str>, is_auto: bool) -> (content: String)
    ensures
        content@ == state_text(
            (match active_bus_name {
                Some(name) => Some(name@),
                None => None,
            }),
            is_auto,
        ),
{
    let name = match active_bus_name {
        Some(n) => n.to_string(),
        None => String::new(),
    };
    proof {
        reveal_strlit("\n");
        assert("\n"@ =~= seq!['\n']);
    }
    let start = text::joined(name.as_str(), "\n");
    if is_auto {
        text::joined(start.as_str(), "auto")
    } else {
        text::joined(start.as_str(), "manual")
    }
}

/// The state that was written. Without a text there is no player, and the panel selects one.
pub fn read_state(content: Option<&str>) -> (state: MediaState)
    ensures
        match content {
            Some(s) => chars_of(state.bus_name) == told_player(s@) && state.is_auto == told_auto(s@),
            None => state.bus_name is None && state.is_auto,
        },
{
    let s = match content {
        Some(c) => c,
        None => {
            return MediaState { bus_name: None, is_auto: true };
        }
    };
    let mut pieces = split_on(s, '\n');
    let ghost all = views(pieces@);
    if pieces.len() > 0 {
        let last = text::to_chars(pieces[pieces.len() - 1].as_str());
        if last.len() == 0 {
            pieces.pop();
            proof {
                assert(views(pieces@) =~= all.drop_last());
            }
        }
    }
    proof {
        assert(views(pieces@) == lines(s@));
    }
    let mut bus_name: Option<String> = None;
    if pieces.len() > 0 {
        assert(lines(s@)[0] == pieces@[0]@);
        let name = text::trimmed(pieces[0].as_str());
        let chars = text::to_chars(name.as_str());
        if chars.len() > 0 {
            bus_name = Some(name);
        }
    }
    let is_auto = if pieces.len() > 1 {
        assert(lines(s@)[1] == pieces@[1]@);
        text::str_eq(text::trimmed(pieces[1].as_str()).as_str(), "auto")
    } else {
        true
    };
    MediaState { bus_name, is_auto }
}

/// The state comes back from how it is written, for names on one line without white space around
/// them; other names would be cut.
pub proof fn states_round_trip(bus_name: Option<Seq<char>>, is_auto: bool)
    requires
        bus_name is Some ==> {
            &&& bus_name->0.len() > 0
            &&& !bus_name->0.contains('\n')
            &&& trim(bus_name->0) == bus_name->0
        },
    ensures
        told_player(state_text(bus_name, is_auto)) == bus_name,
        told_auto(state_text(bus_name, is_auto)) == is_auto,
{
    reveal_strlit("auto");
    reveal_strlit("manual");
    let name = match bus_name {
        Some(n) => n,
        None => Seq::<char>::empty(),
    };
    let mode = if is_auto { "auto"@ } else { "manual"@ };
    assert(!mode.contains('\n'));
    assert(!name.contains('\n'));
    crate::paths::split_behind(name, mode, '\n');
    crate::paths::split_single(name, '\n');
    let s = state_text(bus_name, is_auto);
    assert(s =~= name + seq!['\n'] + mode);
    assert(split(s, '\n') =~= seq![name, mode]);
    assert(lines(s) == split(s, '\n'));
    lemma_trim_start_stays(mode);
    assert(trim(mode) == mode);
    assert("auto"@.len() != "manual"@.len());
    if bus_name is None {
        assert(trim(name).len() == 0);
    }
}

} // verus!
