//! Media players: which one is followed, and what is known of it.

use vstd::prelude::*;
use vstd::string::*;
use crate::order::{self, ranked, Order, Ranked};
use crate::table::Table;
use crate::text::{
    self, chars_before, chars_of, digits, has_run, lowercase, trim, two_digits, views,
};

verus! {

/// What the names of players on the bus begin with.
pub const MPRIS_PREFIX: &'static str = "org.mpris.MediaPlayer2.";

/// How often the position is asked for while something plays, in milliseconds.
pub const POSITION_POLL_INTERVAL_MS: u64 = 1000;

/// The bit pattern of the double 1.
pub const FULL_VOLUME: u64 = 0x3ff0_0000_0000_0000;

/// What a player does.
#[derive(Clone, Copy, Debug, PartialEq, Eq, Structural)]
pub enum PlaybackStatus {
    Playing,
    Paused,
    Stopped,
}

/// The status that a text tells; unknown ones count as stopped.
pub open spec fn status_of(s: Seq<char>) -> PlaybackStatus {
    if s == "Playing"@ {
        PlaybackStatus::Playing
    } else if s == "Paused"@ {
        PlaybackStatus::Paused
    } else {
        PlaybackStatus::Stopped
    }
}

impl PlaybackStatus {
    /// The status that a text tells; unknown ones count as stopped.
    pub fn parse(s: &str) -> (status: PlaybackStatus)
        ensures
            status == status_of(s@),
    {
        if text::str_eq(s, "Playing") {
            PlaybackStatus::Playing
        } else if text::str_eq(s, "Paused") {
            PlaybackStatus::Paused
        } else {
            PlaybackStatus::Stopped
        }
    }
}

impl std::str::FromStr for PlaybackStatus {
    type Err = std::convert::Infallible;

    fn from_str(s: &str) -> (status: Result<PlaybackStatus, std::convert::Infallible>)
        ensures
            status == Ok::<PlaybackStatus, std::convert::Infallible>(status_of(s@)),
    {
        Ok(PlaybackStatus::parse(s))
    }
}

/// What is known of a track.
#[derive(Debug)]
pub struct MediaMetadata {
    pub title: Option<String>,
    pub artist: Option<String>,
    pub album: Option<String>,
    pub art_url: Option<String>,
    pub url: Option<String>,
    /// In microseconds.
    pub length: Option<i64>,
    pub track_id: Option<String>,
}

/// What a [`MediaMetadata`] holds.
pub struct MetadataView {
    pub title: Option<Seq<char>>,
    pub artist: Option<Seq<char>>,
    pub album: Option<Seq<char>>,
    pub art_url: Option<Seq<char>>,
    pub url: Option<Seq<char>>,
    pub length: Option<i64>,
    pub track_id: Option<Seq<char>>,
}

impl MetadataView {
    pub open spec fn empty() -> MetadataView {
        MetadataView {
            title: None,
            artist: None,
            album: None,
            art_url: None,
            url: None,
            length: None,
            track_id: None,
        }
    }
}

impl View for MediaMetadata {
    type V = MetadataView;

    open spec fn view(&self) -> MetadataView {
        MetadataView {
            title: chars_of(self.title),
            artist: chars_of(self.artist),
            album: chars_of(self.album),
            art_url: chars_of(self.art_url),
            url: chars_of(self.url),
            length: self.length,
            track_id: chars_of(self.track_id),
        }
    }
}

impl Default for MediaMetadata {
    fn default() -> (metadata: Self)
        ensures
            metadata@ == MetadataView::empty(),
    {
        MediaMetadata {
            title: None,
            artist: None,
            album: None,
            art_url: None,
            url: None,
            length: None,
            track_id: None,
        }
    }
}

/// What is known of the players. The volume is the bit pattern of a double.
#[derive(Debug)]
pub struct MediaSnapshot {
    pub available: bool,
    pub player_name: Option<String>,
    pub player_id: Option<String>,
    pub player_bus_name: Option<String>,
    pub playback_status: PlaybackStatus,
    pub metadata: MediaMetadata,
    /// In microseconds.
    pub position: i64,
    pub volume: u64,
    pub can_play: bool,
    pub can_pause: bool,
    pub can_go_next: bool,
    pub can_go_previous: bool,
    pub can_seek: bool,
    pub can_control: bool,
    pub available_players: Vec<String>,
}

/// What a [`MediaSnapshot`] holds.
pub struct SnapshotView {
    pub available: bool,
    pub player_name: Option<Seq<char>>,
    pub player_id: Option<Seq<char>>,
    pub player_bus_name: Option<Seq<char>>,
    pub playback_status: PlaybackStatus,
    pub metadata: MetadataView,
    pub position: i64,
    pub volume: u64,
    pub can_play: bool,
    pub can_pause: bool,
    pub can_go_next: bool,
    pub can_go_previous: bool,
    pub can_seek: bool,
    pub can_control: bool,
    pub available_players: Seq<Seq<char>>,
}

impl SnapshotView {
    /// No player.
    pub open spec fn empty() -> SnapshotView {
        SnapshotView {
            available: false,
            player_name: None,
            player_id: None,
            player_bus_name: None,
            playback_status: PlaybackStatus::Stopped,
            metadata: MetadataView::empty(),
            position: 0,
            volume: FULL_VOLUME,
            can_play: false,
            can_pause: false,
            can_go_next: false,
            can_go_previous: false,
            can_seek: false,
            can_control: false,
            available_players: Seq::empty(),
        }
    }
}

impl View for MediaSnapshot {
    type V = SnapshotView;

    open spec fn view(&self) -> SnapshotView {
        SnapshotView {
            available: self.available,
            player_name: chars_of(self.player_name),
            player_id: chars_of(self.player_id),
            player_bus_name: chars_of(self.player_bus_name),
            playback_status: self.playback_status,
            metadata: self.metadata@,
            position: self.position,
            volume: self.volume,
            can_play: self.can_play,
            can_pause: self.can_pause,
            can_go_next: self.can_go_next,
            can_go_previous: self.can_go_previous,
            can_seek: self.can_seek,
            can_control: self.can_control,
            available_players: views(self.available_players@),
        }
    }
}

impl Default for MediaSnapshot {
    fn default() -> (snapshot: Self)
        ensures
            snapshot@ == SnapshotView::empty(),
    {
        let snapshot = MediaSnapshot {
            available: false,
            player_name: None,
            player_id: None,
            player_bus_name: None,
            playback_status: PlaybackStatus::Stopped,
            metadata: MediaMetadata::default(),
            position: 0,
            volume: FULL_VOLUME,
            can_play: false,
            can_pause: false,
            can_go_next: false,
            can_go_previous: false,
            can_seek: false,
            can_control: false,
            available_players: Vec::new(),
        };
        proof {
            assert(snapshot@.available_players =~= Seq::empty());
        }
        snapshot
    }
}

impl MediaSnapshot {
    /// No player.
    pub fn empty() -> (snapshot: Self)
        ensures
            snapshot@ == SnapshotView::empty(),
    {
        MediaSnapshot::default()
    }

    /// Whether there is a player that tells a title.
    pub fn has_track(&self) -> (yes: bool)
        ensures
            yes == (self@.available && self@.metadata.title is Some),
    {
        self.available && self.metadata.title.is_some()
    }
}

/// Whether the followed player tells a title that is not blank.
pub open spec fn has_title(s: SnapshotView) -> bool {
    s.metadata.title is Some && trim(s.metadata.title->0).len() > 0
}

/// How well a player suits: the followed one most, the more so with a title, and music players
/// better than browsers. `lowered` is its name in lower case.
pub open spec fn score(current: bool, titled: bool, lowered: Seq<char>) -> int {
    (if current { 5int } else { 0 }) + (if current && titled { 200int } else { 0 }) + (if has_run(lowered, "spotify"@) {
        20int
    } else {
        0
    }) + (if has_run(lowered, "firefox"@) { 10int } else { 0 }) - (if has_run(lowered, "chromium"@) { 5int } else { 0 })
}

/// How well a player suits.
pub fn score_of(current: bool, titled: bool, lowered: &str) -> (n: i32)
    ensures
        n == score(current, titled, lowered@),
{
    let mut n: i32 = 0;
    if current {
        n += 5;
        if titled {
            n += 200;
        }
    }
    if text::contains_run(lowered, "spotify") {
        n += 20;
    }
    if text::contains_run(lowered, "firefox") {
        n += 10;
    }
    if text::contains_run(lowered, "chromium") {
        n -= 5;
    }
    n
}

/// A player and how well it suits.
pub struct Candidate {
    pub score: int,
    pub name: Seq<char>,
}

/// A player that may be followed.
pub open spec fn candidate(s: SnapshotView, name: Seq<char>) -> Candidate {
    Candidate { score: score(s.player_bus_name == Some(name), has_title(s), lowercase(name)), name }
}

impl Order for Candidate {
    /// The better suited first, then by name.
    open spec fn before(self, other: Self) -> bool {
        if self.score != other.score {
            self.score > other.score
        } else {
            chars_before(self.name, other.name)
        }
    }

    proof fn before_is_asymmetric(a: Self, b: Self) {
        text::chars_before_is_asymmetric(a.name, b.name);
    }

    proof fn before_is_weak(a: Self, b: Self, c: Self) {
        text::chars_before_is_weak(a.name, b.name, c.name);
    }
}

/// A player and how well it suits.
struct ScoredPlayer {
    score: i32,
    name: String,
}

impl View for ScoredPlayer {
    type V = Candidate;

    closed spec fn view(&self) -> Candidate {
        Candidate { score: self.score as int, name: self.name@ }
    }
}

impl Order for ScoredPlayer {
    closed spec fn before(self, other: Self) -> bool {
        self@.before(other@)
    }

    proof fn before_is_asymmetric(a: Self, b: Self) {
        Candidate::before_is_asymmetric(a@, b@);
    }

    proof fn before_is_weak(a: Self, b: Self, c: Self) {
        Candidate::before_is_weak(a@, b@, c@);
    }
}

impl Ranked for ScoredPlayer {
    fn is_before(&self, other: &Self) -> (yes: bool) {
        if self.score != other.score {
            self.score > other.score
        } else {
            text::str_before(self.name.as_str(), other.name.as_str())
        }
    }
}

/// The players that may be followed.
pub open spec fn candidates(s: SnapshotView, players: Seq<Seq<char>>) -> Seq<Candidate> {
    players.map_values(|name: Seq<char>| candidate(s, name))
}

/// The player that suits best.
pub open spec fn best(s: SnapshotView, players: Seq<Seq<char>>) -> Option<Seq<char>> {
    if players.len() > 0 {
        Some(ranked(candidates(s, players))[0].name)
    } else {
        None
    }
}

proof fn lemma_ranked_len<T: Order>(s: Seq<T>)
    ensures
        ranked(s).len() == s.len(),
{
    order::ranked_is_stable_sort(s);
    s.to_multiset_ensures();
    ranked(s).to_multiset_ensures();
}

fn is_title_told(snapshot: &MediaSnapshot) -> (yes: bool)
    ensures
        yes == has_title(snapshot@),
{
    match &snapshot.metadata.title {
        Some(title) => {
            let chars = text::to_chars(text::trimmed(title.as_str()).as_str());
            chars.len() > 0
        }
        None => false,
    }
}

/// The player that suits best. The choice is not the first on the bus: browsers and calls offer
/// players without anything to show.
pub fn pick_best_player(snapshot: &MediaSnapshot, players: &Vec<String>) -> (player: Option<String>)
    ensures
        chars_of(player) == best(snapshot@, views(players@)),
{
    let titled = is_title_told(snapshot);
    let ghost names = views(players@);
    let ghost wanted = candidates(snapshot@, names);
    let mut list: Vec<ScoredPlayer> = Vec::new();
    let mut i: usize = 0;
    while i < players.len()
        invariant
            i <= players@.len(),
            names == views(players@),
            wanted == candidates(snapshot@, names),
            titled == has_title(snapshot@),
            list@.len() == i,
            forall|j: int| 0 <= j < i ==> (#[trigger] list@[j])@ == wanted[j],
        decreases players@.len() - i,
    {
        let name = players[i].clone();
        let current = match &snapshot.player_bus_name {
            Some(followed) => *followed == name,
            None => false,
        };
        let lowered = text::to_lowercase(name.as_str());
        let score: i32 = score_of(current, titled, lowered.as_str());
        proof {
            assert(names[i as int] == name@);
        }
        list.push(ScoredPlayer { score, name });
        i += 1;
    }
    let ghost input = list@;
    let ghost f = |p: ScoredPlayer| p@;
    let mut sorted = order::stable_sort(list);
    proof {
        order::ranked_commutes_with_map(input, f);
        assert(input.map_values(f) =~= wanted);
        lemma_ranked_len(input);
        lemma_ranked_len(wanted);
    }
    if sorted.len() == 0 {
        return None;
    }
    proof {
        assert(ranked(wanted)[0] == sorted@[0]@);
    }
    let first = sorted.remove(0);
    Some(first.name)
}

/// The followed player stays the best while it is there and tells a title.
pub proof fn titled_player_is_kept(s: SnapshotView, players: Seq<Seq<char>>)
    requires
        has_title(s),
        s.player_bus_name is Some,
        players.contains(s.player_bus_name->0),
    ensures
        best(s, players) == s.player_bus_name,
{
    let all = candidates(s, players);
    let sorted = ranked(all);
    let current = candidate(s, s.player_bus_name->0);
    lemma_ranked_len(all);
    order::ranked_is_stable_sort(all);
    let k = choose|k: int| 0 <= k < players.len() && players[k] == s.player_bus_name->0;
    assert(all[k] == current);
    order::ranked_holds_the_same(all, current);
    assert(sorted.contains(current));
    let p = choose|p: int| 0 <= p < sorted.len() && sorted[p] == current;
    let first = sorted[0];
    order::ranked_holds_the_same(all, first);
    assert(sorted.contains(first));
    let q = choose|q: int| 0 <= q < all.len() && all[q] == first;
    assert(first == candidate(s, players[q]));
    if first.name != current.name {
        assert(current.score >= 200);
        assert(first.score <= 30);
        assert(p > 0);
        assert(!sorted[p].before(sorted[0]));
    }
}

/// The texts of a list that begin with a prefix.
pub open spec fn with_prefix(names: Seq<Seq<char>>, prefix: Seq<char>) -> Seq<Seq<char>>
    decreases names.len(),
{
    if names.len() == 0 {
        Seq::empty()
    } else {
        let before = with_prefix(names.drop_last(), prefix);
        if prefix.is_prefix_of(names.last()) {
            before.push(names.last())
        } else {
            before
        }
    }
}

/// What follows a look at the players on the bus.
#[derive(Debug)]
pub enum Discovery {
    /// Follow another player.
    Select(String),
    /// There is none.
    Clear,
    /// The followed player is still there.
    Keep,
}

/// Whether a change of a name on the bus concerns a player.
pub fn is_player_name(name: &str) -> (yes: bool)
    ensures
        yes == MPRIS_PREFIX@.is_prefix_of(name@),
{
    text::has_prefix(name, MPRIS_PREFIX)
}

fn players_among(names: &Vec<String>) -> (players: Vec<String>)
    ensures
        views(players@) == with_prefix(views(names@), MPRIS_PREFIX@),
{
    let ghost all = views(names@);
    let mut players: Vec<String> = Vec::new();
    let mut i: usize = 0;
    proof {
        assert(all.take(0) =~= Seq::empty());
        assert(views(players@) =~= Seq::empty());
    }
    while i < names.len()
        invariant
            i <= names@.len(),
            all == views(names@),
            views(players@) == with_prefix(all.take(i as int), MPRIS_PREFIX@),
        decreases names@.len() - i,
    {
        let ghost before = views(players@);
        proof {
            assert(all.take(i + 1).drop_last() =~= all.take(i as int));
            assert(all.take(i + 1).last() == names@[i as int]@);
        }
        if is_player_name(names[i].as_str()) {
            players.push(names[i].clone());
            proof {
                assert(views(players@) =~= before.push(names@[i as int]@));
            }
        }
        i += 1;
    }
    proof {
        assert(all.take(i as int) =~= all);
    }
    players
}

impl MediaSnapshot {
    /// Takes the names on the bus over. A new player is selected where none is followed or the
    /// followed one is gone.
    pub fn discover_players(&mut self, names: &Vec<String>) -> (discovery: Discovery)
        ensures
            ({
                let players = with_prefix(views(names@), MPRIS_PREFIX@);
                let s = old(self)@;
                &&& final(self)@ == (SnapshotView { available_players: players, ..s })
                &&& discovery is Keep <==> s.player_bus_name is Some && players.contains(s.player_bus_name->0)
                &&& discovery is Clear <==> !(discovery is Keep) && players.len() == 0
                &&& discovery is Select ==> best(s, players) == Some(discovery->Select_0@)
            }),
    {
        let players = players_among(names);
        let ghost all = views(players@);
        let kept = match &self.player_bus_name {
            Some(followed) => text::list_contains(&players, followed.as_str()),
            None => false,
        };
        let choice = pick_best_player(self, &players);
        self.available_players = players;
        if kept {
            proof {
                assert(all.len() > 0);
            }
            return Discovery::Keep;
        }
        match choice {
            Some(player) => Discovery::Select(player),
            None => Discovery::Clear,
        }
    }

    /// Whether to follow another player on request: it must be there, and not be followed already.
    pub fn switch_player(&self, bus_name: &str) -> (select: bool)
        ensures
            select == (self@.player_bus_name != Some(bus_name@) && self@.available_players.contains(bus_name@)),
    {
        let followed = match &self.player_bus_name {
            Some(name) => text::str_eq(name.as_str(), bus_name),
            None => false,
        };
        !followed && text::list_contains(&self.available_players, bus_name)
    }
}

/// The short name of a player: the first part of its name on the bus behind the prefix.
pub open spec fn short_name(bus_name: Seq<char>) -> Option<Seq<char>> {
    if MPRIS_PREFIX@.is_prefix_of(bus_name) {
        Some(crate::config::css::up_to(bus_name.skip(MPRIS_PREFIX@.len() as int), '.', '.'))
    } else {
        None
    }
}

/// A text whose first character is replaced by its capital form `upper`.
pub open spec fn capitalized(s: Seq<char>, upper: Seq<char>) -> Seq<char> {
    if s.len() > 0 {
        upper + s.skip(1)
    } else {
        s
    }
}

/// The name of a player to show.
pub open spec fn shown_name(bus_name: Seq<char>) -> Seq<char> {
    match short_name(bus_name) {
        Some(id) => if id.len() > 0 { capitalized(id, text::uppercase(id[0])) } else { id },
        None => bus_name,
    }
}

/// A text whose first character is replaced by its capital form `upper`.
pub fn capitalize(s: &str, upper: &str) -> (c: String)
    ensures
        c@ == capitalized(s@, upper@),
{
    let chars = text::to_chars(s);
    if chars.len() == 0 {
        return s.to_string();
    }
    let rest = text::slice(&chars, 1, chars.len());
    proof {
        assert(rest@ =~= s@.skip(1));
    }
    text::joined(upper, rest.as_str())
}

fn read_short_name(bus_name: &str) -> (id: Option<String>)
    ensures
        chars_of(id) == short_name(bus_name@),
{
    match text::after_prefix(bus_name, MPRIS_PREFIX) {
        Some(rest) => {
            let chars = text::to_chars(rest.as_str());
            proof {
                assert(chars@.skip(0) =~= chars@);
            }
            Some(crate::config::css::head_up_to(&chars, 0, '.', '.'))
        }
        None => None,
    }
}

/// What a player tells of itself; what it does not tell is missing.
#[derive(Debug)]
pub struct PlayerProperties {
    pub status: Option<String>,
    pub metadata: Option<MediaMetadata>,
    pub volume: Option<u64>,
    pub position: Option<i64>,
    pub can_play: Option<bool>,
    pub can_pause: Option<bool>,
    pub can_go_next: Option<bool>,
    pub can_go_previous: Option<bool>,
    pub can_seek: Option<bool>,
    pub can_control: Option<bool>,
}

/// A flag, or what it counts as where it is missing.
pub open spec fn flag_or(flag: Option<bool>, missing: bool) -> bool {
    match flag {
        Some(b) => b,
        None => missing,
    }
}

fn read_flag(flag: Option<bool>, missing: bool) -> (b: bool)
    ensures
        b == flag_or(flag, missing),
{
    match flag {
        Some(b) => b,
        None => missing,
    }
}

/// The state after a player told of itself. What it can do is what it tells; being controlled at all
/// counts as possible where nothing is told.
pub open spec fn with_properties(s: SnapshotView, p: PlayerProperties) -> SnapshotView {
    SnapshotView {
        playback_status: match chars_of(p.status) {
            Some(t) => status_of(t),
            None => s.playback_status,
        },
        metadata: match p.metadata {
            Some(m) => m@,
            None => s.metadata,
        },
        volume: match p.volume {
            Some(v) => v,
            None => s.volume,
        },
        position: match p.position {
            Some(n) => n,
            None => s.position,
        },
        can_play: flag_or(p.can_play, false),
        can_pause: flag_or(p.can_pause, false),
        can_go_next: flag_or(p.can_go_next, false),
        can_go_previous: flag_or(p.can_go_previous, false),
        can_seek: flag_or(p.can_seek, false),
        can_control: flag_or(p.can_control, true),
        ..s
    }
}

/// What becomes of asking for the position.
#[derive(Clone, Copy, Debug, PartialEq, Eq, Structural)]
pub enum Polling {
    Start,
    Stop,
    Unchanged,
}

/// The state after a player was selected.
pub open spec fn with_player(s: SnapshotView, bus_name: Seq<char>) -> SnapshotView {
    SnapshotView {
        available: true,
        player_name: Some(shown_name(bus_name)),
        player_id: short_name(bus_name),
        player_bus_name: Some(bus_name),
        ..s
    }
}

/// The state without a player: only the players on the bus are still known.
pub open spec fn cleared(s: SnapshotView) -> SnapshotView {
    SnapshotView { available_players: s.available_players, ..SnapshotView::empty() }
}

impl MediaSnapshot {
    /// Takes a player over that was connected to.
    pub fn player_connected(&mut self, bus_name: &str)
        ensures
            final(self)@ == with_player(old(self)@, bus_name@),
    {
        let player_id = read_short_name(bus_name);
        let player_name = match &player_id {
            Some(id) => {
                let chars = text::to_chars(id.as_str());
                if chars.len() > 0 {
                    let upper = text::char_to_uppercase(chars[0]);
                    capitalize(id.as_str(), upper.as_str())
                } else {
                    id.clone()
                }
            }
            None => bus_name.to_string(),
        };
        self.available = true;
        self.player_name = Some(player_name);
        self.player_id = player_id;
        self.player_bus_name = Some(bus_name.to_string());
    }

    /// Follows no player.
    pub fn clear_player(&mut self)
        ensures
            final(self)@ == cleared(old(self)@),
    {
        let mut players: Vec<String> = Vec::new();
        std::mem::swap(&mut players, &mut self.available_players);
        let mut fresh = MediaSnapshot::empty();
        fresh.available_players = players;
        *self = fresh;
    }

    /// Takes over what the player tells of itself. The position is asked for while something plays.
    pub fn update_from_proxy(&mut self, properties: PlayerProperties) -> (polling: Polling)
        ensures
            final(self)@ == with_properties(old(self)@, properties),
            polling == if final(self)@.playback_status == old(self)@.playback_status {
                Polling::Unchanged
            } else if final(self)@.playback_status == PlaybackStatus::Playing {
                Polling::Start
            } else {
                Polling::Stop
            },
    {
        let before = self.playback_status;
        let mut known = MediaSnapshot::empty();
        std::mem::swap(self, &mut known);
        let playback_status = match &properties.status {
            Some(s) => PlaybackStatus::parse(s.as_str()),
            None => before,
        };
        let metadata = match properties.metadata {
            Some(m) => m,
            None => known.metadata,
        };
        let volume: u64 = match properties.volume {
            Some(v) => v,
            None => known.volume,
        };
        let position: i64 = match properties.position {
            Some(p) => p,
            None => known.position,
        };
        *self = MediaSnapshot {
            available: known.available,
            player_name: known.player_name,
            player_id: known.player_id,
            player_bus_name: known.player_bus_name,
            playback_status,
            metadata,
            position,
            volume,
            can_play: read_flag(properties.can_play, false),
            can_pause: read_flag(properties.can_pause, false),
            can_go_next: read_flag(properties.can_go_next, false),
            can_go_previous: read_flag(properties.can_go_previous, false),
            can_seek: read_flag(properties.can_seek, false),
            can_control: read_flag(properties.can_control, true),
            available_players: known.available_players,
        };
        if playback_status == before {
            Polling::Unchanged
        } else if playback_status == PlaybackStatus::Playing {
            Polling::Start
        } else {
            Polling::Stop
        }
    }

    /// Whether the position is asked for again.
    pub fn polls_position(&self) -> (yes: bool)
        ensures
            yes == (self@.playback_status == PlaybackStatus::Playing),
    {
        self.playback_status == PlaybackStatus::Playing
    }

    /// Takes the position over and tells whether it changed.
    pub fn poll_position(&mut self, position: i64) -> (changed: bool)
        ensures
            changed == (old(self)@.position != position),
            final(self)@ == (SnapshotView { position, ..old(self)@ }),
    {
        let changed = self.position != position;
        self.position = position;
        changed
    }

    /// Takes a volume over before the player confirms it, and returns the one before. Volumes below
    /// zero and those that are no finite number are not taken.
    pub fn set_volume(&mut self, volume: u64) -> (previous: Option<u64>)
        ensures
            previous is Some <==> valid_volume(volume),
            previous is Some ==> previous->0 == old(self)@.volume,
            final(self)@ == if valid_volume(volume) { (SnapshotView { volume, ..old(self)@ }) } else { old(self)@ },
    {
        if !(volume < 0x7ff0_0000_0000_0000 || volume == 0x8000_0000_0000_0000) {
            return None;
        }
        let previous: u64 = self.volume;
        self.volume = volume;
        Some(previous)
    }

    /// Takes a volume back that the player refused.
    pub fn revert_volume(&mut self, previous: u64)
        ensures
            final(self)@ == (SnapshotView { volume: previous, ..old(self)@ }),
    {
        self.volume = previous;
    }

    /// The track whose position is set; without one nothing is.
    pub fn position_target(&self) -> (track: Option<String>)
        ensures
            chars_of(track) == self@.metadata.track_id,
    {
        self.metadata.track_id.clone()
    }
}

/// Whether a bit pattern is that of a finite double that is not below zero.
pub open spec fn valid_volume(bits: u64) -> bool {
    bits < 0x7ff0_0000_0000_0000 || bits == 0x8000_0000_0000_0000
}

/// A volume that is refused leaves the one before.
pub proof fn refused_volume_is_undone(s: SnapshotView, volume: u64)
    ensures
        (SnapshotView { volume: s.volume, ..(SnapshotView { volume, ..s }) }) == s,
{
}

/// A value of what is known of a track.
#[derive(Debug)]
pub enum MetaValue {
    Text(String),
    Texts(Vec<String>),
    Number(i64),
    /// The path of an object.
    Path(String),
    Other,
}

/// The text that a value is.
pub open spec fn text_value(value: MetaValue) -> Option<Seq<char>> {
    match value {
        MetaValue::Text(t) => Some(t@),
        _ => None,
    }
}

/// The text under a key.
pub open spec fn text_under(dict: Map<Seq<char>, MetaValue>, key: Seq<char>) -> Option<Seq<char>> {
    if dict.dom().contains(key) {
        text_value(dict[key])
    } else {
        None
    }
}

/// What is known of a track. Several artists are listed with commas.
pub open spec fn metadata_of(dict: Map<Seq<char>, MetaValue>) -> MetadataView {
    MetadataView {
        title: text_under(dict, "xesam:title"@),
        artist: if dict.dom().contains("xesam:artist"@) {
            match dict["xesam:artist"@] {
                MetaValue::Texts(list) => Some(text::separated(views(list@), ", "@)),
                MetaValue::Text(t) => Some(t@),
                _ => None,
            }
        } else {
            None
        },
        album: text_under(dict, "xesam:album"@),
        art_url: text_under(dict, "mpris:artUrl"@),
        url: text_under(dict, "xesam:url"@),
        length: if dict.dom().contains("mpris:length"@) {
            match dict["mpris:length"@] {
                MetaValue::Number(n) => Some(n),
                _ => None,
            }
        } else {
            None
        },
        track_id: if dict.dom().contains("mpris:trackid"@) {
            match dict["mpris:trackid"@] {
                MetaValue::Text(t) => Some(t@),
                MetaValue::Path(t) => Some(t@),
                _ => None,
            }
        } else {
            None
        },
    }
}

fn read_text_under(dict: &Table<String, MetaValue>, key: &str) -> (t: Option<String>)
    ensures
        chars_of(t) == text_under(dict@, key@),
{
    match dict.get_named(key) {
        Some(MetaValue::Text(t)) => Some(t.clone()),
        _ => None,
    }
}

/// What is known of a track.
pub fn parse_metadata(dict: &Table<String, MetaValue>) -> (metadata: MediaMetadata)
    ensures
        metadata@ == metadata_of(dict@),
{
    let artist = match dict.get_named("xesam:artist") {
        Some(MetaValue::Texts(list)) => Some(text::join_texts(list, ", ")),
        Some(MetaValue::Text(t)) => Some(t.clone()),
        _ => None,
    };
    let length = match dict.get_named("mpris:length") {
        Some(MetaValue::Number(n)) => Some(*n),
        _ => None,
    };
    let track_id = match dict.get_named("mpris:trackid") {
        Some(MetaValue::Text(t)) => Some(t.clone()),
        Some(MetaValue::Path(t)) => Some(t.clone()),
        _ => None,
    };
    MediaMetadata {
        title: read_text_under(dict, "xesam:title"),
        artist,
        album: read_text_under(dict, "xesam:album"),
        art_url: read_text_under(dict, "mpris:artUrl"),
        url: read_text_under(dict, "xesam:url"),
        length,
        track_id,
    }
}

/// How a duration in whole seconds is written.
pub open spec fn duration_text(total: nat) -> Seq<char> {
    let hours = total / 3600;
    let minutes = (total % 3600) / 60;
    let seconds = total % 60;
    if hours > 0 {
        digits(hours) + ":"@ + two_digits(minutes) + ":"@ + two_digits(seconds)
    } else {
        digits(minutes) + ":"@ + two_digits(seconds)
    }
}

/// How a duration in microseconds is written; one below zero counts as none.
pub fn format_duration(microseconds: i64) -> (s: String)
    ensures
        s@ == if microseconds < 0 { "0:00"@ } else { duration_text((microseconds / 1_000_000) as nat) },
{
    if microseconds < 0 {
        return "0:00".to_string();
    }
    let total: u64 = (microseconds / 1_000_000) as u64;
    let hours: u64 = total / 3600;
    let minutes: u64 = (total % 3600) / 60;
    let seconds: u64 = total % 60;
    if hours > 0 {
        let a = text::joined(text::decimal(hours).as_str(), ":");
        let b = text::joined(a.as_str(), text::padded(minutes).as_str());
        let c = text::joined(b.as_str(), ":");
        text::joined(c.as_str(), text::padded(seconds).as_str())
    } else {
        let a = text::joined(text::decimal(minutes).as_str(), ":");
        text::joined(a.as_str(), text::padded(seconds).as_str())
    }
}

proof fn lemma_keys()
    ensures
        "xesam:title"@ != "xesam:artist"@,
        "xesam:title"@ != "xesam:album"@,
        "xesam:title"@ != "mpris:artUrl"@,
        "xesam:title"@ != "xesam:url"@,
        "xesam:title"@ != "mpris:length"@,
        "xesam:title"@ != "mpris:trackid"@,
        "xesam:artist"@ != "xesam:album"@,
        "xesam:artist"@ != "mpris:artUrl"@,
        "xesam:artist"@ != "xesam:url"@,
        "xesam:artist"@ != "mpris:length"@,
        "xesam:artist"@ != "mpris:trackid"@,
        "xesam:album"@ != "mpris:artUrl"@,
        "xesam:album"@ != "xesam:url"@,
        "xesam:album"@ != "mpris:length"@,
        "xesam:album"@ != "mpris:trackid"@,
        "mpris:artUrl"@ != "xesam:url"@,
        "mpris:artUrl"@ != "mpris:length"@,
        "mpris:artUrl"@ != "mpris:trackid"@,
        "xesam:url"@ != "mpris:length"@,
        "xesam:url"@ != "mpris:trackid"@,
        "mpris:length"@ != "mpris:trackid"@,
{
    reveal_strlit("xesam:title");
    reveal_strlit("xesam:artist");
    reveal_strlit("xesam:album");
    reveal_strlit("mpris:artUrl");
    reveal_strlit("xesam:url");
    reveal_strlit("mpris:length");
    reveal_strlit("mpris:trackid");
    assert("xesam:title"@[6] == 't' && "xesam:title"@[0] == 'x');
    assert("xesam:artist"@[6] == 'a' && "xesam:artist"@[7] == 'r');
    assert("xesam:album"@[6] == 'a' && "xesam:album"@[7] == 'l');
    assert("xesam:url"@[6] == 'u');
    assert("mpris:artUrl"@[6] == 'a' && "mpris:artUrl"@[0] == 'm');
    assert("mpris:length"@[6] == 'l' && "mpris:length"@[0] == 'm');
    assert("mpris:trackid"@[6] == 't' && "mpris:trackid"@[0] == 'm');
}

/// What stands under a key of a track is told in the field that it is for: the title, the album, the page and
/// the cover under their keys as texts, the artist as a text, the length as a number, and the track as a text or
/// a path.
pub proof fn fields_tell_what_stands_under_their_keys(dict: Map<Seq<char>, MetaValue>, t: String, n: i64)
    ensures
        ({
            let m = metadata_of(dict);
            let has = |key: Seq<char>, value: MetaValue| dict.dom().contains(key) && dict[key] == value;
            &&& has("xesam:title"@, MetaValue::Text(t)) ==> m.title == Some(t@)
            &&& has("xesam:album"@, MetaValue::Text(t)) ==> m.album == Some(t@)
            &&& has("mpris:artUrl"@, MetaValue::Text(t)) ==> m.art_url == Some(t@)
            &&& has("xesam:url"@, MetaValue::Text(t)) ==> m.url == Some(t@)
            &&& has("xesam:artist"@, MetaValue::Text(t)) ==> m.artist == Some(t@)
            &&& has("mpris:length"@, MetaValue::Number(n)) ==> m.length == Some(n)
            &&& has("mpris:trackid"@, MetaValue::Text(t)) ==> m.track_id == Some(t@)
            &&& has("mpris:trackid"@, MetaValue::Path(t)) ==> m.track_id == Some(t@)
            &&& !dict.dom().contains("xesam:title"@) ==> m.title is None
            &&& !dict.dom().contains("xesam:album"@) ==> m.album is None
            &&& !dict.dom().contains("mpris:artUrl"@) ==> m.art_url is None
            &&& !dict.dom().contains("xesam:url"@) ==> m.url is None
            &&& !dict.dom().contains("xesam:artist"@) ==> m.artist is None
            &&& !dict.dom().contains("mpris:length"@) ==> m.length is None
            &&& !dict.dom().contains("mpris:trackid"@) ==> m.track_id is None
        }),
{
}

/// Artists in a list are told with commas between them.
pub proof fn artists_are_listed(dict: Map<Seq<char>, MetaValue>, artists: Vec<String>)
    requires
        dict.dom().contains("xesam:artist"@),
        dict["xesam:artist"@] == MetaValue::Texts(artists),
    ensures
        artists@.len() == 0 ==> metadata_of(dict).artist == Some(Seq::<char>::empty()),
        artists@.len() == 1 ==> metadata_of(dict).artist == Some(artists@[0]@),
        artists@.len() == 2 ==> metadata_of(dict).artist == Some(artists@[0]@ + ", "@ + artists@[1]@),
        metadata_of(dict).artist == Some(text::separated(views(artists@), ", "@)),
{
    let list = views(artists@);
    if list.len() == 2 {
        assert(list.drop_last().len() == 1);
        assert(list.drop_last()[0] == artists@[0]@);
        assert(list.last() == artists@[1]@);
        assert(text::separated(list.drop_last(), ", "@) == artists@[0]@);
    }
}

/// What is put under one key changes the field of that key and no other.
pub proof fn keys_do_not_touch_other_fields(dict: Map<Seq<char>, MetaValue>, key: Seq<char>, value: MetaValue)
    ensures
        ({
            let a = metadata_of(dict);
            let b = metadata_of(dict.insert(key, value));
            &&& key != "xesam:title"@ ==> b.title == a.title
            &&& key != "xesam:artist"@ ==> b.artist == a.artist
            &&& key != "xesam:album"@ ==> b.album == a.album
            &&& key != "mpris:artUrl"@ ==> b.art_url == a.art_url
            &&& key != "xesam:url"@ ==> b.url == a.url
            &&& key != "mpris:length"@ ==> b.length == a.length
            &&& key != "mpris:trackid"@ ==> b.track_id == a.track_id
            &&& key == "mpris:artUrl"@ ==> b == (MetadataView { art_url: b.art_url, ..a })
            &&& key == "xesam:url"@ ==> b == (MetadataView { url: b.url, ..a })
            &&& key == "xesam:album"@ ==> b == (MetadataView { album: b.album, ..a })
            &&& key == "xesam:title"@ ==> b == (MetadataView { title: b.title, ..a })
            &&& key == "xesam:artist"@ ==> b == (MetadataView { artist: b.artist, ..a })
        }),
{
    lemma_keys();
}

/// A duration below an hour is told in minutes and seconds, a longer one in hours too.
pub proof fn durations_are_told_in_hours_minutes_and_seconds(h: nat, m: nat, s: nat)
    requires
        m < 60,
        s < 60,
    ensures
        h == 0 ==> duration_text(h * 3600 + m * 60 + s) == digits(m) + ":"@ + two_digits(s),
        h > 0 ==> duration_text(h * 3600 + m * 60 + s) == digits(h) + ":"@ + two_digits(m) + ":"@ + two_digits(s),
{
    let total = h * 3600 + m * 60 + s;
    assert(total / 3600 == h && (total % 3600) / 60 == m && total % 60 == s);
}

/// A player plays or is paused exactly if it says so in these words.
pub proof fn statuses_are_told_by_their_words(s: Seq<char>)
    ensures
        status_of(s) == PlaybackStatus::Playing <==> s == "Playing"@,
        status_of(s) == PlaybackStatus::Paused <==> s == "Paused"@,
        status_of(s) == PlaybackStatus::Stopped <==> s != "Playing"@ && s != "Paused"@,
{
    reveal_strlit("Playing");
    reveal_strlit("Paused");
    assert("Playing"@.len() != "Paused"@.len());
}

/// How players are weighed: a title counts for the followed player alone and outweighs all else, music players
/// come before browsers, and of these one before the others.
pub proof fn players_are_weighed(titled: bool, a: Seq<char>, b: Seq<char>)
    ensures
        score(true, true, a) == score(true, false, a) + 200,
        score(true, false, a) == score(false, titled, a) + 5,
        score(true, true, a) > score(false, titled, b),
        has_run(a, "firefox"@) == has_run(b, "firefox"@) && has_run(a, "chromium"@) == has_run(b, "chromium"@) && has_run(
            a,
            "spotify"@,
        ) && !has_run(b, "spotify"@) ==> score(false, titled, a) == score(false, titled, b) + 20,
        has_run(a, "spotify"@) == has_run(b, "spotify"@) && has_run(a, "chromium"@) == has_run(b, "chromium"@) && has_run(
            a,
            "firefox"@,
        ) && !has_run(b, "firefox"@) ==> score(false, titled, a) == score(false, titled, b) + 10,
        has_run(a, "spotify"@) == has_run(b, "spotify"@) && has_run(a, "firefox"@) == has_run(b, "firefox"@) && has_run(
            a,
            "chromium"@,
        ) && !has_run(b, "chromium"@) ==> score(false, titled, a) == score(false, titled, b) - 5,
        !has_run(a, "spotify"@) && !has_run(a, "firefox"@) && !has_run(a, "chromium"@) ==> score(false, titled, a) == 0,
{
}

/// The player that is picked is one of those there, and none of them outweighs it. Of equals it is the first by
/// name. Whether a player is the followed one goes by its whole name.
pub proof fn no_player_outweighs_the_picked_one(s: SnapshotView, players: Seq<Seq<char>>, i: int)
    requires
        0 <= i < players.len(),
    ensures
        best(s, players) matches Some(picked) && {
            let weight = |name: Seq<char>| score(s.player_bus_name == Some(name), has_title(s), lowercase(name));
            &&& players.contains(picked)
            &&& weight(picked) >= weight(players[i])
            &&& weight(picked) == weight(players[i]) ==> !chars_before(players[i], picked)
        },
{
    let all = candidates(s, players);
    let sorted = ranked(all);
    lemma_ranked_len(all);
    order::ranked_is_stable_sort(all);
    let first = sorted[0];
    order::ranked_holds_the_same(all, first);
    assert(sorted.contains(first));
    let q = choose|q: int| 0 <= q < all.len() && all[q] == first;
    assert(players[q] == first.name);
    let other = candidate(s, players[i]);
    assert(all[i] == other);
    order::ranked_holds_the_same(all, other);
    let p = choose|p: int| 0 <= p < sorted.len() && sorted[p] == other;
    if p > 0 {
        assert(!sorted[p].before(sorted[0]));
    }
    text::chars_before_is_asymmetric(other.name, other.name);
}

/// The players on the bus are the names with the prefix of players, in their order.
pub proof fn players_are_told_by_their_prefix(names: Seq<Seq<char>>)
    ensures
        with_prefix(names, "org.mpris.MediaPlayer2."@) == names.filter(
            |name: Seq<char>| "org.mpris.MediaPlayer2."@.is_prefix_of(name),
        ),
        MPRIS_PREFIX@ == "org.mpris.MediaPlayer2."@,
    decreases names.len(),
{
    reveal(Seq::filter);
    if names.len() > 0 {
        players_are_told_by_their_prefix(names.drop_last());
    }
}

/// The short name of a player is the part of its name behind the prefix up to the next dot, and a name without
/// the prefix has none. To show it, it begins with a capital letter.
pub proof fn short_names_end_at_a_dot(id: Seq<char>, rest: Seq<char>)
    requires
        !id.contains('.'),
        rest.len() > 0 ==> rest[0] == '.',
    ensures
        short_name(MPRIS_PREFIX@ + id + rest) == Some(id),
        id.len() > 0 ==> shown_name(MPRIS_PREFIX@ + id + rest) == text::uppercase(id[0]) + id.skip(1),
{
    let name = MPRIS_PREFIX@ + id + rest;
    assert(MPRIS_PREFIX@.is_prefix_of(name));
    assert(name.skip(MPRIS_PREFIX@.len() as int) =~= id + rest);
    let taken = crate::config::css::up_to(id + rest, '.', '.');
    crate::config::css::texts_are_taken_up_to_the_first(id + rest, '.', '.');
    assert(taken =~= (id + rest).take(taken.len() as int));
    if taken.len() > id.len() {
        assert(taken[id.len() as int] == rest[0]);
        assert(taken.contains('.'));
    }
    if taken.len() < id.len() {
        assert((id + rest)[taken.len() as int] == id[taken.len() as int]);
        assert(id.contains('.'));
    }
    assert(taken =~= id);
}

/// What a player tells is taken over. What it does not tell of its status, track, volume and position stays; what
/// it does not tell that it can do it cannot, except be controlled. Which player it is does not change.
pub proof fn players_tell_of_themselves(s: SnapshotView, p: PlayerProperties)
    ensures
        ({
            let after = with_properties(s, p);
            &&& p.status matches Some(t) ==> (t@ == "Playing"@ <==> after.playback_status == PlaybackStatus::Playing) && (
            t@ == "Paused"@ <==> after.playback_status == PlaybackStatus::Paused)
            &&& p.status is None ==> after.playback_status == s.playback_status
            &&& p.metadata matches Some(m) ==> after.metadata == m@
            &&& p.metadata is None ==> after.metadata == s.metadata
            &&& p.volume matches Some(v) ==> after.volume == v
            &&& p.volume is None ==> after.volume == s.volume
            &&& p.position matches Some(n) ==> after.position == n
            &&& p.position is None ==> after.position == s.position
            &&& after.can_play <==> p.can_play == Some(true)
            &&& after.can_pause <==> p.can_pause == Some(true)
            &&& after.can_go_next <==> p.can_go_next == Some(true)
            &&& after.can_go_previous <==> p.can_go_previous == Some(true)
            &&& after.can_seek <==> p.can_seek == Some(true)
            &&& after.can_control <==> p.can_control != Some(false)
            &&& after.available == s.available && after.player_name == s.player_name && after.player_id == s.player_id
            &&& after.player_bus_name == s.player_bus_name && after.available_players == s.available_players
        }),
{
    if p.status is Some {
        statuses_are_told_by_their_words(p.status->0@);
    }
}

/// A player that was connected to is the followed one; everything else stays until it tells of itself. Without a
/// player nothing is known but the players that are there.
pub proof fn players_come_and_go(s: SnapshotView, name: Seq<char>)
    ensures
        ({
            let with = with_player(s, name);
            &&& with.available && with.player_bus_name == Some(name)
            &&& with.metadata == s.metadata && with.playback_status == s.playback_status && with.position == s.position
            &&& with.volume == s.volume && with.available_players == s.available_players
            &&& with.can_play == s.can_play && with.can_pause == s.can_pause && with.can_go_next == s.can_go_next
            &&& with.can_go_previous == s.can_go_previous && with.can_seek == s.can_seek && with.can_control == s.can_control
        }),
        ({
            let without = cleared(s);
            &&& !without.available && without.player_bus_name is None && without.player_name is None
            &&& without.player_id is None && without.playback_status == PlaybackStatus::Stopped && without.position == 0
            &&& without.metadata.title is None && without.metadata.artist is None && without.metadata.album is None
            &&& without.metadata.art_url is None && without.metadata.url is None && without.metadata.length is None
            &&& without.metadata.track_id is None
            &&& !without.can_play && !without.can_pause && !without.can_go_next && !without.can_go_previous
            &&& !without.can_seek && !without.can_control
            &&& without.volume == 0x3ff0_0000_0000_0000u64
            &&& without.available_players == s.available_players
        }),
{
}

/// A volume is taken exactly if it is a finite number that is zero or more.
pub proof fn volumes_are_finite_and_not_negative(bits: u64)
    ensures
        valid_volume(bits) <==> (bits / 0x10_0000_0000_0000) % 0x800 != 0x7ff && (bits / 0x8000_0000_0000_0000 == 0
            || bits % 0x8000_0000_0000_0000 == 0),
{
    assert((bits < 0x7ff0_0000_0000_0000u64 || bits == 0x8000_0000_0000_0000u64) <==> ((bits / 0x10_0000_0000_0000u64)
        % 0x800u64 != 0x7ffu64 && (bits / 0x8000_0000_0000_0000u64 == 0 || bits % 0x8000_0000_0000_0000u64 == 0)))
        by (bit_vector);
}

/// Each field of the metadata is told as itself.
pub proof fn metadata_is_told_field_by_field(m: MediaMetadata)
    ensures
        m@.title == chars_of(m.title),
        m@.artist == chars_of(m.artist),
        m@.album == chars_of(m.album),
        m@.art_url == chars_of(m.art_url),
        m@.url == chars_of(m.url),
        m@.length == m.length,
        m@.track_id == chars_of(m.track_id),
{
}

/// Each field of a snapshot is told as itself.
pub proof fn snapshots_are_told_field_by_field(s: MediaSnapshot)
    ensures
        s@.available == s.available,
        s@.player_name == chars_of(s.player_name),
        s@.player_id == chars_of(s.player_id),
        s@.player_bus_name == chars_of(s.player_bus_name),
        s@.playback_status == s.playback_status,
        s@.metadata == s.metadata@,
        s@.position == s.position,
        s@.volume == s.volume,
        s@.can_play == s.can_play,
        s@.can_pause == s.can_pause,
        s@.can_go_next == s.can_go_next,
        s@.can_go_previous == s.can_go_previous,
        s@.can_seek == s.can_seek,
        s@.can_control == s.can_control,
        s@.available_players == views(s.available_players@),
{
}

} // verus!
