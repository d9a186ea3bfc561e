//! The world: its identity, playback, playlist and players views, and the
//! commands sent to the audio executor.
use crate::models::{AudioCommand, AudioCommandType, NowPlaying, PlaybackState, PlaybackStatus, WsMessage};
use crate::queue::rules::QueueConfig;
use crate::text::{chars_lt, chars_of, copy_string, lemma_lex_lt_irreflexive, lemma_lex_lt_transitive, lemma_lex_total, lex_lt};
use std::sync::Arc;
use vstd::prelude::*;
use vstd::std_specs::convert::FromSpecImpl;

verus! {

// ---------------------------------------------------------------------------
// Station state
// ---------------------------------------------------------------------------

/// `[station]` settings.
pub struct StationConfig {
    pub name: String,
    pub short_name: String,
}

/// `[server]` settings.
pub struct ServerConfig {
    pub port: u16,
    pub base_path: String,
}

/// `[audio_engine]` settings.
pub struct AudioEngineConfig {
    pub media_path: String,
}

/// `[device]` settings.
pub struct DeviceConfig {
    pub cookie_max_age_days: u64,
}

/// The station configuration the world reads.
pub struct AppConfig {
    pub station: StationConfig,
    pub server: ServerConfig,
    pub audio_engine: AudioEngineConfig,
    pub device: DeviceConfig,
    pub queue: QueueConfig,
}

/// A connected listener.
pub struct ListenerSession {
    pub display_name: String,
}

/// The shared state of a running world.
pub struct AppState {
    pub config: AppConfig,
    /// The world's stable id.
    pub world_id: String,
    /// The connected listeners.
    pub listeners: Vec<ListenerSession>,
}

/// The stored world id, or a fresh one to store; the flag says it is new.
pub fn get_or_create_world_id(existing: Option<String>) -> (r: (String, bool))
    ensures
        existing matches Some(id) ==> r.0@ == id@ && !r.1,
        existing is None ==> r.1 && crate::auth::is_uuid_v4_text(r.0@),
{
    match existing {
        Some(id) => (id, false),
        None => (crate::auth::new_uuid_v4_text(), true),
    }
}

// ---------------------------------------------------------------------------
// Views
// ---------------------------------------------------------------------------

/// Who the world is.
pub struct WorldIdentity {
    pub name: String,
    pub short_name: String,
    pub world_id: Option<String>,
}

impl WorldIdentity {
    /// The identity derived from the configuration and the stored id.
    pub fn from_state(state: &AppState) -> (r: Self)
        ensures
            r.name@ == state.config.station.name@,
            r.short_name@ == state.config.station.short_name@,
            r.world_id is Some,
            r.world_id->0@ == state.world_id@,
    {
        WorldIdentity {
            name: copy_string(&state.config.station.name),
            short_name: copy_string(&state.config.station.short_name),
            world_id: Some(copy_string(&state.world_id)),
        }
    }
}

/// What the world is playing.
pub struct WorldPlayback {
    pub song_id: i64,
    pub title: String,
    pub artist: String,
    pub position_ms: i64,
    pub duration_ms: i64,
    pub status: PlaybackStatus,
}

/// Playing when the track has a length and a non-negative position.
pub open spec fn derived_status(position_ms: i64, duration_ms: i64) -> PlaybackStatus {
    if duration_ms > 0 && position_ms >= 0 {
        PlaybackStatus::Playing
    } else {
        PlaybackStatus::Stopped
    }
}

/// `p` translates the authoritative snapshot `np`.
pub open spec fn playback_of_now_playing(np: NowPlaying, p: WorldPlayback) -> bool {
    &&& p.position_ms == np.position_ms
    &&& p.duration_ms == np.duration_ms
    &&& p.status == derived_status(np.position_ms, np.duration_ms)
    &&& np.song matches Some(s) ==> p.song_id == s.id && p.title@ == s.title@ && p.artist@ == s.artist@
    &&& np.song is None ==> p.song_id == -1 && p.title@.len() == 0 && p.artist@.len() == 0
}

/// `p` translates the executor's progress `ps`.
pub open spec fn playback_of_engine(ps: PlaybackState, p: WorldPlayback) -> bool {
    &&& p.song_id == (match ps.song_id {
        Some(id) => id,
        None => -1i64,
    })
    &&& p.title@ == ps.title@
    &&& p.artist@ == ps.artist@
    &&& p.position_ms == ps.position_ms
    &&& p.duration_ms == ps.duration_ms
    &&& p.status == ps.status
}

impl WorldPlayback {
    /// Translation of the authoritative playback snapshot.
    pub fn from_now_playing(np: &NowPlaying) -> (r: Self)
        ensures
            playback_of_now_playing(*np, r),
    {
        let (song_id, title, artist) = match &np.song {
            Some(s) => (s.id, copy_string(&s.title), copy_string(&s.artist)),
            None => (-1, String::new(), String::new()),
        };
        let status = if np.duration_ms > 0 && np.position_ms >= 0 {
            PlaybackStatus::Playing
        } else {
            PlaybackStatus::Stopped
        };
        WorldPlayback {
            song_id,
            title,
            artist,
            position_ms: np.position_ms,
            duration_ms: np.duration_ms,
            status,
        }
    }

    /// Translation of the executor's progress; fallback tracks get song id -1.
    pub fn from_engine(ps: &PlaybackState) -> (r: Self)
        ensures
            playback_of_engine(*ps, r),
    {
        WorldPlayback {
            song_id: match ps.song_id {
                Some(id) => id,
                None => -1,
            },
            title: copy_string(&ps.title),
            artist: copy_string(&ps.artist),
            position_ms: ps.position_ms,
            duration_ms: ps.duration_ms,
            status: ps.status,
        }
    }
}

/// The world's playlist: pending plus playing items.
pub struct WorldPlaylist {
    pub size: usize,
}

/// The world's players.
pub struct WorldPlayers {
    /// Number of connections.
    pub count: usize,
    /// Their names, sorted, each once.
    pub names: Vec<String>,
}

/// Everything a world shows about itself.
pub struct WorldState {
    pub identity: WorldIdentity,
    pub playback: WorldPlayback,
    pub playlist: WorldPlaylist,
    pub players: WorldPlayers,
}

/// The names, strictly increasing.
pub open spec fn strictly_sorted(v: Seq<String>) -> bool {
    forall|a: int, b: int| 0 <= a < b < v.len() ==> lex_lt(#[trigger] v[a]@, #[trigger] v[b]@)
}

/// The texts of the names.
pub open spec fn texts(v: Seq<String>) -> Seq<Seq<char>> {
    v.map_values(|x: String| x@)
}

/// `out` holds exactly the names of `names`, each once, sorted.
pub open spec fn sorted_unique_names(names: Seq<String>, out: Seq<String>) -> bool {
    strictly_sorted(out) && texts(out).to_set() == texts(names).to_set()
}

/// Inserting a name at its place keeps the names strictly sorted.
proof fn lemma_insert_keeps_sorted(prev: Seq<String>, k: int, n: String)
    requires
        strictly_sorted(prev),
        0 <= k <= prev.len(),
        forall|a: int| 0 <= a < k ==> lex_lt((#[trigger] prev[a])@, n@),
        k < prev.len() ==> lex_lt(n@, prev[k]@),
    ensures
        strictly_sorted(prev.insert(k, n)),
{
    let s = prev.insert(k, n);
    prev.insert_ensures(k, n);
    assert forall|a: int, b: int| 0 <= a < b < s.len() implies lex_lt(#[trigger] s[a]@, #[trigger] s[b]@) by {
        if b < k {
            assert(s[a] == prev[a] && s[b] == prev[b]);
        } else if b == k {
            assert(s[a] == prev[a]);
        } else if a == k {
            assert(s[b] == prev[b - 1]);
            if b - 1 > k {
                lemma_lex_lt_transitive(n@, prev[k]@, prev[b - 1]@);
            }
        } else if a < k {
            assert(s[a] == prev[a] && s[b] == prev[b - 1]);
            lemma_lex_lt_transitive(prev[a]@, n@, prev[k]@);
            if b - 1 > k {
                lemma_lex_lt_transitive(prev[a]@, prev[k]@, prev[b - 1]@);
            }
        } else {
            assert(s[a] == prev[a - 1] && s[b] == prev[b - 1]);
        }
    }
}

/// The texts after inserting a name are the texts before, plus that name.
proof fn lemma_insert_texts(prev: Seq<String>, k: int, n: String)
    requires
        0 <= k <= prev.len(),
    ensures
        texts(prev.insert(k, n)).to_set() == texts(prev).to_set().insert(n@),
{
    let s = prev.insert(k, n);
    prev.insert_ensures(k, n);
    let a = texts(s).to_set();
    let b = texts(prev).to_set().insert(n@);
    assert forall|x: Seq<char>| a.contains(x) implies b.contains(x) by {
        let i = choose|i: int| 0 <= i < texts(s).len() && texts(s)[i] == x;
        if i < k {
            assert(texts(prev)[i] == x);
        } else if i > k {
            assert(texts(prev)[i - 1] == x);
        }
    }
    assert forall|x: Seq<char>| b.contains(x) implies a.contains(x) by {
        if x == n@ {
            assert(texts(s)[k] == x);
        } else {
            let i = choose|i: int| 0 <= i < texts(prev).len() && texts(prev)[i] == x;
            if i < k {
                assert(texts(s)[i] == x);
            } else {
                assert(texts(s)[i + 1] == x);
            }
        }
    }
    assert(a =~= b);
}

/// `a < b` for strings.
pub fn string_lt(a: &String, b: &String) -> (r: bool)
    ensures
        r == lex_lt(a@, b@),
{
    let va = chars_of(a.as_str());
    let vb = chars_of(b.as_str());
    chars_lt(&va, &vb)
}

/// Puts a name into a strictly sorted list, unless it is there already.
fn insert_name(out: &mut Vec<String>, n: &String)
    requires
        strictly_sorted(old(out)@),
    ensures
        strictly_sorted(final(out)@),
        texts(final(out)@).to_set() == texts(old(out)@).to_set().insert(n@),
{
    let mut k: usize = 0;
    while k < out.len() && string_lt(&out[k], n)
        invariant
            k <= out.len(),
            forall|a: int| 0 <= a < k ==> lex_lt((#[trigger] out@[a])@, n@),
        decreases out.len() - k,
    {
        k += 1;
    }
    if k < out.len() && out[k] == *n {
        assert(texts(out@)[k as int] == n@);
        assert(texts(out@).to_set().insert(n@) =~= texts(out@).to_set());
        return ;
    }
    let ghost prev = out@;
    proof {
        if k < prev.len() {
            lemma_lex_total(prev[k as int]@, n@);
        }
        lemma_insert_keeps_sorted(prev, k as int, *n);
        lemma_insert_texts(prev, k as int, *n);
    }
    out.insert(k, n.clone());
    assert(out@ == prev.insert(k as int, *n));
}

/// The names sorted, duplicates dropped.
pub fn sorted_unique(names: &Vec<String>) -> (out: Vec<String>)
    ensures
        sorted_unique_names(names@, out@),
{
    let mut out: Vec<String> = Vec::new();
    let mut i: usize = 0;
    assert(texts(out@).to_set() =~= texts(names@.take(0)).to_set());
    while i < names.len()
        invariant
            i <= names.len(),
            strictly_sorted(out@),
            texts(out@).to_set() == texts(names@.take(i as int)).to_set(),
        decreases names.len() - i,
    {
        insert_name(&mut out, &names[i]);
        proof {
            assert(texts(names@.take(i + 1)) =~= texts(names@.take(i as int)).push(names@[i as int]@));
            texts(names@.take(i as int)).lemma_push_to_set_commute(names@[i as int]@);
        }
        i += 1;
    }
    assert(names@.take(names.len() as int) =~= names@);
    out
}

impl WorldState {
    /// Aggregates one snapshot: playback from the authoritative snapshot when
    /// there is one, else from the executor's progress; the playlist size
    /// (0 when it could not be read); the players' count and sorted names.
    pub fn snapshot(
        state: &AppState,
        now_playing: &Option<NowPlaying>,
        engine: &PlaybackState,
        queue_size: Option<usize>,
    ) -> (r: Self)
        ensures
            r.identity.name@ == state.config.station.name@,
            r.identity.short_name@ == state.config.station.short_name@,
            r.identity.world_id is Some && r.identity.world_id->0@ == state.world_id@,
            now_playing matches Some(np) ==> playback_of_now_playing(*np, r.playback),
            now_playing is None ==> playback_of_engine(*engine, r.playback),
            r.playlist.size == (match queue_size {
                Some(n) => n,
                None => 0,
            }),
            r.players.count == state.listeners.len(),
            sorted_unique_names(state.listeners@.map_values(|l: ListenerSession| l.display_name), r.players.names@),
    {
        let playback = match now_playing {
            Some(np) => WorldPlayback::from_now_playing(np),
            None => WorldPlayback::from_engine(engine),
        };
        let playlist = WorldPlaylist {
            size: match queue_size {
                Some(n) => n,
                None => 0,
            },
        };
        let mut names: Vec<String> = Vec::new();
        let mut i: usize = 0;
        while i < state.listeners.len()
            invariant
                i <= state.listeners.len(),
                names@ =~= state.listeners@.take(i as int).map_values(|l: ListenerSession| l.display_name),
            decreases state.listeners.len() - i,
        {
            names.push(state.listeners[i].display_name.clone());
            proof {
                assert(state.listeners@.take(i + 1) =~= state.listeners@.take(i as int).push(state.listeners@[i as int]));
            }
            i += 1;
        }
        assert(state.listeners@.take(state.listeners.len() as int) =~= state.listeners@);
        let sorted = sorted_unique(&names);
        WorldState {
            identity: WorldIdentity::from_state(state),
            playback,
            playlist,
            players: WorldPlayers { count: state.listeners.len(), names: sorted },
        }
    }
}

// ---------------------------------------------------------------------------
// Commands
// ---------------------------------------------------------------------------

/// Commands a world accepts for its audio executor.
#[derive(Debug, Clone, Copy, PartialEq, Eq, Structural)]
pub enum WorldCommand {
    Skip,
    Next,
    Prev,
    Play,
    Stop,
    ReloadQueue,
}

/// The executor command each world command becomes: the one of the same name.
pub open spec fn audio_command_for(cmd: WorldCommand) -> AudioCommandType {
    match cmd {
        WorldCommand::Skip => AudioCommandType::Skip,
        WorldCommand::Next => AudioCommandType::Next,
        WorldCommand::Prev => AudioCommandType::Prev,
        WorldCommand::Play => AudioCommandType::Play,
        WorldCommand::Stop => AudioCommandType::Stop,
        WorldCommand::ReloadQueue => AudioCommandType::ReloadQueue,
    }
}

impl From<WorldCommand> for AudioCommandType {
    fn from(cmd: WorldCommand) -> (r: Self) {
        match cmd {
            WorldCommand::Skip => AudioCommandType::Skip,
            WorldCommand::Next => AudioCommandType::Next,
            WorldCommand::Prev => AudioCommandType::Prev,
            WorldCommand::Play => AudioCommandType::Play,
            WorldCommand::Stop => AudioCommandType::Stop,
            WorldCommand::ReloadQueue => AudioCommandType::ReloadQueue,
        }
    }
}

impl FromSpecImpl<WorldCommand> for AudioCommandType {
    open spec fn obeys_from_spec() -> bool {
        true
    }

    open spec fn from_spec(cmd: WorldCommand) -> Self {
        audio_command_for(cmd)
    }
}

/// The translation loses nothing: distinct world commands become distinct
/// executor commands, and every executor command is reached.
pub proof fn law_command_translation_is_lossless(a: WorldCommand, b: WorldCommand, t: AudioCommandType)
    ensures
        audio_command_for(a) == audio_command_for(b) ==> a == b,
        exists|c: WorldCommand| audio_command_for(c) == t,
{
    match t {
        AudioCommandType::Skip => assert(audio_command_for(WorldCommand::Skip) == t),
        AudioCommandType::Next => assert(audio_command_for(WorldCommand::Next) == t),
        AudioCommandType::Prev => assert(audio_command_for(WorldCommand::Prev) == t),
        AudioCommandType::Play => assert(audio_command_for(WorldCommand::Play) == t),
        AudioCommandType::Stop => assert(audio_command_for(WorldCommand::Stop) == t),
        AudioCommandType::ReloadQueue => assert(audio_command_for(WorldCommand::ReloadQueue) == t),
    }
}

/// The executor command sent for a world command: no song, no file.
pub open spec fn is_dispatch_of(c: AudioCommand, cmd: WorldCommand) -> bool {
    c.cmd_type == audio_command_for(cmd) && c.song_id is None && c.file_path is None
}

/// Turns world commands into executor commands for components that only
/// reach the audio executor.
pub struct WorldCommandDispatcher {}

impl WorldCommandDispatcher {
    pub fn new() -> (r: Self) {
        WorldCommandDispatcher {  }
    }

    /// The executor command to send for `command`.
    pub fn dispatch(&self, command: WorldCommand) -> (c: AudioCommand)
        ensures
            is_dispatch_of(c, command),
    {
        AudioCommand { cmd_type: AudioCommandType::from(command), song_id: None, file_path: None }
    }
}

/// The world's runtime entry point.
pub struct WorldRuntime {
    pub state: Arc<AppState>,
}

impl WorldRuntime {
    pub fn new(state: Arc<AppState>) -> (r: Self)
        ensures
            r.state == state,
    {
        WorldRuntime { state }
    }

    /// The executor command to send for `command`.
    pub fn dispatch(&self, command: WorldCommand) -> (c: AudioCommand)
        ensures
            is_dispatch_of(c, command),
    {
        let d = WorldCommandDispatcher::new();
        d.dispatch(command)
    }

    /// The current playback for a client: the authoritative snapshot with the
    /// client's stream URL, or, before the first snapshot, the executor's
    /// progress with no song.
    pub fn now_playing(
        &self,
        snapshot: Option<NowPlaying>,
        progress_position_ms: i64,
        progress_duration_ms: i64,
        stream_url: String,
    ) -> (r: NowPlaying)
        ensures
            r.stream_url@ == stream_url@,
            snapshot matches Some(np) ==> r.song == np.song && r.position_ms == np.position_ms && r.duration_ms
                == np.duration_ms && r.lyrics_line == np.lyrics_line && r.lyrics_text == np.lyrics_text
                && r.started_at == np.started_at && r.file_url == np.file_url && r.cover_url == np.cover_url,
            snapshot is None ==> r.song is None && r.position_ms == progress_position_ms && r.duration_ms
                == progress_duration_ms && r.lyrics_line is None && r.lyrics_text is None && r.started_at is None
                && r.file_url is None && r.cover_url is None,
    {
        match snapshot {
            Some(mut np) => {
                np.stream_url = stream_url;
                np
            },
            None => NowPlaying {
                song: None,
                position_ms: progress_position_ms,
                duration_ms: progress_duration_ms,
                lyrics_line: None,
                lyrics_text: None,
                started_at: None,
                stream_url,
                file_url: None,
                cover_url: None,
            },
        }
    }
}

/// The playback view carried by a `playback_state` message; `None` for any
/// other message.
pub fn playback_from_ws(msg: &WsMessage) -> (r: Option<WorldPlayback>)
    ensures
        (r is Some) <==> (msg is PlaybackState),
        r matches Some(p) ==> (match msg {
            WsMessage::PlaybackState { song_id, title, artist, position_ms, duration_ms, status, .. } => {
                &&& p.song_id == song_id
                &&& p.title@ == title@
                &&& p.artist@ == artist@
                &&& p.position_ms == position_ms
                &&& p.duration_ms == duration_ms
                &&& p.status == status
            },
            _ => false,
        }),
{
    match msg {
        WsMessage::PlaybackState { song_id, title, artist, position_ms, duration_ms, status, .. } => Some(
            WorldPlayback {
                song_id: *song_id,
                title: copy_string(title),
                artist: copy_string(artist),
                position_ms: *position_ms,
                duration_ms: *duration_ms,
                status: *status,
            },
        ),
        _ => None,
    }
}

} // verus!
