//! Data carried between the rules, the audio executor and the listeners.
use vstd::prelude::*;

verus! {

/// `chrono::NaiveDateTime`, carried through unchanged (a queue item's insertion time).
#[verifier::external_type_specification]
#[verifier::external_body]
pub struct ExNaiveDateTime(chrono::NaiveDateTime);

/// Playback status reported by the audio executor.
#[derive(Debug, Clone, Copy, PartialEq, Eq, Structural)]
pub enum PlaybackStatus {
    Playing,
    Paused,
    Stopped,
}

/// Progress of the audio executor, as it publishes it.
pub struct PlaybackState {
    /// The requested song being played; `None` for fallback folder tracks.
    pub song_id: Option<i64>,
    pub title: String,
    pub artist: String,
    pub position_ms: i64,
    pub duration_ms: i64,
    pub status: PlaybackStatus,
}

impl Default for PlaybackState {
    fn default() -> (r: Self)
        ensures
            r.song_id is None,
            r.title@.len() == 0,
            r.artist@.len() == 0,
            r.position_ms == 0,
            r.duration_ms == 0,
            r.status == PlaybackStatus::Stopped,
    {
        PlaybackState {
            song_id: None,
            title: String::new(),
            artist: String::new(),
            position_ms: 0,
            duration_ms: 0,
            status: PlaybackStatus::Stopped,
        }
    }
}

/// Commands understood by the audio executor.
#[derive(Debug, Clone, Copy, PartialEq, Eq, Structural)]
pub enum AudioCommandType {
    Skip,
    Next,
    Prev,
    Play,
    Stop,
    ReloadQueue,
}

/// One command sent to the audio executor.
pub struct AudioCommand {
    pub cmd_type: AudioCommandType,
    pub song_id: Option<i64>,
    pub file_path: Option<String>,
}

/// A track requested by a listener, as the audio executor queues it.
pub struct RequestedTrack {
    pub file_path: String,
    pub song_id: i64,
    pub title: String,
    pub artist: String,
    pub duration_ms: i64,
}

/// The song columns the queue rules read.
pub struct Song {
    pub id: i64,
    pub title: String,
    pub artist: String,
    pub file_path: String,
    pub duration_ms: i64,
}

/// Status of a queue item.
#[derive(Debug, Clone, Copy, PartialEq, Eq, Structural)]
pub enum QueueStatus {
    Pending,
    Playing,
    Played,
    Skipped,
}

impl QueueStatus {
    /// Pending and playing items make up the active queue.
    pub open spec fn is_active(self) -> bool {
        self == QueueStatus::Pending || self == QueueStatus::Playing
    }

    /// The text stored for the status.
    pub open spec fn text(self) -> Seq<char> {
        match self {
            QueueStatus::Pending => "pending"@,
            QueueStatus::Playing => "playing"@,
            QueueStatus::Played => "played"@,
            QueueStatus::Skipped => "skipped"@,
        }
    }

    /// Pending and playing items make up the active queue.
    pub fn active(&self) -> (b: bool)
        ensures
            b == self.is_active(),
    {
        match self {
            QueueStatus::Pending => true,
            QueueStatus::Playing => true,
            _ => false,
        }
    }

    /// The text stored for the status.
    pub fn as_text(&self) -> (s: String)
        ensures
            s@ == self.text(),
    {
        match self {
            QueueStatus::Pending => crate::text::string_from("pending"),
            QueueStatus::Playing => crate::text::string_from("playing"),
            QueueStatus::Played => crate::text::string_from("played"),
            QueueStatus::Skipped => crate::text::string_from("skipped"),
        }
    }
}

/// One row of the queue.
#[derive(Debug, Clone, Copy, PartialEq, Eq, Structural)]
pub struct QueueItem {
    pub id: i64,
    pub song_id: i64,
    pub device_user_id: i64,
    pub status: QueueStatus,
    pub position: i32,
}

/// A song as the listeners see it.
#[derive(Clone)]
pub struct SongSummary {
    pub id: i64,
    pub title: String,
    pub artist: String,
    pub album: String,
    pub duration_ms: i64,
    pub has_lyrics: bool,
    pub has_cover: bool,
    pub metadata_revision: i64,
}

/// A queue item with its song, as the listeners see it.
pub struct QueueItemDisplay {
    pub id: i64,
    pub song: Option<SongSummary>,
    pub requested_by: String,
    pub status: String,
    pub position: i32,
    pub added_at: chrono::NaiveDateTime,
}

/// The authoritative playback snapshot.
#[derive(Clone)]
pub struct NowPlaying {
    pub song: Option<SongSummary>,
    pub position_ms: i64,
    pub duration_ms: i64,
    pub lyrics_line: Option<usize>,
    pub lyrics_text: Option<String>,
    pub started_at: Option<i64>,
    pub stream_url: String,
    pub file_url: Option<String>,
    pub cover_url: Option<String>,
}

/// A lyrics line sent to the listeners.
pub struct LyricsLineDto {
    pub time_ms: Option<i64>,
    pub text: String,
}

/// Messages sent to connected listeners.
pub enum WsMessage {
    PlaybackState {
        song_id: i64,
        title: String,
        artist: String,
        position_ms: i64,
        duration_ms: i64,
        lyrics_line: Option<usize>,
        lyrics_lines: Option<Vec<LyricsLineDto>>,
        status: PlaybackStatus,
        stream_url: String,
        file_url: Option<String>,
        cover_url: Option<String>,
        timestamp_ms: i64,
    },
    QueueUpdate {
        action: String,
        song_title: Option<String>,
        requested_by: Option<String>,
        queue_size: usize,
    },
    Notice { message: String, level: String },
    Ping { timestamp: i64 },
    ListenersUpdate { count: usize, names: Vec<String> },
    TrackChanged {
        song_id: i64,
        title: String,
        artist: String,
        duration_ms: i64,
        status: PlaybackStatus,
        timestamp_ms: i64,
    },
}

} // verus!
