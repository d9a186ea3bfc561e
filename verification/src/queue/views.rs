//! The queue and history as listeners see them, built from the joined rows
//! the store returns, and the requests reloaded into the audio executor.
use crate::models::{QueueItemDisplay, RequestedTrack, SongSummary};
use crate::text::copy_string;
use vstd::prelude::*;

verus! {

/// A queue item joined with its song (if it still exists) and its requester.
pub struct QueueDisplayRow {
    pub id: i64,
    pub song_id: i64,
    pub device_user_id: i64,
    pub status: String,
    pub position: i32,
    pub added_at: chrono::NaiveDateTime,
    pub title: Option<String>,
    pub artist: Option<String>,
    pub album: Option<String>,
    pub duration_ms: Option<i64>,
    pub lyrics_path: Option<String>,
    pub cover_path: Option<String>,
    /// The requester's name, `"unknown"` when the device is gone.
    pub display_name: String,
}

/// A history record joined with its song (if it still exists) and requester.
pub struct PlayHistoryRow {
    pub id: i64,
    pub song_id: i64,
    pub device_user_id: Option<i64>,
    pub played_at: String,
    pub title: Option<String>,
    pub artist: Option<String>,
    pub album: Option<String>,
    pub duration_ms: Option<i64>,
    pub lyrics_path: Option<String>,
    pub cover_path: Option<String>,
    /// The requester's name, `"system"` when there is none.
    pub display_name: String,
}

/// The song part of a history entry.
pub struct HistorySong {
    pub id: i64,
    pub title: Option<String>,
    pub artist: String,
    pub album: Option<String>,
    pub duration_ms: Option<i64>,
    pub has_lyrics: bool,
    pub has_cover: bool,
}

/// One entry of the play history, as listeners see it.
pub struct HistoryEntry {
    pub id: i64,
    pub song_id: i64,
    pub device_user_id: Option<i64>,
    pub song: HistorySong,
    pub requested_by: String,
    pub played_at: String,
}

/// A pending item's song, as the store returns it for reloading the executor.
pub struct PendingTrackRow {
    pub file_path: String,
    pub song_id: i64,
    pub title: String,
    pub artist: String,
    pub duration_ms: i64,
}

/// The text of an optional string.
pub open spec fn opt_view(o: Option<String>) -> Option<Seq<char>> {
    match o {
        Some(s) => Some(s@),
        None => None,
    }
}

/// The text of an optional string, empty when absent.
pub open spec fn view_or_empty(o: Option<String>) -> Seq<char> {
    match o {
        Some(s) => s@,
        None => Seq::empty(),
    }
}

/// An optional path that is present and not empty.
pub open spec fn has_path(o: Option<String>) -> bool {
    view_or_empty(o).len() > 0
}

/// `d` is how the queue row is shown.
pub open spec fn displays(row: QueueDisplayRow, d: QueueItemDisplay) -> bool {
    &&& d.id == row.id
    &&& d.requested_by@ == row.display_name@
    &&& d.status@ == row.status@
    &&& d.position == row.position
    &&& d.added_at == row.added_at
    &&& (d.song is Some <==> row.title is Some)
    &&& d.song matches Some(sum) ==> {
        &&& sum.id == row.song_id
        &&& sum.title@ == row.title->0@
        &&& sum.artist@ == view_or_empty(row.artist)
        &&& sum.album@ == view_or_empty(row.album)
        &&& sum.duration_ms == (match row.duration_ms {
            Some(v) => v,
            None => 0,
        })
        &&& sum.has_lyrics == has_path(row.lyrics_path)
        &&& sum.has_cover == has_path(row.cover_path)
        &&& sum.metadata_revision == 0
    }
}

/// `e` is how the history row is shown.
pub open spec fn shows_history(row: PlayHistoryRow, e: HistoryEntry) -> bool {
    &&& e.id == row.id
    &&& e.song_id == row.song_id
    &&& e.device_user_id == row.device_user_id
    &&& e.requested_by@ == row.display_name@
    &&& e.played_at@ == row.played_at@
    &&& e.song.id == row.song_id
    &&& opt_view(e.song.title) == opt_view(row.title)
    &&& e.song.artist@ == view_or_empty(row.artist)
    &&& opt_view(e.song.album) == opt_view(row.album)
    &&& e.song.duration_ms == row.duration_ms
    &&& e.song.has_lyrics == has_path(row.lyrics_path)
    &&& e.song.has_cover == has_path(row.cover_path)
}

/// A copy of an optional string.
pub fn copy_opt_string(o: &Option<String>) -> (r: Option<String>)
    ensures
        opt_view(r) == opt_view(*o),
{
    match o {
        Some(s) => Some(copy_string(s)),
        None => None,
    }
}

/// The optional string, or an empty one.
pub fn string_or_empty(o: &Option<String>) -> (r: String)
    ensures
        r@ == view_or_empty(*o),
{
    match o {
        Some(s) => copy_string(s),
        None => String::new(),
    }
}

/// Whether an optional path is present and not empty.
pub fn path_present(o: &Option<String>) -> (b: bool)
    ensures
        b == has_path(*o),
{
    match o {
        Some(s) => s.as_str().unicode_len() > 0,
        None => false,
    }
}

/// How one queue row is shown.
pub fn display_item(row: &QueueDisplayRow) -> (d: QueueItemDisplay)
    ensures
        displays(*row, d),
{
    let song = match &row.title {
        Some(t) => Some(
            SongSummary {
                id: row.song_id,
                title: copy_string(t),
                artist: string_or_empty(&row.artist),
                album: string_or_empty(&row.album),
                duration_ms: match row.duration_ms {
                    Some(v) => v,
                    None => 0,
                },
                has_lyrics: path_present(&row.lyrics_path),
                has_cover: path_present(&row.cover_path),
                metadata_revision: 0,
            },
        ),
        None => None,
    };
    QueueItemDisplay {
        id: row.id,
        song,
        requested_by: copy_string(&row.display_name),
        status: copy_string(&row.status),
        position: row.position,
        added_at: row.added_at,
    }
}

/// The queue as listeners see it, one entry per row, in the rows' order.
pub fn get_queue_display(rows: &Vec<QueueDisplayRow>) -> (out: Vec<QueueItemDisplay>)
    ensures
        out.len() == rows.len(),
        forall|i: int| 0 <= i < rows.len() ==> displays(#[trigger] rows@[i], out@[i]),
{
    let mut out: Vec<QueueItemDisplay> = Vec::new();
    let mut i: usize = 0;
    while i < rows.len()
        invariant
            i <= rows.len(),
            out.len() == i,
            forall|j: int| 0 <= j < i ==> displays(#[trigger] rows@[j], out@[j]),
        decreases rows.len() - i,
    {
        out.push(display_item(&rows[i]));
        i += 1;
    }
    out
}

/// How one history row is shown.
pub fn history_entry(row: &PlayHistoryRow) -> (e: HistoryEntry)
    ensures
        shows_history(*row, e),
{
    HistoryEntry {
        id: row.id,
        song_id: row.song_id,
        device_user_id: row.device_user_id,
        song: HistorySong {
            id: row.song_id,
            title: copy_opt_string(&row.title),
            artist: string_or_empty(&row.artist),
            album: copy_opt_string(&row.album),
            duration_ms: row.duration_ms,
            has_lyrics: path_present(&row.lyrics_path),
            has_cover: path_present(&row.cover_path),
        },
        requested_by: copy_string(&row.display_name),
        played_at: copy_string(&row.played_at),
    }
}

/// The recent history as listeners see it, one entry per row, in order.
pub fn get_history(rows: &Vec<PlayHistoryRow>) -> (out: Vec<HistoryEntry>)
    ensures
        out.len() == rows.len(),
        forall|i: int| 0 <= i < rows.len() ==> shows_history(#[trigger] rows@[i], out@[i]),
{
    let mut out: Vec<HistoryEntry> = Vec::new();
    let mut i: usize = 0;
    while i < rows.len()
        invariant
            i <= rows.len(),
            out.len() == i,
            forall|j: int| 0 <= j < i ==> shows_history(#[trigger] rows@[j], out@[j]),
        decreases rows.len() - i,
    {
        out.push(history_entry(&rows[i]));
        i += 1;
    }
    out
}

/// The requests reloaded into the audio executor: one per pending row, in order.
pub fn rehydrate_engine_queue(rows: &Vec<PendingTrackRow>) -> (out: Vec<RequestedTrack>)
    ensures
        out.len() == rows.len(),
        forall|i: int|
            0 <= i < rows.len() ==> {
                let r = #[trigger] rows@[i];
                let t = out@[i];
                &&& t.file_path@ == r.file_path@
                &&& t.song_id == r.song_id
                &&& t.title@ == r.title@
                &&& t.artist@ == r.artist@
                &&& t.duration_ms == r.duration_ms
            },
{
    let mut out: Vec<RequestedTrack> = Vec::new();
    let mut i: usize = 0;
    while i < rows.len()
        invariant
            i <= rows.len(),
            out.len() == i,
            forall|j: int|
                0 <= j < i ==> {
                    let r = #[trigger] rows@[j];
                    let t = out@[j];
                    &&& t.file_path@ == r.file_path@
                    &&& t.song_id == r.song_id
                    &&& t.title@ == r.title@
                    &&& t.artist@ == r.artist@
                    &&& t.duration_ms == r.duration_ms
                },
        decreases rows.len() - i,
    {
        let r = &rows[i];
        out.push(
            RequestedTrack {
                file_path: copy_string(&r.file_path),
                song_id: r.song_id,
                title: copy_string(&r.title),
                artist: copy_string(&r.artist),
                duration_ms: r.duration_ms,
            },
        );
        i += 1;
    }
    out
}

} // verus!
