//! What the playback poller does on each tick.
use crate::models::{NowPlaying, WsMessage};
use vstd::prelude::*;

verus! {

/// What one poller tick does.
pub struct PollerStep {
    /// The authoritative playback to store, on every tick.
    pub current_playback: NowPlaying,
    /// The song to compare the next tick against.
    pub last_song: Option<i64>,
    /// Whether the latest full frame is kept for listeners that join later.
    pub store_full_snapshot: bool,
    /// Frames to broadcast, in order.
    pub frames: Vec<WsMessage>,
}

/// One tick. The playback is stored whether or not anyone listens. With no
/// listener nothing is sent; otherwise the latest full frame is kept, and
/// when the song differs from the last tick's the track-change event goes out
/// before the progress frame.
pub fn engine_poller_step(
    receiver_count: usize,
    last_song: Option<i64>,
    current_song: Option<i64>,
    track_event: WsMessage,
    enriched: WsMessage,
    now_playing: NowPlaying,
) -> (r: PollerStep)
    ensures
        r.current_playback == now_playing,
        r.last_song == current_song,
        receiver_count == 0 ==> !r.store_full_snapshot && r.frames@.len() == 0,
        receiver_count > 0 ==> r.store_full_snapshot && r.frames@ == if last_song != current_song {
            seq![track_event, enriched]
        } else {
            seq![enriched]
        },
{
    let mut frames: Vec<WsMessage> = Vec::new();
    if receiver_count == 0 {
        return PollerStep { current_playback: now_playing, last_song: current_song, store_full_snapshot: false, frames };
    }
    let changed = match (last_song, current_song) {
        (Some(a), Some(b)) => a != b,
        (None, None) => false,
        _ => true,
    };
    if changed {
        frames.push(track_event);
    }
    frames.push(enriched);
    PollerStep { current_playback: now_playing, last_song: current_song, store_full_snapshot: true, frames }
}

} // verus!
