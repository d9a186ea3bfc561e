use radio_backend::poller::engine_poller_step;
use radio_backend::models::{NowPlaying, PlaybackStatus, WsMessage};

fn notice(m: &str) -> WsMessage {
    WsMessage::Notice { message: m.into(), level: "info".into() }
}

fn playing(position_ms: i64) -> NowPlaying {
    NowPlaying {
        song: None,
        position_ms,
        duration_ms: 1000,
        lyrics_line: None,
        lyrics_text: None,
        started_at: None,
        stream_url: "/stream".into(),
        file_url: None,
        cover_url: None,
    }
}

fn text(m: &WsMessage) -> String {
    match m {
        WsMessage::Notice { message, .. } => message.clone(),
        _ => String::new(),
    }
}

#[test]
fn playback_is_stored_even_without_listeners() {
    let step = engine_poller_step(0, Some(1), Some(2), notice("changed"), notice("progress"), playing(5));
    assert_eq!(step.current_playback.position_ms, 5);
    assert_eq!(step.last_song, Some(2));
    assert!(!step.store_full_snapshot);
    assert!(step.frames.is_empty());
}

#[test]
fn track_change_goes_before_progress() {
    let step = engine_poller_step(3, Some(1), Some(2), notice("changed"), notice("progress"), playing(5));
    assert!(step.store_full_snapshot);
    let texts: Vec<String> = step.frames.iter().map(text).collect();
    assert_eq!(texts, vec!["changed", "progress"]);
    let same = engine_poller_step(3, Some(2), Some(2), notice("changed"), notice("progress"), playing(6));
    let texts: Vec<String> = same.frames.iter().map(text).collect();
    assert_eq!(texts, vec!["progress"]);
    let stopped = engine_poller_step(1, Some(2), None, notice("changed"), notice("progress"), playing(0));
    assert_eq!(stopped.frames.len(), 2);
    let _ = PlaybackStatus::Playing;
}
