use radio_backend::models::{
    AudioCommandType, NowPlaying, PlaybackState, PlaybackStatus, SongSummary, WsMessage,
};
use radio_backend::queue::rules::QueueConfig;
use radio_backend::world::{
    get_or_create_world_id, playback_from_ws, sorted_unique, AppConfig, AppState,
    AudioEngineConfig, DeviceConfig, ListenerSession, ServerConfig, StationConfig,
    WorldCommand, WorldCommandDispatcher, WorldPlayback, WorldRuntime, WorldState,
};
use std::sync::Arc;

fn state(listeners: &[&str]) -> AppState {
    AppState {
        config: AppConfig {
            station: StationConfig { name: "Rakuraku FM".into(), short_name: "RFM".into() },
            server: ServerConfig { port: 2241, base_path: "/".into() },
            audio_engine: AudioEngineConfig { media_path: "/srv/media".into() },
            device: DeviceConfig { cookie_max_age_days: 365 },
            queue: QueueConfig {
                max_size: 50,
                max_user_submissions: 3,
                rate_limit_window_secs: 300,
                request_cooldown_secs: 60,
            },
        },
        world_id: "world-1".into(),
        listeners: listeners
            .iter()
            .map(|n| ListenerSession { display_name: n.to_string() })
            .collect(),
    }
}

#[test]
fn command_translation_is_lossless() {
    assert!(matches!(AudioCommandType::from(WorldCommand::Skip), AudioCommandType::Skip));
    assert!(matches!(AudioCommandType::from(WorldCommand::Next), AudioCommandType::Next));
    assert!(matches!(AudioCommandType::from(WorldCommand::Prev), AudioCommandType::Prev));
    assert!(matches!(AudioCommandType::from(WorldCommand::Play), AudioCommandType::Play));
    assert!(matches!(AudioCommandType::from(WorldCommand::Stop), AudioCommandType::Stop));
    assert!(matches!(
        AudioCommandType::from(WorldCommand::ReloadQueue),
        AudioCommandType::ReloadQueue
    ));
}

#[test]
fn playback_song_id_none_maps_to_minus_one() {
    let ps = PlaybackState { song_id: None, title: "Fallback".into(), ..Default::default() };
    let wp = WorldPlayback::from_engine(&ps);
    assert_eq!(wp.song_id, -1);
    assert_eq!(wp.title, "Fallback");
}

#[test]
fn playback_song_id_some_preserved() {
    let ps = PlaybackState { song_id: Some(64), ..Default::default() };
    assert_eq!(WorldPlayback::from_engine(&ps).song_id, 64);
}

#[test]
fn playback_from_ws_roundtrip() {
    let msg = WsMessage::PlaybackState {
        song_id: 7,
        title: "T".into(),
        artist: "A".into(),
        position_ms: 1000,
        duration_ms: 2000,
        lyrics_line: None,
        lyrics_lines: None,
        status: PlaybackStatus::Playing,
        stream_url: "/stream".into(),
        file_url: None,
        cover_url: None,
        timestamp_ms: 42,
    };
    let wp = playback_from_ws(&msg).expect("playback_state → Some");
    assert_eq!(wp.song_id, 7);
    assert_eq!(wp.position_ms, 1000);
    assert!(matches!(wp.status, PlaybackStatus::Playing));
}

#[test]
fn playback_from_other_message_is_none() {
    let msg = WsMessage::Ping { timestamp: 5 };
    assert!(playback_from_ws(&msg).is_none());
}

fn now_playing(song: Option<(i64, &str, &str)>, position_ms: i64, duration_ms: i64) -> NowPlaying {
    NowPlaying {
        song: song.map(|(id, t, a)| SongSummary {
            id,
            title: t.into(),
            artist: a.into(),
            album: String::new(),
            duration_ms,
            has_lyrics: false,
            has_cover: false,
            metadata_revision: 0,
        }),
        position_ms,
        duration_ms,
        lyrics_line: None,
        lyrics_text: None,
        started_at: None,
        stream_url: "/old".into(),
        file_url: None,
        cover_url: None,
    }
}

#[test]
fn now_playing_status_is_derived_from_progress() {
    let wp = WorldPlayback::from_now_playing(&now_playing(Some((3, "S", "B")), 10, 100));
    assert_eq!(wp.song_id, 3);
    assert_eq!(wp.title, "S");
    assert_eq!(wp.artist, "B");
    assert_eq!(wp.status, PlaybackStatus::Playing);
    let stopped = WorldPlayback::from_now_playing(&now_playing(None, 0, 0));
    assert_eq!(stopped.song_id, -1);
    assert_eq!(stopped.title, "");
    assert_eq!(stopped.status, PlaybackStatus::Stopped);
    let negative = WorldPlayback::from_now_playing(&now_playing(None, -1, 100));
    assert_eq!(negative.status, PlaybackStatus::Stopped);
}

#[test]
fn snapshot_sorts_and_dedups_player_names() {
    let st = state(&["mika", "aoi", "mika", "Zed", "aoi"]);
    let ps = PlaybackState::default();
    let ws = WorldState::snapshot(&st, &None, &ps, None);
    assert_eq!(ws.players.count, 5);
    assert_eq!(ws.players.names, vec!["Zed".to_string(), "aoi".to_string(), "mika".to_string()]);
    assert_eq!(ws.playlist.size, 0);
    assert_eq!(ws.identity.name, "Rakuraku FM");
    assert_eq!(ws.identity.world_id.as_deref(), Some("world-1"));
    let ws2 = WorldState::snapshot(&st, &Some(now_playing(Some((9, "X", "Y")), 5, 50)), &ps, Some(4));
    assert_eq!(ws2.playback.song_id, 9);
    assert_eq!(ws2.playlist.size, 4);
}

#[test]
fn sorted_unique_orders_by_code_point() {
    let names = vec!["b".to_string(), "a".to_string(), "ab".to_string(), "a".to_string(), "房主".to_string()];
    assert_eq!(
        sorted_unique(&names),
        vec!["a".to_string(), "ab".to_string(), "b".to_string(), "房主".to_string()]
    );
}

#[test]
fn dispatch_sends_command_without_song() {
    let rt = WorldRuntime::new(Arc::new(state(&[])));
    let c = rt.dispatch(WorldCommand::Prev);
    assert_eq!(c.cmd_type, AudioCommandType::Prev);
    assert!(c.song_id.is_none());
    assert!(c.file_path.is_none());
    let d = WorldCommandDispatcher::new().dispatch(WorldCommand::ReloadQueue);
    assert_eq!(d.cmd_type, AudioCommandType::ReloadQueue);
}

#[test]
fn now_playing_replaces_stream_url_or_falls_back() {
    let rt = WorldRuntime::new(Arc::new(state(&[])));
    let np = rt.now_playing(Some(now_playing(Some((1, "a", "b")), 5, 10)), 0, 0, "/stream".into());
    assert_eq!(np.stream_url, "/stream");
    assert_eq!(np.position_ms, 5);
    assert!(np.song.is_some());
    let fallback = rt.now_playing(None, 77, 88, "/s2".into());
    assert!(fallback.song.is_none());
    assert_eq!(fallback.position_ms, 77);
    assert_eq!(fallback.duration_ms, 88);
    assert_eq!(fallback.stream_url, "/s2");
}

#[test]
fn world_id_is_kept_or_created() {
    let (id, new) = get_or_create_world_id(Some("abc".into()));
    assert_eq!(id, "abc");
    assert!(!new);
    let (id2, new2) = get_or_create_world_id(None);
    assert!(new2);
    assert_eq!(id2.len(), 36);
    assert_eq!(id2.as_bytes()[14], b'4');
}

#[test]
fn stored_world_id_is_kept_on_the_next_start() {
    let (first, created) = get_or_create_world_id(None);
    assert!(created);
    let (second, created_again) = get_or_create_world_id(Some(first.clone()));
    assert!(!created_again);
    assert_eq!(second, first);
}
