use radio_backend::error::AppError;
use radio_backend::models::{QueueItem, QueueStatus, Song, WsMessage};
use radio_backend::queue::rules::{
    add_to_queue, check_cooldown, check_rate_limit, check_song_and_cooldown, mark_playing, move_queue_item, purge_song,
    queue_size, remove_queue_item, skip_current, QueueConfig,
};
use radio_backend::queue::table::{
    count_active_queue_items, fetch_max_position_coalesced, fetch_next_pending_item,
    find_current_playing_item, find_queue_item_by_id, get_max_active_position,
    insert_pending_queue_item,
};
use radio_backend::queue::views::{
    get_history, get_queue_display, rehydrate_engine_queue, PendingTrackRow, PlayHistoryRow,
    QueueDisplayRow,
};
use radio_backend::world::WorldCommand;

fn item(id: i64, song_id: i64, status: QueueStatus, position: i32) -> QueueItem {
    QueueItem { id, song_id, device_user_id: 100 + id, status, position }
}

fn config() -> QueueConfig {
    QueueConfig { max_size: 3, max_user_submissions: 3, rate_limit_window_secs: 300, request_cooldown_secs: 60 }
}

fn song(id: i64) -> Song {
    Song { id, title: format!("Song {}", id), artist: "Artist".into(), file_path: format!("/m/{}.mp3", id), duration_ms: 1000 }
}

fn positions(rows: &[QueueItem]) -> Vec<(i64, i32)> {
    rows.iter().map(|r| (r.id, r.position)).collect()
}

fn active_positions_distinct(rows: &[QueueItem]) -> bool {
    let act: Vec<i32> = rows
        .iter()
        .filter(|r| matches!(r.status, QueueStatus::Pending | QueueStatus::Playing))
        .map(|r| r.position)
        .collect();
    let mut sorted = act.clone();
    sorted.sort();
    sorted.dedup();
    sorted.len() == act.len()
}

#[test]
fn cooldown_zero_disables_check() {
    assert!(check_cooldown(Some(5), 0).is_ok());
    assert!(check_cooldown(None, 60).is_ok());
    match check_cooldown(Some(15), 60) {
        Err(AppError::RateLimited(m)) => assert_eq!(
            m,
            "Cooldown active: please wait 45 seconds before requesting another song"
        ),
        other => panic!("unexpected {:?}", other),
    }
    match check_cooldown(Some(-3), 60) {
        Err(AppError::RateLimited(m)) => assert_eq!(
            m,
            "Cooldown active: please wait 60 seconds before requesting another song"
        ),
        other => panic!("unexpected {:?}", other),
    }
    match check_cooldown(Some(90), 60) {
        Err(AppError::RateLimited(m)) => assert_eq!(
            m,
            "Cooldown active: please wait 0 seconds before requesting another song"
        ),
        other => panic!("unexpected {:?}", other),
    }
}

#[test]
fn rate_limit_is_reached_at_max() {
    assert!(!check_rate_limit(2, 3));
    assert!(check_rate_limit(3, 3));
    assert!(check_rate_limit(4, 3));
}

#[test]
fn add_appends_after_last_active_position() {
    let rows = vec![item(1, 10, QueueStatus::Played, 7), item(2, 11, QueueStatus::Playing, 0), item(3, 12, QueueStatus::Pending, 1)];
    let plan = add_to_queue(&rows, Some(song(5)), None, 0, &config()).unwrap();
    assert_eq!(plan.position, 2);
    assert_eq!(plan.size_before, 2);
    assert_eq!(plan.track.song_id, 5);
    assert_eq!(plan.track.file_path, "/m/5.mp3");
    assert_eq!(plan.track.title, "Song 5");
    match plan.broadcast {
        WsMessage::QueueUpdate { action, song_title, requested_by, queue_size } => {
            assert_eq!(action, "added");
            assert_eq!(song_title.as_deref(), Some("Song 5"));
            assert!(requested_by.is_none());
            assert_eq!(queue_size, 3);
        }
        _ => panic!("expected queue_update"),
    }
    let empty: Vec<QueueItem> = vec![item(1, 10, QueueStatus::Played, 4)];
    assert_eq!(add_to_queue(&empty, Some(song(5)), None, 0, &config()).unwrap().position, 0);
}

#[test]
fn add_reports_errors_in_order() {
    let rows = vec![item(1, 10, QueueStatus::Pending, 0), item(2, 11, QueueStatus::Pending, 1), item(3, 12, QueueStatus::Pending, 2)];
    match add_to_queue(&rows, None, Some(1), 9, &config()) {
        Err(AppError::NotFound(m)) => assert_eq!(m, "Song not found"),
        other => panic!("unexpected {:?}", other.err()),
    }
    match add_to_queue(&rows, Some(song(1)), Some(1), 9, &config()) {
        Err(AppError::RateLimited(m)) => assert!(m.starts_with("Cooldown active")),
        other => panic!("unexpected {:?}", other.err()),
    }
    match add_to_queue(&rows, Some(song(1)), None, 3, &config()) {
        Err(AppError::RateLimited(m)) => assert_eq!(m, "You can only submit 3 songs per 300 seconds"),
        other => panic!("unexpected {:?}", other.err()),
    }
    match add_to_queue(&rows, Some(song(1)), None, 0, &config()) {
        Err(AppError::BadRequest(m)) => assert_eq!(m, "Queue is full (max 3 items)"),
        other => panic!("unexpected {:?}", other.err()),
    }
}

#[test]
fn add_then_insert_grows_queue_by_one() {
    let mut rows = vec![item(1, 10, QueueStatus::Pending, 0)];
    let plan = add_to_queue(&rows, Some(song(7)), None, 0, &config()).unwrap();
    insert_pending_queue_item(&mut rows, 2, 7, 55, plan.position);
    assert_eq!(queue_size(&rows), plan.size_before + 1);
    assert!(active_positions_distinct(&rows));
    assert_eq!(get_max_active_position(&rows), Some(1));
}

#[test]
fn move_up_shifts_items_down() {
    let mut rows = vec![
        item(1, 10, QueueStatus::Playing, 0),
        item(2, 11, QueueStatus::Pending, 1),
        item(3, 12, QueueStatus::Pending, 2),
        item(4, 13, QueueStatus::Pending, 3),
    ];
    move_queue_item(&mut rows, 4, 1).unwrap();
    assert_eq!(positions(&rows), vec![(1, 0), (2, 2), (3, 3), (4, 1)]);
    assert!(active_positions_distinct(&rows));
    move_queue_item(&mut rows, 4, 3).unwrap();
    assert_eq!(positions(&rows), vec![(1, 0), (2, 1), (3, 2), (4, 3)]);
}

#[test]
fn move_errors() {
    let mut rows = vec![item(1, 10, QueueStatus::Playing, 0), item(2, 11, QueueStatus::Pending, 1)];
    let before = rows.clone();
    match move_queue_item(&mut rows, 2, -1) {
        Err(AppError::BadRequest(m)) => assert_eq!(m, "Position must be non-negative"),
        other => panic!("unexpected {:?}", other),
    }
    match move_queue_item(&mut rows, 9, 0) {
        Err(AppError::NotFound(m)) => assert_eq!(m, "Queue item not found"),
        other => panic!("unexpected {:?}", other),
    }
    match move_queue_item(&mut rows, 1, 1) {
        Err(AppError::BadRequest(m)) => assert_eq!(m, "Only pending items can be moved"),
        other => panic!("unexpected {:?}", other),
    }
    match move_queue_item(&mut rows, 2, 5) {
        Err(AppError::BadRequest(m)) => assert_eq!(m, "Position 5 exceeds max queue position 1"),
        other => panic!("unexpected {:?}", other),
    }
    assert!(move_queue_item(&mut rows, 2, 1).is_ok());
    assert_eq!(rows, before);
}

#[test]
fn remove_marks_skipped_and_closes_gap() {
    let mut rows = vec![
        item(1, 10, QueueStatus::Playing, 0),
        item(2, 11, QueueStatus::Pending, 1),
        item(3, 12, QueueStatus::Pending, 2),
    ];
    let size = queue_size(&rows);
    assert_eq!(remove_queue_item(&mut rows, 2).unwrap(), 11);
    assert_eq!(rows[1].status, QueueStatus::Skipped);
    assert_eq!(positions(&rows), vec![(1, 0), (2, 1), (3, 1)]);
    assert_eq!(queue_size(&rows), size - 1);
    assert!(active_positions_distinct(&rows));
    match remove_queue_item(&mut rows, 1) {
        Err(AppError::BadRequest(m)) => assert_eq!(m, "Cannot remove the currently playing item; use skip instead"),
        other => panic!("unexpected {:?}", other),
    }
    match remove_queue_item(&mut rows, 42) {
        Err(AppError::NotFound(m)) => assert_eq!(m, "Queue item not found"),
        other => panic!("unexpected {:?}", other),
    }
}

#[test]
fn skip_marks_playing_item_played() {
    let mut rows = vec![item(1, 10, QueueStatus::Pending, 1), item(2, 11, QueueStatus::Playing, 0)];
    let out = skip_current(&mut rows);
    assert_eq!(out.skipped_item_id, Some(2));
    assert_eq!(out.command, WorldCommand::Skip);
    assert_eq!(rows[1].status, QueueStatus::Played);
    assert_eq!(rows[0].status, QueueStatus::Pending);
    match out.notice {
        WsMessage::Notice { message, level } => {
            assert_eq!(message, "Admin skipped the current track");
            assert_eq!(level, "info");
        }
        _ => panic!("expected notice"),
    }
    let again = skip_current(&mut rows);
    assert_eq!(again.skipped_item_id, None);
}

#[test]
fn mark_playing_advances_and_records_history() {
    let mut rows = vec![
        item(1, 10, QueueStatus::Playing, 0),
        item(2, 11, QueueStatus::Pending, 2),
        item(3, 11, QueueStatus::Pending, 1),
    ];
    let h = mark_playing(&mut rows, 11).unwrap();
    assert_eq!(h.song_id, 11);
    assert_eq!(h.device_user_id, 103);
    assert_eq!(rows[0].status, QueueStatus::Played);
    assert_eq!(rows[1].status, QueueStatus::Pending);
    assert_eq!(rows[2].status, QueueStatus::Playing);
    assert_eq!(rows.iter().filter(|r| r.status == QueueStatus::Playing).count(), 1);
    let none = mark_playing(&mut rows, 99);
    assert!(none.is_none());
    assert_eq!(rows[2].status, QueueStatus::Played);
}

#[test]
fn purge_removes_all_items_of_song() {
    let mut rows = vec![item(1, 10, QueueStatus::Pending, 0), item(2, 11, QueueStatus::Pending, 1), item(3, 10, QueueStatus::Played, 2)];
    purge_song(&mut rows, 10);
    assert_eq!(positions(&rows), vec![(2, 1)]);
}

#[test]
fn table_queries() {
    let rows = vec![
        item(1, 10, QueueStatus::Played, 9),
        item(2, 11, QueueStatus::Pending, 4),
        item(3, 12, QueueStatus::Playing, 2),
        item(4, 13, QueueStatus::Pending, 3),
    ];
    assert_eq!(count_active_queue_items(&rows), 3);
    assert_eq!(get_max_active_position(&rows), Some(4));
    assert_eq!(fetch_max_position_coalesced(&rows), 4);
    assert_eq!(fetch_max_position_coalesced(&vec![]), 0);
    assert_eq!(find_queue_item_by_id(&rows, 3).map(|r| r.song_id), Some(12));
    assert_eq!(find_current_playing_item(&rows).map(|r| r.id), Some(3));
    assert_eq!(fetch_next_pending_item(&rows).map(|r| r.id), Some(4));
}

#[test]
fn views_map_rows() {
    let added_at = chrono::DateTime::from_timestamp(0, 0).unwrap().naive_utc();
    let rows = vec![
        QueueDisplayRow {
            id: 1, song_id: 10, device_user_id: 5, status: "pending".into(), position: 0, added_at,
            title: Some("T".into()), artist: None, album: Some("Al".into()), duration_ms: None,
            lyrics_path: Some("".into()), cover_path: Some("c.jpg".into()), display_name: "mika".into(),
        },
        QueueDisplayRow {
            id: 2, song_id: 11, device_user_id: 5, status: "playing".into(), position: 1, added_at,
            title: None, artist: None, album: None, duration_ms: Some(5), lyrics_path: None,
            cover_path: None, display_name: "unknown".into(),
        },
    ];
    let d = get_queue_display(&rows);
    assert_eq!(d.len(), 2);
    let s = d[0].song.as_ref().unwrap();
    assert_eq!(s.id, 10);
    assert_eq!(s.artist, "");
    assert_eq!(s.album, "Al");
    assert_eq!(s.duration_ms, 0);
    assert!(!s.has_lyrics);
    assert!(s.has_cover);
    assert_eq!(d[0].requested_by, "mika");
    assert!(d[1].song.is_none());
    assert_eq!(d[1].status, "playing");

    let h = get_history(&vec![PlayHistoryRow {
        id: 3, song_id: 12, device_user_id: None, played_at: "2024-01-01 00:00:00".into(),
        title: Some("X".into()), artist: Some("Y".into()), album: None, duration_ms: Some(9),
        lyrics_path: Some("l.lrc".into()), cover_path: None, display_name: "system".into(),
    }]);
    assert_eq!(h[0].song_id, 12);
    assert_eq!(h[0].song.id, 12);
    assert_eq!(h[0].song.title.as_deref(), Some("X"));
    assert!(h[0].song.has_lyrics);
    assert!(!h[0].song.has_cover);
    assert_eq!(h[0].requested_by, "system");

    let t = rehydrate_engine_queue(&vec![PendingTrackRow {
        file_path: "/a.mp3".into(), song_id: 1, title: "A".into(), artist: "B".into(), duration_ms: 3,
    }]);
    assert_eq!(t[0].file_path, "/a.mp3");
    assert_eq!(t[0].song_id, 1);
}

#[test]
fn moving_back_restores_every_row() {
    let original = vec![
        item(1, 10, QueueStatus::Playing, 0),
        item(2, 11, QueueStatus::Pending, 1),
        item(3, 12, QueueStatus::Pending, 2),
        item(4, 13, QueueStatus::Pending, 3),
        item(5, 14, QueueStatus::Played, 0),
    ];
    for (id, from, to) in [(2, 1, 3), (4, 3, 1), (3, 2, 0)] {
        let mut rows = original.clone();
        move_queue_item(&mut rows, id, to).unwrap();
        assert_ne!(rows, original);
        move_queue_item(&mut rows, id, from).unwrap();
        assert_eq!(rows, original);
    }
}

#[test]
fn song_and_cooldown_are_checked_first() {
    match check_song_and_cooldown(&None, Some(5), 60) {
        Err(AppError::NotFound(m)) => assert_eq!(m, "Song not found"),
        _ => panic!("expected not found"),
    }
    match check_song_and_cooldown(&Some(song(1)), Some(5), 60) {
        Err(AppError::RateLimited(m)) => {
            assert_eq!(m, "Cooldown active: please wait 55 seconds before requesting another song")
        }
        _ => panic!("expected cooldown"),
    }
    assert!(check_song_and_cooldown(&Some(song(1)), None, 60).is_ok());
    assert!(check_song_and_cooldown(&Some(song(1)), Some(5), 0).is_ok());
}

#[test]
fn refused_requests_need_no_free_position() {
    let rows = vec![item(1, 10, QueueStatus::Pending, i32::MAX)];
    match add_to_queue(&rows, None, None, 0, &config()) {
        Err(AppError::NotFound(_)) => {}
        _ => panic!("expected not found"),
    }
    let full = QueueConfig { max_size: 1, ..config() };
    match add_to_queue(&rows, Some(song(2)), None, 0, &full) {
        Err(AppError::BadRequest(m)) => assert_eq!(m, "Queue is full (max 1 items)"),
        _ => panic!("expected full"),
    }
}
