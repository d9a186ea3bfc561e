//! Playlist rules: submission limits, capacity, reordering, removal,
//! skipping and the views handed to listeners.
use crate::error::{fails_with, AppError};
use crate::models::{QueueItem, QueueStatus, RequestedTrack, Song, WsMessage};
use crate::queue::laws::law_start_finishes_only_playing_rows;
use crate::queue::table::{
    count_active, count_active_queue_items, delete_song_queue_items, fetch_max_position_coalesced,
    find_current_playing_item, find_item, find_queue_item_by_id, finished, get_max_active_position,
    is_first_least, is_playing, with_position, lemma_without_song, mark_item_skipped_and_shift,
    mark_item_skipped_as_played, max_active, max_active_or_zero, move_queue_item_positions, moved,
    next_position, pending_of, skip_played, skipped_and_shifted, with_status, without_song,
    advance_playing_and_record_history, PlayHistoryInsert,
};
use crate::text::{
    decimal, push_decimal, push_signed_decimal, push_str, signed_decimal, string_from,
};
use crate::world::WorldCommand;
use vstd::prelude::*;

verus! {

/// The queue limits of the station.
pub struct QueueConfig {
    /// Most pending or playing items the queue holds.
    pub max_size: usize,
    /// Most submissions one device may make within the rate window.
    pub max_user_submissions: usize,
    /// Length of the rate window in seconds.
    pub rate_limit_window_secs: u64,
    /// Pause a device must keep between two requests, in seconds; 0 disables it.
    pub request_cooldown_secs: u64,
}

// ---------------------------------------------------------------------------
// Messages
// ---------------------------------------------------------------------------

pub open spec fn cooldown_message(remaining: nat) -> Seq<char> {
    "Cooldown active: please wait "@ + decimal(remaining) + " seconds before requesting another song"@
}

pub open spec fn rate_limit_message(max_subs: nat, window: nat) -> Seq<char> {
    "You can only submit "@ + decimal(max_subs) + " songs per "@ + decimal(window) + " seconds"@
}

pub open spec fn queue_full_message(max_size: nat) -> Seq<char> {
    "Queue is full (max "@ + decimal(max_size) + " items)"@
}

pub open spec fn position_exceeds_message(new: int, max: int) -> Seq<char> {
    "Position "@ + signed_decimal(new) + " exceeds max queue position "@ + signed_decimal(max)
}

/// Seconds left of the cooldown after `elapsed` seconds (negative counts as 0).
pub open spec fn cooldown_remaining(cooldown_secs: u64, elapsed: i64) -> nat {
    let e: int = if elapsed < 0 {
        0
    } else {
        elapsed as int
    };
    if e >= cooldown_secs {
        0
    } else {
        (cooldown_secs - e) as nat
    }
}

/// The listeners' notice that a song was added.
pub open spec fn is_added_notice(m: WsMessage, title: Seq<char>, size: int) -> bool {
    match m {
        WsMessage::QueueUpdate { action, song_title, requested_by, queue_size } => {
            &&& action@ == "added"@
            &&& song_title is Some
            &&& song_title->0@ == title
            &&& requested_by is None
            &&& queue_size == size
        },
        _ => false,
    }
}

/// A notice with this message and level.
pub open spec fn is_notice(m: WsMessage, message: Seq<char>, level: Seq<char>) -> bool {
    match m {
        WsMessage::Notice { message: msg, level: lvl } => msg@ == message && lvl@ == level,
        _ => false,
    }
}

// ---------------------------------------------------------------------------
// Submission limits
// ---------------------------------------------------------------------------

/// Cooldown check. `elapsed` is the age in seconds of the device's last
/// request when that request falls inside the cooldown window, else `None`.
pub fn check_cooldown(elapsed: Option<i64>, cooldown_secs: u64) -> (r: Result<(), AppError>)
    ensures
        r is Ok <==> (cooldown_secs == 0 || elapsed is None),
        r matches Err(e) ==> e.is_rate_limited(
            cooldown_message(cooldown_remaining(cooldown_secs, elapsed->0)),
        ),
{
    if cooldown_secs == 0 {
        return Ok(());
    }
    match elapsed {
        None => Ok(()),
        Some(e) => {
            let e_pos: u64 = if e < 0 {
                0
            } else {
                e as u64
            };
            let remaining = cooldown_secs.saturating_sub(e_pos);
            let mut m = string_from("Cooldown active: please wait ");
            push_decimal(&mut m, remaining);
            push_str(&mut m, " seconds before requesting another song");
            Err(AppError::RateLimited(m))
        },
    }
}

/// Whether a device that made `recent_submissions` within the window has hit the limit.
pub fn check_rate_limit(recent_submissions: usize, max_subs: usize) -> (limited: bool)
    ensures
        limited == (recent_submissions >= max_subs),
{
    recent_submissions >= max_subs
}

/// Current queue size: pending plus playing items.
pub fn queue_size(rows: &Vec<QueueItem>) -> (n: usize)
    ensures
        n == count_active(rows@),
{
    count_active_queue_items(rows)
}

// ---------------------------------------------------------------------------
// Adding
// ---------------------------------------------------------------------------

/// The first two checks of a request, in order: the song exists, and the
/// device is not cooling down.
pub fn check_song_and_cooldown(song: &Option<Song>, cooldown_elapsed: Option<i64>, cooldown_secs: u64) -> (r: Result<
    (),
    AppError,
>)
    ensures
        song is None ==> fails_with(r, |e: AppError| e.is_not_found("Song not found"@)),
        song is Some && cooldown_secs != 0 && cooldown_elapsed is Some ==> fails_with(
            r,
            |e: AppError| e.is_rate_limited(cooldown_message(cooldown_remaining(cooldown_secs, cooldown_elapsed->0))),
        ),
        r is Ok <==> (song is Some && (cooldown_secs == 0 || cooldown_elapsed is None)),
{
    if song.is_none() {
        return Err(AppError::NotFound(string_from("Song not found")));
    }
    check_cooldown(cooldown_elapsed, cooldown_secs)
}

/// What adding a song to the queue does once admitted.
pub struct AddPlan {
    /// Position of the new pending item.
    pub position: i32,
    /// The request handed to the audio executor.
    pub track: RequestedTrack,
    /// Queue size before the addition.
    pub size_before: usize,
    /// Notice for the listeners.
    pub broadcast: WsMessage,
}

/// Admits a request for `song` (when it exists) from a device, given the
/// device's cooldown state and recent submission count, and the queue.
/// Errors, in order: unknown song, cooldown, rate limit, full queue.
pub fn add_to_queue(
    rows: &Vec<QueueItem>,
    song: Option<Song>,
    cooldown_elapsed: Option<i64>,
    recent_submissions: usize,
    config: &QueueConfig,
) -> (r: Result<AddPlan, AppError>)
    requires
        song is Some && (config.request_cooldown_secs == 0 || cooldown_elapsed is None) && recent_submissions
            < config.max_user_submissions && count_active(rows@) < config.max_size ==> max_active(rows@) != Some(
            i32::MAX,
        ),
    ensures
        song is None ==> fails_with(r, |e: AppError| e.is_not_found("Song not found"@)),
        song is Some && config.request_cooldown_secs != 0 && cooldown_elapsed is Some ==> fails_with(
            r,
            |e: AppError|
                e.is_rate_limited(
                    cooldown_message(cooldown_remaining(config.request_cooldown_secs, cooldown_elapsed->0)),
                ),
        ),
        song is Some && (config.request_cooldown_secs == 0 || cooldown_elapsed is None) && recent_submissions
            >= config.max_user_submissions ==> fails_with(
            r,
            |e: AppError|
                e.is_rate_limited(
                    rate_limit_message(config.max_user_submissions as nat, config.rate_limit_window_secs as nat),
                ),
        ),
        song is Some && (config.request_cooldown_secs == 0 || cooldown_elapsed is None) && recent_submissions
            < config.max_user_submissions && count_active(rows@) >= config.max_size ==> fails_with(
            r,
            |e: AppError| e.is_bad_request(queue_full_message(config.max_size as nat)),
        ),
        r is Ok <==> (song is Some && (config.request_cooldown_secs == 0 || cooldown_elapsed is None)
            && recent_submissions < config.max_user_submissions && count_active(rows@) < config.max_size),
        r matches Ok(plan) ==> {
            let s = song->0;
            &&& plan.position == next_position(rows@)
            &&& plan.size_before == count_active(rows@)
            &&& plan.track.file_path@ == s.file_path@
            &&& plan.track.song_id == s.id
            &&& plan.track.title@ == s.title@
            &&& plan.track.artist@ == s.artist@
            &&& plan.track.duration_ms == s.duration_ms
            &&& is_added_notice(plan.broadcast, s.title@, count_active(rows@) + 1int)
        },
{
    let song = match song {
        None => {
            return Err(AppError::NotFound(string_from("Song not found")));
        },
        Some(s) => s,
    };
    check_cooldown(cooldown_elapsed, config.request_cooldown_secs)?;
    if check_rate_limit(recent_submissions, config.max_user_submissions) {
        let mut m = string_from("You can only submit ");
        push_decimal(&mut m, config.max_user_submissions as u64);
        push_str(&mut m, " songs per ");
        push_decimal(&mut m, config.rate_limit_window_secs);
        push_str(&mut m, " seconds");
        return Err(AppError::RateLimited(m));
    }
    let current_size = queue_size(rows);
    if current_size >= config.max_size {
        let mut m = string_from("Queue is full (max ");
        push_decimal(&mut m, config.max_size as u64);
        push_str(&mut m, " items)");
        return Err(AppError::BadRequest(m));
    }
    let position = match get_max_active_position(rows) {
        Some(p) => p + 1,
        None => 0,
    };
    let title_for_notice = song.title.clone();
    let track = RequestedTrack {
        file_path: song.file_path,
        song_id: song.id,
        title: song.title,
        artist: song.artist,
        duration_ms: song.duration_ms,
    };
    let broadcast = WsMessage::QueueUpdate {
        action: string_from("added"),
        song_title: Some(title_for_notice),
        requested_by: None,
        queue_size: current_size + 1,
    };
    Ok(AddPlan { position, track, size_before: current_size, broadcast })
}

// ---------------------------------------------------------------------------
// Reordering and removal
// ---------------------------------------------------------------------------

/// Moves a pending item to `new_position`, closing up the items in between.
/// Errors, in order: negative position, unknown item, item not pending,
/// position beyond the last active one. Moving to the current position
/// changes nothing.
pub fn move_queue_item(rows: &mut Vec<QueueItem>, item_id: i64, new_position: i32) -> (r: Result<(), AppError>)
    ensures
        new_position < 0 ==> fails_with(r, |e: AppError| e.is_bad_request("Position must be non-negative"@)),
        new_position >= 0 && find_item(old(rows)@, item_id) is None ==> fails_with(
            r,
            |e: AppError| e.is_not_found("Queue item not found"@),
        ),
        new_position >= 0 && find_item(old(rows)@, item_id) is Some && find_item(old(rows)@, item_id)->0.status
            != QueueStatus::Pending ==> fails_with(
            r,
            |e: AppError| e.is_bad_request("Only pending items can be moved"@),
        ),
        new_position >= 0 && find_item(old(rows)@, item_id) is Some && find_item(old(rows)@, item_id)->0.status
            == QueueStatus::Pending && find_item(old(rows)@, item_id)->0.position != new_position && new_position
            > max_active_or_zero(old(rows)@) ==> fails_with(
            r,
            |e: AppError|
                e.is_bad_request(
                    position_exceeds_message(new_position as int, max_active_or_zero(old(rows)@) as int),
                ),
        ),
        r is Ok <==> (new_position >= 0 && find_item(old(rows)@, item_id) is Some && find_item(
            old(rows)@,
            item_id,
        )->0.status == QueueStatus::Pending && (find_item(old(rows)@, item_id)->0.position == new_position
            || new_position <= max_active_or_zero(old(rows)@))),
        r is Err ==> final(rows)@ == old(rows)@,
        r is Ok ==> {
            let it = find_item(old(rows)@, item_id)->0;
            if it.position == new_position {
                final(rows)@ == old(rows)@
            } else {
                final(rows)@ == old(rows)@.map_values(
                    |x: QueueItem| moved(x, item_id, it.position, new_position),
                )
            }
        },
{
    if new_position < 0 {
        return Err(AppError::BadRequest(string_from("Position must be non-negative")));
    }
    let item = match find_queue_item_by_id(rows, item_id) {
        None => {
            return Err(AppError::NotFound(string_from("Queue item not found")));
        },
        Some(it) => it,
    };
    if item.status != QueueStatus::Pending {
        return Err(AppError::BadRequest(string_from("Only pending items can be moved")));
    }
    let old_position = item.position;
    if old_position == new_position {
        return Ok(());
    }
    let max_pos = fetch_max_position_coalesced(rows);
    if new_position > max_pos {
        let mut m = string_from("Position ");
        push_signed_decimal(&mut m, new_position as i64);
        push_str(&mut m, " exceeds max queue position ");
        push_signed_decimal(&mut m, max_pos as i64);
        return Err(AppError::BadRequest(m));
    }
    move_queue_item_positions(rows, item_id, old_position, new_position);
    Ok(())
}

/// Removes an item that is not playing: it becomes skipped and the active
/// items after it move up. Returns the removed item's song, which the audio
/// executor must drop from its requests.
pub fn remove_queue_item(rows: &mut Vec<QueueItem>, item_id: i64) -> (r: Result<i64, AppError>)
    ensures
        find_item(old(rows)@, item_id) is None ==> fails_with(
            r,
            |e: AppError| e.is_not_found("Queue item not found"@),
        ),
        find_item(old(rows)@, item_id) is Some && find_item(old(rows)@, item_id)->0.status == QueueStatus::Playing
            ==> fails_with(
            r,
            |e: AppError| e.is_bad_request("Cannot remove the currently playing item; use skip instead"@),
        ),
        r is Ok <==> (find_item(old(rows)@, item_id) is Some && find_item(old(rows)@, item_id)->0.status
            != QueueStatus::Playing),
        r is Err ==> final(rows)@ == old(rows)@,
        r matches Ok(song_id) ==> {
            let it = find_item(old(rows)@, item_id)->0;
            &&& song_id == it.song_id
            &&& final(rows)@ == old(rows)@.map_values(
                |x: QueueItem| skipped_and_shifted(x, item_id, it.position),
            )
        },
        r is Ok ==> forall|j: int|
            0 <= j < old(rows)@.len() && (#[trigger] old(rows)@[j]).id != item_id ==> if old(rows)@[j].status.is_active()
                && old(rows)@[j].position > find_item(old(rows)@, item_id)->0.position {
                final(rows)@[j] == with_position(old(rows)@[j], (old(rows)@[j].position - 1) as i32)
            } else {
                final(rows)@[j] == old(rows)@[j]
            },
{
    let item = match find_queue_item_by_id(rows, item_id) {
        None => {
            return Err(AppError::NotFound(string_from("Queue item not found")));
        },
        Some(it) => it,
    };
    if item.status == QueueStatus::Playing {
        return Err(
            AppError::BadRequest(string_from("Cannot remove the currently playing item; use skip instead")),
        );
    }
    mark_item_skipped_and_shift(rows, item_id, item.position);
    Ok(item.song_id)
}

/// What skipping the current track does.
pub struct SkipOutcome {
    /// The playing item that was marked played, if one was playing.
    pub skipped_item_id: Option<i64>,
    /// The command for the audio executor.
    pub command: WorldCommand,
    /// Notice for the listeners.
    pub notice: WsMessage,
}

/// Skips the current track: the playing item with the least position (if
/// any) becomes played, the executor is told to skip, and listeners are told.
pub fn skip_current(rows: &mut Vec<QueueItem>) -> (r: SkipOutcome)
    ensures
        r.command == WorldCommand::Skip,
        is_notice(r.notice, "Admin skipped the current track"@, "info"@),
        r.skipped_item_id is None ==> final(rows)@ == old(rows)@ && forall|j: int|
            0 <= j < old(rows)@.len() ==> !is_playing()(#[trigger] old(rows)@[j]),
        r.skipped_item_id matches Some(id) ==> exists|k: int| {
            &&& is_first_least(old(rows)@, k, is_playing())
            &&& old(rows)@[k].id == id
            &&& final(rows)@[k].status == QueueStatus::Played
            &&& final(rows)@ == old(rows)@.map_values(|x: QueueItem| skip_played(x, id))
        },
        r.skipped_item_id matches Some(id) ==> forall|j: int|
            0 <= j < old(rows)@.len() && (#[trigger] old(rows)@[j]).id != id ==> final(rows)@[j] == old(rows)@[j],
{
    let playing = find_current_playing_item(rows);
    let skipped_item_id = match playing {
        Some(item) => {
            mark_item_skipped_as_played(rows, item.id);
            Some(item.id)
        },
        None => None,
    };
    SkipOutcome {
        skipped_item_id,
        command: WorldCommand::Skip,
        notice: WsMessage::Notice {
            message: string_from("Admin skipped the current track"),
            level: string_from("info"),
        },
    }
}

/// Called when the audio executor starts `song_id`.
pub fn mark_playing(rows: &mut Vec<QueueItem>, song_id: i64) -> (h: Option<PlayHistoryInsert>)
    ensures
        ({
            let f = old(rows)@.map_values(|r: QueueItem| finished(r));
            match h {
                None => {
                    &&& final(rows)@ == f
                    &&& forall|j: int| 0 <= j < f.len() ==> !pending_of(song_id)(#[trigger] f[j])
                },
                Some(ins) => exists|k: int| {
                    &&& is_first_least(f, k, pending_of(song_id))
                    &&& final(rows)@ == f.update(k, with_status(f[k], QueueStatus::Playing))
                    &&& ins.song_id == song_id
                    &&& ins.device_user_id == f[k].device_user_id
                },
            }
        }),
        h is Some <==> exists|j: int|
            0 <= j < old(rows)@.len() && (#[trigger] old(rows)@[j]).status == QueueStatus::Pending
                && old(rows)@[j].song_id == song_id,
        h is Some ==> exists|k: int|
            is_first_least(old(rows)@, k, pending_of(song_id)) && (#[trigger] final(rows)@[k]).status
                == QueueStatus::Playing && final(rows)@[k].id == old(rows)@[k].id,
{
    let h = advance_playing_and_record_history(rows, song_id);
    proof {
        law_start_finishes_only_playing_rows(old(rows)@, song_id);
        let f = old(rows)@.map_values(|r: QueueItem| finished(r));
        if h is None {
            assert forall|j: int| 0 <= j < old(rows)@.len() implies !((#[trigger] old(rows)@[j]).status
                == QueueStatus::Pending && old(rows)@[j].song_id == song_id) by {
                assert(!pending_of(song_id)(f[j]));
            }
        } else {
            let k = choose|k: int| {
                &&& is_first_least(f, k, pending_of(song_id))
                &&& final(rows)@ == f.update(k, with_status(f[k], QueueStatus::Playing))
                &&& h->0.song_id == song_id
                &&& h->0.device_user_id == f[k].device_user_id
            };
            assert(is_first_least(old(rows)@, k, pending_of(song_id)));
            assert(pending_of(song_id)(old(rows)@[k]));
            assert(final(rows)@[k].status == QueueStatus::Playing);
        }
    }
    h
}

/// Removes every queue item of a song that is being deleted from the
/// library; the audio executor must drop the song's requests too.
pub fn purge_song(rows: &mut Vec<QueueItem>, song_id: i64)
    ensures
        final(rows)@ == without_song(old(rows)@, song_id),
        forall|i: int| 0 <= i < final(rows)@.len() ==> (#[trigger] final(rows)@[i]).song_id != song_id,
        forall|i: int| 0 <= i < old(rows)@.len() && (#[trigger] old(rows)@[i]).song_id != song_id
            ==> final(rows)@.contains(old(rows)@[i]),
{
    delete_song_queue_items(rows, song_id);
    proof {
        lemma_without_song(old(rows)@, song_id);
    }
}

} // verus!
