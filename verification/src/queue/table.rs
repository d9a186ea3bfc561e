//! The queue table: what each stored mutation does to the rows, proved
//! against row-level specifications.
use crate::models::{QueueItem, QueueStatus};
use vstd::prelude::*;

verus! {

// ---------------------------------------------------------------------------
// Row-level specifications
// ---------------------------------------------------------------------------

/// The row with another position.
pub open spec fn with_position(r: QueueItem, p: i32) -> QueueItem {
    QueueItem {
        id: r.id,
        song_id: r.song_id,
        device_user_id: r.device_user_id,
        status: r.status,
        position: p,
    }
}

/// The row with another status.
pub open spec fn with_status(r: QueueItem, s: QueueStatus) -> QueueItem {
    QueueItem {
        id: r.id,
        song_id: r.song_id,
        device_user_id: r.device_user_id,
        status: s,
        position: r.position,
    }
}

/// Number of active (pending or playing) rows.
pub open spec fn count_active(s: Seq<QueueItem>) -> nat
    decreases s.len(),
{
    if s.len() == 0 {
        0
    } else {
        count_active(s.drop_last()) + if s.last().status.is_active() {
            1nat
        } else {
            0nat
        }
    }
}

/// Largest position among active rows, `None` when there is no active row.
pub open spec fn max_active(s: Seq<QueueItem>) -> Option<i32>
    decreases s.len(),
{
    if s.len() == 0 {
        None
    } else {
        let m = max_active(s.drop_last());
        let r = s.last();
        if r.status.is_active() {
            match m {
                None => Some(r.position),
                Some(p) => Some(
                    if r.position > p {
                        r.position
                    } else {
                        p
                    },
                ),
            }
        } else {
            m
        }
    }
}

/// `COALESCE(MAX(position), 0)` over the active rows.
pub open spec fn max_active_or_zero(s: Seq<QueueItem>) -> i32 {
    match max_active(s) {
        Some(p) => p,
        None => 0,
    }
}

/// Position given to a newly queued item: one past the largest active one, or 0.
pub open spec fn next_position(s: Seq<QueueItem>) -> int {
    match max_active(s) {
        Some(p) => p + 1,
        None => 0,
    }
}

/// No two active rows share a position.
pub open spec fn active_positions_distinct(s: Seq<QueueItem>) -> bool {
    forall|i: int, j: int|
        0 <= i < s.len() && 0 <= j < s.len() && i != j && s[i].status.is_active()
            && s[j].status.is_active() ==> #[trigger] s[i].position != #[trigger] s[j].position
}

/// No two rows share an id.
pub open spec fn ids_unique(s: Seq<QueueItem>) -> bool {
    forall|i: int, j: int|
        0 <= i < s.len() && 0 <= j < s.len() && i != j ==> #[trigger] s[i].id != #[trigger] s[j].id
}

/// The invariant the stored queue keeps: unique ids, distinct active positions.
pub open spec fn well_formed(s: Seq<QueueItem>) -> bool {
    ids_unique(s) && active_positions_distinct(s)
}

/// The first row with the given id.
pub open spec fn find_item(s: Seq<QueueItem>, id: i64) -> Option<QueueItem>
    decreases s.len(),
{
    if s.len() == 0 {
        None
    } else if s[0].id == id {
        Some(s[0])
    } else {
        find_item(s.drop_first(), id)
    }
}

/// What the reordering statements do to one row when `item_id` moves from
/// `old` to `new`: active rows between the two positions close up, then the
/// item takes `new`.
pub open spec fn moved(r: QueueItem, item_id: i64, old: i32, new: i32) -> QueueItem {
    let shifted = if r.status.is_active() && new < old && new <= r.position && r.position < old {
        with_position(r, (r.position + 1) as i32)
    } else if r.status.is_active() && !(new < old) && old < r.position && r.position <= new {
        with_position(r, (r.position - 1) as i32)
    } else {
        r
    };
    if r.id == item_id {
        with_position(shifted, new)
    } else {
        shifted
    }
}

/// What removing `item_id` (at `removed`) does to one row: the item becomes
/// skipped, then active rows after it move up by one.
pub open spec fn skipped_and_shifted(r: QueueItem, item_id: i64, removed: i32) -> QueueItem {
    let r1 = if r.id == item_id {
        with_status(r, QueueStatus::Skipped)
    } else {
        r
    };
    if r1.status.is_active() && r1.position > removed {
        with_position(r1, (r1.position - 1) as i32)
    } else {
        r1
    }
}

/// Marks the row with `item_id` played (a skip ends its playing).
pub open spec fn skip_played(r: QueueItem, item_id: i64) -> QueueItem {
    if r.id == item_id {
        with_status(r, QueueStatus::Played)
    } else {
        r
    }
}

/// Playing rows become played.
pub open spec fn finished(r: QueueItem) -> QueueItem {
    if r.status == QueueStatus::Playing {
        with_status(r, QueueStatus::Played)
    } else {
        r
    }
}

/// Row `k` is the first, among the rows with the least position, that satisfies `p`.
pub open spec fn is_first_least(s: Seq<QueueItem>, k: int, p: spec_fn(QueueItem) -> bool) -> bool {
    &&& 0 <= k < s.len()
    &&& p(s[k])
    &&& forall|j: int| 0 <= j < s.len() && p(s[j]) ==> s[k].position <= #[trigger] s[j].position
    &&& forall|j: int| 0 <= j < k && p(s[j]) ==> s[k].position < #[trigger] s[j].position
}

/// Pending rows of the song.
pub open spec fn pending_of(song_id: i64) -> spec_fn(QueueItem) -> bool {
    |r: QueueItem| r.status == QueueStatus::Pending && r.song_id == song_id
}

/// Playing rows.
pub open spec fn is_playing() -> spec_fn(QueueItem) -> bool {
    |r: QueueItem| r.status == QueueStatus::Playing
}

/// Rows not belonging to the song, in order.
pub open spec fn without_song(s: Seq<QueueItem>, song_id: i64) -> Seq<QueueItem>
    decreases s.len(),
{
    if s.len() == 0 {
        s
    } else if s.last().song_id == song_id {
        without_song(s.drop_last(), song_id)
    } else {
        without_song(s.drop_last(), song_id).push(s.last())
    }
}

// ---------------------------------------------------------------------------
// Lemmas
// ---------------------------------------------------------------------------

/// The active count is bounded by the number of rows.
pub proof fn lemma_count_active_bound(s: Seq<QueueItem>)
    ensures
        count_active(s) <= s.len(),
    decreases s.len(),
{
    if s.len() > 0 {
        lemma_count_active_bound(s.drop_last());
    }
}

/// What `max_active` is.
pub proof fn lemma_max_active(s: Seq<QueueItem>)
    ensures
        max_active(s) is None <==> (forall|i: int| 0 <= i < s.len() ==> !(#[trigger] s[i]).status.is_active()),
        max_active(s) matches Some(m) ==> (exists|i: int|
            0 <= i < s.len() && (#[trigger] s[i]).status.is_active() && s[i].position == m),
        max_active(s) matches Some(m) ==> (forall|i: int|
            0 <= i < s.len() && (#[trigger] s[i]).status.is_active() ==> s[i].position <= m),
    decreases s.len(),
{
    if s.len() > 0 {
        let t = s.drop_last();
        lemma_max_active(t);
        assert forall|i: int| 0 <= i < t.len() implies #[trigger] t[i] == s[i] by {}
        if max_active(s) is None {
            assert forall|i: int| 0 <= i < s.len() implies !(#[trigger] s[i]).status.is_active() by {
                if i < t.len() {
                    assert(t[i] == s[i]);
                }
            }
        }
        if let Some(m) = max_active(s) {
            if s.last().status.is_active() && s.last().position == m {
                assert(s[s.len() - 1].status.is_active());
            } else {
                let i = choose|i: int| 0 <= i < t.len() && (#[trigger] t[i]).status.is_active() && t[i].position == m;
                assert(s[i] == t[i]);
            }
            assert forall|i: int| 0 <= i < s.len() && (#[trigger] s[i]).status.is_active() implies s[i].position <= m by {
                if i < t.len() {
                    assert(t[i] == s[i]);
                }
            }
        }
    }
}

/// `find_item` finds the first row with the id.
pub proof fn lemma_find_item(s: Seq<QueueItem>, id: i64)
    ensures
        find_item(s, id) is None <==> (forall|i: int| 0 <= i < s.len() ==> (#[trigger] s[i]).id != id),
        find_item(s, id) matches Some(r) ==> (exists|i: int| 0 <= i < s.len() && #[trigger] s[i] == r && r.id == id),
    decreases s.len(),
{
    if s.len() > 0 {
        let t = s.drop_first();
        lemma_find_item(t, id);
        assert forall|i: int| 0 <= i < t.len() implies #[trigger] t[i] == s[i + 1] by {}
        if find_item(s, id) is None {
            assert forall|i: int| 0 <= i < s.len() implies (#[trigger] s[i]).id != id by {
                if i > 0 {
                    assert(t[i - 1] == s[i]);
                }
            }
        }
        if let Some(r) = find_item(s, id) {
            if s[0].id != id {
                let i = choose|i: int| 0 <= i < t.len() && #[trigger] t[i] == r && r.id == id;
                assert(s[i + 1] == t[i]);
            }
        }
    }
}

/// `without_song` keeps exactly the rows of other songs.
pub proof fn lemma_without_song(s: Seq<QueueItem>, song_id: i64)
    ensures
        forall|i: int| 0 <= i < without_song(s, song_id).len() ==> (#[trigger] without_song(s, song_id)[i]).song_id != song_id,
        forall|i: int| 0 <= i < without_song(s, song_id).len() ==> s.contains(#[trigger] without_song(s, song_id)[i]),
        forall|i: int| 0 <= i < s.len() && (#[trigger] s[i]).song_id != song_id ==> without_song(s, song_id).contains(s[i]),
    decreases s.len(),
{
    if s.len() > 0 {
        let t = s.drop_last();
        lemma_without_song(t, song_id);
        let w = without_song(t, song_id);
        assert forall|i: int| 0 <= i < without_song(s, song_id).len() implies s.contains(#[trigger] without_song(s, song_id)[i]) by {
            if i < w.len() {
                assert(without_song(s, song_id)[i] == w[i]);
                let k = choose|k: int| 0 <= k < t.len() && t[k] == w[i];
                assert(s[k] == t[k]);
            } else {
                assert(s[s.len() - 1] == s.last());
            }
        }
        assert forall|i: int| 0 <= i < s.len() && (#[trigger] s[i]).song_id != song_id implies without_song(s, song_id).contains(s[i]) by {
            if i < t.len() {
                assert(t[i] == s[i]);
                let k = choose|k: int| 0 <= k < w.len() && w[k] == t[i];
                if s.last().song_id != song_id {
                    assert(without_song(s, song_id)[k] == w[k]);
                }
            } else {
                assert(without_song(s, song_id)[w.len() as int] == s.last());
            }
        }
    }
}

// ---------------------------------------------------------------------------
// The stored mutations and queries, on the rows
// ---------------------------------------------------------------------------

/// Number of pending or playing items.
pub fn count_active_queue_items(rows: &Vec<QueueItem>) -> (n: usize)
    ensures
        n == count_active(rows@),
{
    let mut n: usize = 0;
    let mut i: usize = 0;
    while i < rows.len()
        invariant
            i <= rows.len(),
            n == count_active(rows@.take(i as int)),
        decreases rows.len() - i,
    {
        proof {
            assert(rows@.take(i + 1).drop_last() =~= rows@.take(i as int));
            lemma_count_active_bound(rows@.take(i as int));
        }
        if rows[i].status.active() {
            n = n + 1;
        }
        i += 1;
    }
    assert(rows@.take(rows.len() as int) =~= rows@);
    n
}

/// Largest position among pending or playing items.
pub fn get_max_active_position(rows: &Vec<QueueItem>) -> (m: Option<i32>)
    ensures
        m == max_active(rows@),
{
    let mut m: Option<i32> = None;
    let mut i: usize = 0;
    while i < rows.len()
        invariant
            i <= rows.len(),
            m == max_active(rows@.take(i as int)),
        decreases rows.len() - i,
    {
        proof {
            assert(rows@.take(i + 1).drop_last() =~= rows@.take(i as int));
        }
        let r = rows[i];
        if r.status.active() {
            m = match m {
                None => Some(r.position),
                Some(p) => Some(
                    if r.position > p {
                        r.position
                    } else {
                        p
                    },
                ),
            };
        }
        i += 1;
    }
    assert(rows@.take(rows.len() as int) =~= rows@);
    m
}

/// Largest active position, 0 when the queue is empty.
pub fn fetch_max_position_coalesced(rows: &Vec<QueueItem>) -> (m: i32)
    ensures
        m == max_active_or_zero(rows@),
{
    match get_max_active_position(rows) {
        Some(p) => p,
        None => 0,
    }
}

/// The first item with the given id.
pub fn find_queue_item_by_id(rows: &Vec<QueueItem>, item_id: i64) -> (r: Option<QueueItem>)
    ensures
        r == find_item(rows@, item_id),
{
    let mut i: usize = 0;
    assert(rows@.skip(0) =~= rows@);
    while i < rows.len()
        invariant
            i <= rows.len(),
            find_item(rows@, item_id) == find_item(rows@.skip(i as int), item_id),
        decreases rows.len() - i,
    {
        if rows[i].id == item_id {
            return Some(rows[i]);
        }
        assert(rows@.skip(i as int).drop_first() =~= rows@.skip(i + 1));
        i += 1;
    }
    None
}

/// Appends a new pending item.
pub fn insert_pending_queue_item(
    rows: &mut Vec<QueueItem>,
    id: i64,
    song_id: i64,
    device_user_id: i64,
    position: i32,
)
    ensures
        final(rows)@ == old(rows)@.push(
            QueueItem { id, song_id, device_user_id, status: QueueStatus::Pending, position },
        ),
{
    rows.push(QueueItem { id, song_id, device_user_id, status: QueueStatus::Pending, position });
}

/// Reorders: active items between the two positions close up, then the item
/// takes `new_position`.
pub fn move_queue_item_positions(rows: &mut Vec<QueueItem>, item_id: i64, old_position: i32, new_position: i32)
    ensures
        final(rows)@ == old(rows)@.map_values(|r: QueueItem| moved(r, item_id, old_position, new_position)),
{
    let ghost before = rows@;
    let mut out: Vec<QueueItem> = Vec::new();
    let mut i: usize = 0;
    while i < rows.len()
        invariant
            i <= rows.len(),
            rows@ == before,
            out@ =~= before.take(i as int).map_values(|r: QueueItem| moved(r, item_id, old_position, new_position)),
        decreases rows.len() - i,
    {
        let r = rows[i];
        let mut x = r;
        if r.status.active() && new_position < old_position && new_position <= r.position && r.position < old_position {
            x.position = r.position + 1;
        } else if r.status.active() && !(new_position < old_position) && old_position < r.position && r.position <= new_position {
            x.position = r.position - 1;
        }
        if r.id == item_id {
            x.position = new_position;
        }
        out.push(x);
        proof {
            assert(before.take(i + 1) =~= before.take(i as int).push(before[i as int]));
        }
        i += 1;
    }
    assert(before.take(before.len() as int) =~= before);
    *rows = out;
}

/// Marks the item skipped, then moves every later active item up by one.
pub fn mark_item_skipped_and_shift(rows: &mut Vec<QueueItem>, item_id: i64, removed_position: i32)
    ensures
        final(rows)@ == old(rows)@.map_values(|r: QueueItem| skipped_and_shifted(r, item_id, removed_position)),
{
    let ghost before = rows@;
    let mut out: Vec<QueueItem> = Vec::new();
    let mut i: usize = 0;
    while i < rows.len()
        invariant
            i <= rows.len(),
            rows@ == before,
            out@ =~= before.take(i as int).map_values(|r: QueueItem| skipped_and_shifted(r, item_id, removed_position)),
        decreases rows.len() - i,
    {
        let mut x = rows[i];
        if x.id == item_id {
            x.status = QueueStatus::Skipped;
        }
        if x.status.active() && x.position > removed_position {
            x.position = x.position - 1;
        }
        out.push(x);
        proof {
            assert(before.take(i + 1) =~= before.take(i as int).push(before[i as int]));
        }
        i += 1;
    }
    assert(before.take(before.len() as int) =~= before);
    *rows = out;
}

/// Index of the first row, among those with the least position, that is playing.
pub fn find_current_playing_index(rows: &Vec<QueueItem>) -> (k: Option<usize>)
    ensures
        k matches Some(k) ==> is_first_least(rows@, k as int, is_playing()),
        k is None ==> forall|j: int| 0 <= j < rows.len() ==> !is_playing()(#[trigger] rows@[j]),
{
    let mut best: Option<usize> = None;
    let mut i: usize = 0;
    while i < rows.len()
        invariant
            i <= rows.len(),
            best matches Some(b) ==> is_first_least(rows@.take(i as int), b as int, is_playing()),
            best is None ==> forall|j: int| 0 <= j < i ==> !is_playing()(#[trigger] rows@[j]),
        decreases rows.len() - i,
    {
        let r = rows[i];
        if r.status == QueueStatus::Playing {
            match best {
                None => {
                    best = Some(i);
                },
                Some(b) => {
                    if r.position < rows[b].position {
                        best = Some(i);
                    }
                },
            }
        }
        proof {
            let t = rows@.take(i + 1);
            assert forall|j: int| 0 <= j < i + 1 implies #[trigger] t[j] == rows@[j] by {}
        }
        i += 1;
    }
    proof {
        assert(rows@.take(rows.len() as int) =~= rows@);
    }
    best
}

/// The playing item with the least position.
pub fn find_current_playing_item(rows: &Vec<QueueItem>) -> (r: Option<QueueItem>)
    ensures
        r matches Some(item) ==> exists|k: int| is_first_least(rows@, k, is_playing()) && rows@[k] == item,
        r is None ==> forall|j: int| 0 <= j < rows.len() ==> !is_playing()(#[trigger] rows@[j]),
{
    match find_current_playing_index(rows) {
        Some(k) => Some(rows[k]),
        None => None,
    }
}

/// Pending rows.
pub open spec fn is_pending() -> spec_fn(QueueItem) -> bool {
    |r: QueueItem| r.status == QueueStatus::Pending
}

/// The pending item at the head of the queue: least position, first among equals.
pub fn fetch_next_pending_item(rows: &Vec<QueueItem>) -> (r: Option<QueueItem>)
    ensures
        r matches Some(item) ==> exists|k: int| is_first_least(rows@, k, is_pending()) && rows@[k] == item,
        r is None ==> forall|j: int| 0 <= j < rows.len() ==> !is_pending()(#[trigger] rows@[j]),
{
    let mut best: Option<usize> = None;
    let mut i: usize = 0;
    while i < rows.len()
        invariant
            i <= rows.len(),
            best matches Some(b) ==> is_first_least(rows@.take(i as int), b as int, is_pending()),
            best is None ==> forall|j: int| 0 <= j < i ==> !is_pending()(#[trigger] rows@[j]),
        decreases rows.len() - i,
    {
        let r = rows[i];
        if r.status == QueueStatus::Pending {
            match best {
                None => {
                    best = Some(i);
                },
                Some(b) => {
                    if r.position < rows[b].position {
                        best = Some(i);
                    }
                },
            }
        }
        proof {
            let t = rows@.take(i + 1);
            assert forall|j: int| 0 <= j < i + 1 implies #[trigger] t[j] == rows@[j] by {}
        }
        i += 1;
    }
    proof {
        assert(rows@.take(rows.len() as int) =~= rows@);
    }
    match best {
        Some(b) => Some(rows[b]),
        None => None,
    }
}

/// Marks the skipped item played.
pub fn mark_item_skipped_as_played(rows: &mut Vec<QueueItem>, item_id: i64)
    ensures
        final(rows)@ == old(rows)@.map_values(|r: QueueItem| skip_played(r, item_id)),
{
    let ghost before = rows@;
    let mut out: Vec<QueueItem> = Vec::new();
    let mut i: usize = 0;
    while i < rows.len()
        invariant
            i <= rows.len(),
            rows@ == before,
            out@ =~= before.take(i as int).map_values(|r: QueueItem| skip_played(r, item_id)),
        decreases rows.len() - i,
    {
        let mut x = rows[i];
        if x.id == item_id {
            x.status = QueueStatus::Played;
        }
        out.push(x);
        proof {
            assert(before.take(i + 1) =~= before.take(i as int).push(before[i as int]));
        }
        i += 1;
    }
    assert(before.take(before.len() as int) =~= before);
    *rows = out;
}

/// The history record written when a song starts: its song and requester.
pub struct PlayHistoryInsert {
    pub song_id: i64,
    pub device_user_id: i64,
}

/// When the audio executor starts `song_id`: the playing item becomes played,
/// the song's first pending item (least position) becomes playing, and that
/// item's song and requester go to the history.
pub fn advance_playing_and_record_history(rows: &mut Vec<QueueItem>, song_id: i64) -> (h: Option<PlayHistoryInsert>)
    ensures
        ({
            let f = old(rows)@.map_values(|r: QueueItem| finished(r));
            match h {
                None => {
                    &&& final(rows)@ == f
                    &&& forall|j: int| 0 <= j < f.len() ==> !pending_of(song_id)(#[trigger] f[j])
                },
                Some(ins) => exists|k: int| {
                    &&& is_first_least(f, k, pending_of(song_id))
                    &&& final(rows)@ == f.update(k, with_status(f[k], QueueStatus::Playing))
                    &&& ins.song_id == song_id
                    &&& ins.device_user_id == f[k].device_user_id
                },
            }
        }),
{
    let ghost before = rows@;
    let mut out: Vec<QueueItem> = Vec::new();
    let mut best: Option<usize> = None;
    let mut i: usize = 0;
    while i < rows.len()
        invariant
            i <= rows.len(),
            rows@ == before,
            out@ =~= before.take(i as int).map_values(|r: QueueItem| finished(r)),
            best matches Some(b) ==> is_first_least(out@, b as int, pending_of(song_id)),
            best is None ==> forall|j: int| 0 <= j < out.len() ==> !pending_of(song_id)(#[trigger] out@[j]),
        decreases rows.len() - i,
    {
        let mut x = rows[i];
        if x.status == QueueStatus::Playing {
            x.status = QueueStatus::Played;
        }
        if x.status == QueueStatus::Pending && x.song_id == song_id {
            match best {
                None => {
                    best = Some(i);
                },
                Some(b) => {
                    if x.position < out[b].position {
                        best = Some(i);
                    }
                },
            }
        }
        let ghost prev = out@;
        out.push(x);
        proof {
            assert(before.take(i + 1) =~= before.take(i as int).push(before[i as int]));
            assert forall|j: int| 0 <= j < prev.len() implies #[trigger] out@[j] == prev[j] by {}
        }
        i += 1;
    }
    assert(before.take(before.len() as int) =~= before);
    let ghost f = out@;
    match best {
        None => {
            *rows = out;
            None
        },
        Some(b) => {
            let mut y = out[b];
            y.status = QueueStatus::Playing;
            let user = y.device_user_id;
            out.set(b, y);
            *rows = out;
            assert(rows@ =~= f.update(b as int, with_status(f[b as int], QueueStatus::Playing)));
            Some(PlayHistoryInsert { song_id, device_user_id: user })
        },
    }
}

/// Removes every item of the song.
pub fn delete_song_queue_items(rows: &mut Vec<QueueItem>, song_id: i64)
    ensures
        final(rows)@ == without_song(old(rows)@, song_id),
{
    let ghost before = rows@;
    let mut out: Vec<QueueItem> = Vec::new();
    let mut i: usize = 0;
    while i < rows.len()
        invariant
            i <= rows.len(),
            rows@ == before,
            out@ == without_song(before.take(i as int), song_id),
        decreases rows.len() - i,
    {
        proof {
            assert(before.take(i + 1).drop_last() =~= before.take(i as int));
        }
        if rows[i].song_id != song_id {
            out.push(rows[i]);
        }
        i += 1;
    }
    assert(before.take(before.len() as int) =~= before);
    *rows = out;
}

} // verus!
