//! Properties every queue operation keeps, stated over the row-level
//! specifications the operations are proved against.
use crate::models::{QueueItem, QueueStatus};
use crate::queue::table::{
    count_active, find_item, finished, is_first_least, lemma_find_item, lemma_max_active, max_active,
    max_active_or_zero, moved, next_position,
    pending_of, skip_played, skipped_and_shifted, well_formed, with_status, without_song,
};
use vstd::prelude::*;

verus! {

/// Adding a pending item at the next position, under a fresh id, keeps the
/// queue well formed and grows the queue by one.
pub proof fn law_add_keeps_queue_well_formed(rows: Seq<QueueItem>, item: QueueItem)
    requires
        well_formed(rows),
        item.status == QueueStatus::Pending,
        item.position == next_position(rows),
        forall|i: int| 0 <= i < rows.len() ==> (#[trigger] rows[i]).id != item.id,
    ensures
        well_formed(rows.push(item)),
        count_active(rows.push(item)) == count_active(rows) + 1,
{
    lemma_max_active(rows);
    let s = rows.push(item);
    assert(s.drop_last() =~= rows);
    assert forall|i: int, j: int|
        0 <= i < s.len() && 0 <= j < s.len() && i != j && s[i].status.is_active()
            && s[j].status.is_active() implies #[trigger] s[i].position != #[trigger] s[j].position by {
        if i == rows.len() {
            assert(s[j] == rows[j]);
        } else if j == rows.len() {
            assert(s[i] == rows[i]);
        } else {
            assert(s[i] == rows[i] && s[j] == rows[j]);
        }
    }
    assert forall|i: int, j: int| 0 <= i < s.len() && 0 <= j < s.len() && i != j implies #[trigger] s[i].id
        != #[trigger] s[j].id by {
        if i == rows.len() {
            assert(s[j] == rows[j]);
        } else if j == rows.len() {
            assert(s[i] == rows[i]);
        } else {
            assert(s[i] == rows[i] && s[j] == rows[j]);
        }
    }
}

/// Moving a pending item keeps the queue well formed.
pub proof fn law_move_keeps_queue_well_formed(rows: Seq<QueueItem>, k: int, new: i32)
    requires
        well_formed(rows),
        0 <= k < rows.len(),
        rows[k].status == QueueStatus::Pending,
        new >= 0,
    ensures
        well_formed(rows.map_values(|x: QueueItem| moved(x, rows[k].id, rows[k].position, new))),
{
    let id = rows[k].id;
    let old = rows[k].position;
    let s = rows.map_values(|x: QueueItem| moved(x, id, old, new));
    assert forall|i: int, j: int|
        0 <= i < s.len() && 0 <= j < s.len() && i != j && s[i].status.is_active()
            && s[j].status.is_active() implies #[trigger] s[i].position != #[trigger] s[j].position by {
        assert(s[i] == moved(rows[i], id, old, new));
        assert(s[j] == moved(rows[j], id, old, new));
        if i != k {
            assert(rows[i].id != id);
            assert(rows[i].position != old);
        }
        if j != k {
            assert(rows[j].id != id);
            assert(rows[j].position != old);
        }
        assert(rows[i].position != rows[j].position);
    }
    assert forall|i: int, j: int| 0 <= i < s.len() && 0 <= j < s.len() && i != j implies #[trigger] s[i].id
        != #[trigger] s[j].id by {
        assert(s[i] == moved(rows[i], id, old, new));
        assert(s[j] == moved(rows[j], id, old, new));
        assert(rows[i].id != rows[j].id);
    }
}

/// Moving a pending item puts it at the requested position and keeps the
/// order of every other active item; ids, songs and statuses are untouched.
pub proof fn law_move_places_item_and_keeps_order(rows: Seq<QueueItem>, k: int, new: i32)
    requires
        well_formed(rows),
        0 <= k < rows.len(),
        rows[k].status == QueueStatus::Pending,
        new >= 0,
    ensures
        ({
            let s = rows.map_values(|x: QueueItem| moved(x, rows[k].id, rows[k].position, new));
            &&& s[k].position == new
            &&& forall|i: int|
                0 <= i < rows.len() ==> s[i].id == (#[trigger] rows[i]).id && s[i].song_id == rows[i].song_id
                    && s[i].status == rows[i].status && s[i].device_user_id == rows[i].device_user_id
            &&& forall|i: int, j: int|
                0 <= i < rows.len() && 0 <= j < rows.len() && i != k && j != k && rows[i].status.is_active()
                    && rows[j].status.is_active() ==> (#[trigger] rows[i].position < #[trigger] rows[j].position
                    <==> s[i].position < s[j].position)
        }),
{
    let id = rows[k].id;
    let old = rows[k].position;
    let s = rows.map_values(|x: QueueItem| moved(x, id, old, new));
    assert forall|i: int, j: int|
        0 <= i < rows.len() && 0 <= j < rows.len() && i != k && j != k && rows[i].status.is_active()
            && rows[j].status.is_active() implies (#[trigger] rows[i].position < #[trigger] rows[j].position
        <==> s[i].position < s[j].position) by {
        assert(s[i] == moved(rows[i], id, old, new));
        assert(s[j] == moved(rows[j], id, old, new));
        assert(rows[i].id != id);
        assert(rows[j].id != id);
        assert(rows[i].position != old);
        assert(rows[j].position != old);
    }
}

/// Count of active rows after a map that deactivates exactly the rows with `id`
/// and leaves activity of every other row unchanged.
proof fn lemma_count_after_deactivating(rows: Seq<QueueItem>, s: Seq<QueueItem>, k: int)
    requires
        s.len() == rows.len(),
        0 <= k < rows.len(),
        rows[k].status.is_active(),
        !s[k].status.is_active(),
        forall|i: int| 0 <= i < rows.len() && i != k ==> (#[trigger] s[i]).status.is_active()
            == rows[i].status.is_active(),
    ensures
        count_active(s) + 1 == count_active(rows),
    decreases rows.len(),
{
    let n = rows.len() - 1;
    assert forall|i: int| 0 <= i < n implies #[trigger] s.drop_last()[i] == s[i] by {}
    assert forall|i: int| 0 <= i < n implies #[trigger] rows.drop_last()[i] == rows[i] by {}
    if k == n {
        lemma_count_same(rows.drop_last(), s.drop_last());
    } else {
        lemma_count_after_deactivating(rows.drop_last(), s.drop_last(), k);
    }
}

/// Rows of equal activity have equal counts.
proof fn lemma_count_same(a: Seq<QueueItem>, b: Seq<QueueItem>)
    requires
        a.len() == b.len(),
        forall|i: int| 0 <= i < a.len() ==> (#[trigger] a[i]).status.is_active() == b[i].status.is_active(),
    ensures
        count_active(a) == count_active(b),
    decreases a.len(),
{
    if a.len() > 0 {
        let n = a.len() - 1;
        assert forall|i: int| 0 <= i < n implies #[trigger] a.drop_last()[i] == a[i] by {}
        assert forall|i: int| 0 <= i < n implies #[trigger] b.drop_last()[i] == b[i] by {}
        lemma_count_same(a.drop_last(), b.drop_last());
    }
}

/// Removing an active (pending) item keeps the queue well formed and shrinks
/// the queue by one.
pub proof fn law_remove_keeps_queue_well_formed(rows: Seq<QueueItem>, k: int)
    requires
        well_formed(rows),
        0 <= k < rows.len(),
        rows[k].status.is_active(),
    ensures
        ({
            let s = rows.map_values(|x: QueueItem| skipped_and_shifted(x, rows[k].id, rows[k].position));
            well_formed(s) && count_active(s) + 1 == count_active(rows)
        }),
{
    let id = rows[k].id;
    let p0 = rows[k].position;
    let s = rows.map_values(|x: QueueItem| skipped_and_shifted(x, id, p0));
    assert forall|i: int, j: int|
        0 <= i < s.len() && 0 <= j < s.len() && i != j && s[i].status.is_active()
            && s[j].status.is_active() implies #[trigger] s[i].position != #[trigger] s[j].position by {
        assert(s[i] == skipped_and_shifted(rows[i], id, p0));
        assert(s[j] == skipped_and_shifted(rows[j], id, p0));
        assert(rows[i].id != id);
        assert(rows[j].id != id);
        assert(rows[i].position != p0);
        assert(rows[j].position != p0);
        assert(rows[i].position != rows[j].position);
    }
    assert forall|i: int, j: int| 0 <= i < s.len() && 0 <= j < s.len() && i != j implies #[trigger] s[i].id
        != #[trigger] s[j].id by {
        assert(s[i] == skipped_and_shifted(rows[i], id, p0));
        assert(s[j] == skipped_and_shifted(rows[j], id, p0));
        assert(rows[i].id != rows[j].id);
    }
    assert forall|i: int| 0 <= i < rows.len() && i != k implies (#[trigger] s[i]).status.is_active()
        == rows[i].status.is_active() by {
        assert(s[i] == skipped_and_shifted(rows[i], id, p0));
        assert(rows[i].id != id);
    }
    assert(s[k] == skipped_and_shifted(rows[k], id, p0));
    lemma_count_after_deactivating(rows, s, k);
}

/// Skipping the playing item keeps the queue well formed.
pub proof fn law_skip_keeps_queue_well_formed(rows: Seq<QueueItem>, id: i64)
    requires
        well_formed(rows),
    ensures
        well_formed(rows.map_values(|x: QueueItem| skip_played(x, id))),
{
    let s = rows.map_values(|x: QueueItem| skip_played(x, id));
    assert forall|i: int, j: int|
        0 <= i < s.len() && 0 <= j < s.len() && i != j && s[i].status.is_active()
            && s[j].status.is_active() implies #[trigger] s[i].position != #[trigger] s[j].position by {
        assert(s[i] == skip_played(rows[i], id));
        assert(s[j] == skip_played(rows[j], id));
        assert(rows[i].position != rows[j].position);
    }
    assert forall|i: int, j: int| 0 <= i < s.len() && 0 <= j < s.len() && i != j implies #[trigger] s[i].id
        != #[trigger] s[j].id by {
        assert(s[i] == skip_played(rows[i], id));
        assert(s[j] == skip_played(rows[j], id));
        assert(rows[i].id != rows[j].id);
    }
}

/// Starting a song keeps the queue well formed and leaves at most one item
/// playing, an item of that song.
pub proof fn law_start_keeps_one_playing(rows: Seq<QueueItem>, song_id: i64, k: int)
    requires
        well_formed(rows),
        is_first_least(rows.map_values(|r: QueueItem| finished(r)), k, pending_of(song_id)),
    ensures
        ({
            let f = rows.map_values(|r: QueueItem| finished(r));
            let s = f.update(k, with_status(f[k], QueueStatus::Playing));
            &&& well_formed(s)
            &&& forall|i: int| 0 <= i < s.len() && (#[trigger] s[i]).status == QueueStatus::Playing ==> i == k
            &&& s[k].song_id == song_id
        }),
{
    let f = rows.map_values(|r: QueueItem| finished(r));
    let s = f.update(k, with_status(f[k], QueueStatus::Playing));
    assert forall|i: int| 0 <= i < s.len() && (#[trigger] s[i]).status.is_active() implies rows[i].status.is_active()
        && s[i].position == rows[i].position && s[i].id == rows[i].id by {
        assert(f[i] == finished(rows[i]));
    }
    assert forall|i: int| 0 <= i < s.len() && (#[trigger] s[i]).status == QueueStatus::Playing implies i == k by {
        assert(f[i] == finished(rows[i]));
    }
    assert forall|i: int, j: int|
        0 <= i < s.len() && 0 <= j < s.len() && i != j && s[i].status.is_active()
            && s[j].status.is_active() implies #[trigger] s[i].position != #[trigger] s[j].position by {
        assert(rows[i].position != rows[j].position);
    }
    assert forall|i: int, j: int| 0 <= i < s.len() && 0 <= j < s.len() && i != j implies #[trigger] s[i].id
        != #[trigger] s[j].id by {
        assert(f[i] == finished(rows[i]));
        assert(f[j] == finished(rows[j]));
        assert(rows[i].id != rows[j].id);
    }
}

/// Purging a song keeps the queue well formed.
pub proof fn law_purge_keeps_queue_well_formed(rows: Seq<QueueItem>, song_id: i64)
    requires
        well_formed(rows),
    ensures
        well_formed(without_song(rows, song_id)),
    decreases rows.len(),
{
    if rows.len() > 0 {
        let t = rows.drop_last();
        assert forall|i: int| 0 <= i < t.len() implies #[trigger] t[i] == rows[i] by {}
        law_purge_keeps_queue_well_formed(t, song_id);
        let w = without_song(t, song_id);
        lemma_without_song_from(t, song_id);
        if rows.last().song_id != song_id {
            let s = w.push(rows.last());
            assert forall|i: int, j: int|
                0 <= i < s.len() && 0 <= j < s.len() && i != j && s[i].status.is_active()
                    && s[j].status.is_active() implies #[trigger] s[i].position != #[trigger] s[j].position by {
                if i == w.len() {
                    let b = choose|b: int| 0 <= b < t.len() && t[b] == w[j];
                    assert(rows[b] == s[j]);
                    assert(rows[rows.len() - 1] == s[i]);
                } else if j == w.len() {
                    let a = choose|a: int| 0 <= a < t.len() && t[a] == w[i];
                    assert(rows[a] == s[i]);
                    assert(rows[rows.len() - 1] == s[j]);
                }
            }
            assert forall|i: int, j: int| 0 <= i < s.len() && 0 <= j < s.len() && i != j implies #[trigger] s[i].id
                != #[trigger] s[j].id by {
                if i == w.len() {
                    let b = choose|b: int| 0 <= b < t.len() && t[b] == w[j];
                    assert(rows[b] == s[j]);
                    assert(rows[rows.len() - 1] == s[i]);
                } else if j == w.len() {
                    let a = choose|a: int| 0 <= a < t.len() && t[a] == w[i];
                    assert(rows[a] == s[i]);
                    assert(rows[rows.len() - 1] == s[j]);
                }
            }
        }
    }
}

/// Each kept row comes from the input.
proof fn lemma_without_song_from(s: Seq<QueueItem>, song_id: i64)
    ensures
        forall|i: int| 0 <= i < without_song(s, song_id).len() ==> exists|k: int|
            0 <= k < s.len() && s[k] == #[trigger] without_song(s, song_id)[i],
    decreases s.len(),
{
    if s.len() > 0 {
        let t = s.drop_last();
        lemma_without_song_from(t, song_id);
        let w = without_song(t, song_id);
        assert forall|i: int| 0 <= i < without_song(s, song_id).len() implies exists|k: int|
            0 <= k < s.len() && s[k] == #[trigger] without_song(s, song_id)[i] by {
            if i < w.len() {
                let k = choose|k: int| 0 <= k < t.len() && t[k] == w[i];
                assert(s[k] == t[k]);
            } else {
                assert(s[s.len() - 1] == without_song(s, song_id)[i]);
            }
        }
    }
}

/// Some active row sits at position `p`.
#[verifier::opaque]
pub open spec fn active_at(s: Seq<QueueItem>, p: int) -> bool {
    exists|j: int| 0 <= j < s.len() && (#[trigger] s[j]).status.is_active() && s[j].position == p
}

/// Active positions have no gaps: none is negative, and every active row
/// above position 0 has an active row just below it.
pub open spec fn positions_gapless(s: Seq<QueueItem>) -> bool {
    forall|i: int|
        0 <= i < s.len() && (#[trigger] s[i]).status.is_active() ==> s[i].position >= 0 && (s[i].position > 0
            ==> active_at(s, s[i].position - 1))
}

/// The row that `active_at` speaks of.
proof fn lemma_active_at(s: Seq<QueueItem>, p: int)
    requires
        active_at(s, p),
    ensures
        exists|j: int| 0 <= j < s.len() && (#[trigger] s[j]).status.is_active() && s[j].position == p,
{
    reveal(active_at);
}

/// An active row's position is at most the largest active position.
proof fn lemma_at_most_max(s: Seq<QueueItem>, w: int)
    requires
        0 <= w < s.len(),
        s[w].status.is_active(),
    ensures
        s[w].position <= max_active_or_zero(s),
{
    lemma_max_active(s);
}

/// Moving a row's item there and back leaves the row as it was, unless the
/// row is another active row at the item's old position.
proof fn lemma_row_moved_back(r: QueueItem, id: i64, q: i32, new: i32)
    requires
        r.id == id ==> r.position == q,
        r.id != id && r.status.is_active() ==> r.position != q,
    ensures
        moved(moved(r, id, q, new), id, new, q) == r,
{
}

/// The two moves cancel row by row.
proof fn lemma_moves_cancel(rows: Seq<QueueItem>, k: int, new: i32)
    requires
        well_formed(rows),
        0 <= k < rows.len(),
        rows[k].status.is_active(),
    ensures
        rows.map_values(|x: QueueItem| moved(x, rows[k].id, rows[k].position, new)).map_values(
            |x: QueueItem| moved(x, rows[k].id, new, rows[k].position),
        ) == rows,
{
    let id = rows[k].id;
    let q = rows[k].position;
    let s = rows.map_values(|x: QueueItem| moved(x, id, q, new));
    let t = s.map_values(|x: QueueItem| moved(x, id, new, q));
    assert forall|i: int| 0 <= i < rows.len() implies #[trigger] t[i] == rows[i] by {
        if i != k {
            assert(rows[i].id != id);
            if rows[i].status.is_active() {
                assert(rows[i].position != q);
            }
        }
        lemma_row_moved_back(rows[i], id, q, new);
    }
    assert(t =~= rows);
}

/// Moving a pending item and then moving it back to where it was restores
/// every row; the move back is admitted (the item is found, still pending,
/// and its old position is within the queue).
pub proof fn law_move_back_restores(rows: Seq<QueueItem>, k: int, new: i32)
    requires
        well_formed(rows),
        positions_gapless(rows),
        0 <= k < rows.len(),
        rows[k].status == QueueStatus::Pending,
        new >= 0,
    ensures
        ({
            let id = rows[k].id;
            let q = rows[k].position;
            let s = rows.map_values(|x: QueueItem| moved(x, id, q, new));
            &&& find_item(s, id) == Some(s[k])
            &&& s[k].status == QueueStatus::Pending
            &&& s[k].position == new
            &&& q >= 0
            &&& q <= max_active_or_zero(s)
            &&& s.map_values(|x: QueueItem| moved(x, id, new, q)) == rows
        }),
{
    lemma_moved_item_found(rows, k, new);
    lemma_old_position_within(rows, k, new);
    lemma_moves_cancel(rows, k, new);
}

/// After a move the item is still found by its id, at its row.
proof fn lemma_moved_item_found(rows: Seq<QueueItem>, k: int, new: i32)
    requires
        well_formed(rows),
        0 <= k < rows.len(),
    ensures
        ({
            let s = rows.map_values(|x: QueueItem| moved(x, rows[k].id, rows[k].position, new));
            find_item(s, rows[k].id) == Some(s[k])
        }),
{
    let id = rows[k].id;
    let q = rows[k].position;
    let s = rows.map_values(|x: QueueItem| moved(x, id, q, new));
    assert forall|i: int| 0 <= i < s.len() implies (#[trigger] s[i]).id == rows[i].id by {}
    lemma_find_item(s, id);
    if let Some(r) = find_item(s, id) {
        let i = choose|i: int| 0 <= i < s.len() && #[trigger] s[i] == r && r.id == id;
        assert(rows[i].id == id);
        assert(i == k);
    }
}

/// With no gaps in the active positions, the item's old position is within
/// the queue after it moved.
proof fn lemma_old_position_within(rows: Seq<QueueItem>, k: int, new: i32)
    requires
        well_formed(rows),
        positions_gapless(rows),
        0 <= k < rows.len(),
        rows[k].status.is_active(),
        new >= 0,
    ensures
        ({
            let s = rows.map_values(|x: QueueItem| moved(x, rows[k].id, rows[k].position, new));
            rows[k].position >= 0 && rows[k].position <= max_active_or_zero(s)
        }),
{
    let id = rows[k].id;
    let q = rows[k].position;
    let s = rows.map_values(|x: QueueItem| moved(x, id, q, new));
    assert(rows[k].position >= 0);
    if new >= q {
        assert(s[k] == moved(rows[k], id, q, new));
        assert(s[k].position == new);
        assert(s[k].status.is_active());
        lemma_at_most_max(s, k);
        assert(q <= max_active_or_zero(s));
    } else {
        assert(active_at(rows, q - 1));
        lemma_active_at(rows, q - 1);
        let j = choose|j: int|
            0 <= j < rows.len() && (#[trigger] rows[j]).status.is_active() && rows[j].position == q - 1;
        assert(rows[j].position != rows[k].position);
        assert(j != k);
        assert(s[j] == moved(rows[j], id, q, new));
        assert(rows[j].id != id);
        assert(s[j].position == q);
        lemma_at_most_max(s, j);
        assert(q <= max_active_or_zero(s));
    }
}

/// Removing the item in row `k` (at position `p`) marks it skipped and moves
/// every other active row after `p` up by exactly one place; every other row
/// is left as it was.
pub proof fn law_remove_moves_later_items_up_by_one(rows: Seq<QueueItem>, k: int)
    requires
        well_formed(rows),
        0 <= k < rows.len(),
    ensures
        ({
            let id = rows[k].id;
            let p = rows[k].position;
            let s = rows.map_values(|x: QueueItem| skipped_and_shifted(x, id, p));
            &&& s.len() == rows.len()
            &&& s[k].status == QueueStatus::Skipped
            &&& s[k].id == id && s[k].song_id == rows[k].song_id && s[k].position == p
            &&& forall|j: int|
                0 <= j < rows.len() && j != k && (#[trigger] rows[j]).status.is_active() && rows[j].position > p
                    ==> s[j].position == rows[j].position - 1 && s[j].status == rows[j].status && s[j].id
                    == rows[j].id && s[j].song_id == rows[j].song_id && s[j].device_user_id
                    == rows[j].device_user_id
            &&& forall|j: int|
                0 <= j < rows.len() && j != k && !((#[trigger] rows[j]).status.is_active() && rows[j].position
                    > p) ==> s[j] == rows[j]
        }),
{
    let id = rows[k].id;
    let p = rows[k].position;
    let s = rows.map_values(|x: QueueItem| skipped_and_shifted(x, id, p));
    assert forall|j: int| 0 <= j < rows.len() && j != k implies (#[trigger] rows[j]).id != id by {}
}

/// Removing an active item from a queue whose active positions have no gaps
/// leaves no gap either.
pub proof fn law_remove_keeps_positions_gapless(rows: Seq<QueueItem>, k: int)
    requires
        well_formed(rows),
        positions_gapless(rows),
        0 <= k < rows.len(),
        rows[k].status.is_active(),
    ensures
        positions_gapless(rows.map_values(|x: QueueItem| skipped_and_shifted(x, rows[k].id, rows[k].position))),
{
    let id = rows[k].id;
    let p = rows[k].position;
    let s = rows.map_values(|x: QueueItem| skipped_and_shifted(x, id, p));
    assert forall|i: int|
        0 <= i < s.len() && (#[trigger] s[i]).status.is_active() implies s[i].position >= 0 && (s[i].position > 0
        ==> active_at(s, s[i].position - 1)) by {
        lemma_remove_row_below(rows, k, i);
    }
}

/// One row of `law_remove_keeps_positions_gapless`.
proof fn lemma_remove_row_below(rows: Seq<QueueItem>, k: int, i: int)
    requires
        well_formed(rows),
        positions_gapless(rows),
        0 <= k < rows.len(),
        rows[k].status.is_active(),
        0 <= i < rows.len(),
        skipped_and_shifted(rows[i], rows[k].id, rows[k].position).status.is_active(),
    ensures
        ({
            let s = rows.map_values(|x: QueueItem| skipped_and_shifted(x, rows[k].id, rows[k].position));
            s[i].position >= 0 && (s[i].position > 0 ==> active_at(s, s[i].position - 1))
        }),
{
    let id = rows[k].id;
    let p = rows[k].position;
    let s = rows.map_values(|x: QueueItem| skipped_and_shifted(x, id, p));
    assert(s[i] == skipped_and_shifted(rows[i], id, p));
    assert(i != k);
    assert(rows[i].id != id);
    assert(rows[i].status.is_active());
    assert(rows[i].position != p);
    assert(rows[k].position >= 0);
    assert(rows[i].position >= 0);
    let q = rows[i].position;
    // The row whose new position sits just below row i's.
    if q > p {
        if q - 1 > p {
            assert(active_at(rows, q - 1));
            lemma_active_at(rows, q - 1);
            let j = choose|j: int| 0 <= j < rows.len() && (#[trigger] rows[j]).status.is_active() && rows[j].position == q - 1;
            assert(j != k);
            assert(rows[j].id != id);
            assert(s[j] == skipped_and_shifted(rows[j], id, p));
            lemma_active_at_intro(s, j);
        } else if p > 0 {
            assert(active_at(rows, p - 1));
            lemma_active_at(rows, p - 1);
            let j = choose|j: int| 0 <= j < rows.len() && (#[trigger] rows[j]).status.is_active() && rows[j].position == p - 1;
            assert(j != k);
            assert(rows[j].id != id);
            assert(s[j] == skipped_and_shifted(rows[j], id, p));
            lemma_active_at_intro(s, j);
        }
    } else if q > 0 {
        assert(active_at(rows, q - 1));
        lemma_active_at(rows, q - 1);
        let j = choose|j: int| 0 <= j < rows.len() && (#[trigger] rows[j]).status.is_active() && rows[j].position == q - 1;
        assert(j != k);
        assert(rows[j].id != id);
        assert(s[j] == skipped_and_shifted(rows[j], id, p));
        lemma_active_at_intro(s, j);
    }
}

/// An active row makes its position occupied.
proof fn lemma_active_at_intro(s: Seq<QueueItem>, j: int)
    requires
        0 <= j < s.len(),
        s[j].status.is_active(),
    ensures
        active_at(s, s[j].position as int),
{
    reveal(active_at);
}

/// Skipping the item with `id` marks that row played and leaves every row
/// with another id exactly as it was.
pub proof fn law_skip_changes_only_the_skipped_row(rows: Seq<QueueItem>, id: i64)
    ensures
        ({
            let s = rows.map_values(|x: QueueItem| skip_played(x, id));
            &&& s.len() == rows.len()
            &&& forall|j: int| 0 <= j < rows.len() && (#[trigger] rows[j]).id != id ==> s[j] == rows[j]
            &&& forall|j: int|
                0 <= j < rows.len() && (#[trigger] rows[j]).id == id ==> s[j].status == QueueStatus::Played
                    && s[j].id == id && s[j].song_id == rows[j].song_id && s[j].device_user_id
                    == rows[j].device_user_id && s[j].position == rows[j].position
        }),
{
}

/// When a song starts, only the rows that were playing change: they become
/// played; pending rows (of any song) stay pending, so a pending request for
/// the song that starts is still there to become the playing one.
pub proof fn law_start_finishes_only_playing_rows(rows: Seq<QueueItem>, song_id: i64)
    ensures
        ({
            let f = rows.map_values(|x: QueueItem| finished(x));
            &&& f.len() == rows.len()
            &&& forall|j: int| 0 <= j < rows.len() && (#[trigger] rows[j]).status != QueueStatus::Playing ==> f[j] == rows[j]
            &&& forall|j: int|
                0 <= j < rows.len() && (#[trigger] rows[j]).status == QueueStatus::Playing ==> f[j].status
                    == QueueStatus::Played && f[j].id == rows[j].id && f[j].song_id == rows[j].song_id
                    && f[j].position == rows[j].position && f[j].device_user_id == rows[j].device_user_id
            &&& forall|k: int| is_first_least(rows, k, pending_of(song_id)) <==> is_first_least(f, k, pending_of(song_id))
        }),
{
    let f = rows.map_values(|x: QueueItem| finished(x));
    assert forall|j: int| 0 <= j < rows.len() implies pending_of(song_id)(#[trigger] f[j]) == pending_of(song_id)(
        rows[j],
    ) && f[j].position == rows[j].position by {}
    assert forall|k: int| is_first_least(rows, k, pending_of(song_id)) <==> is_first_least(f, k, pending_of(song_id)) by {
        if is_first_least(rows, k, pending_of(song_id)) {
            assert forall|j: int| 0 <= j < f.len() && pending_of(song_id)(f[j]) implies f[k].position <= #[trigger] f[j].position by {
                assert(pending_of(song_id)(rows[j]));
            }
            assert forall|j: int| 0 <= j < k && pending_of(song_id)(f[j]) implies f[k].position < #[trigger] f[j].position by {
                assert(pending_of(song_id)(rows[j]));
            }
        }
        if is_first_least(f, k, pending_of(song_id)) {
            assert forall|j: int| 0 <= j < rows.len() && pending_of(song_id)(rows[j]) implies rows[k].position <= #[trigger] rows[j].position by {
                assert(pending_of(song_id)(f[j]));
            }
            assert forall|j: int| 0 <= j < k && pending_of(song_id)(rows[j]) implies rows[k].position < #[trigger] rows[j].position by {
                assert(pending_of(song_id)(f[j]));
            }
        }
    }
}

} // verus!
