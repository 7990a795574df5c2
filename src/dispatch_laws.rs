//! Facts about the dispatcher that hold over every control message.
use crate::dispatcher::{
    delete_done, edit_all, global_stop_done, handle_pos, holds, is_first_handle, message_done,
    not_id, other_than, stopped, sync_all, sync_one, unique_handles, with_status, Command,
    ControlMessage, Handle, HandleReport,
};
use crate::model::{
    edit, is_first_item as is_first_item_pos, item_pos, lemma_unique_item_pos, playlist_pos, unique_ids, Item,
    ItemStatus, Model,
};
use vstd::prelude::*;

verus! {

broadcast use vstd::seq_lib::group_filter_ensures;

/// Every target position lies within its track.
pub open spec fn positions_in_range(items: Seq<Item>) -> bool {
    forall|i: int| 0 <= i < items.len() ==> #[trigger] items[i].target_position <= items[i].duration
}

/// Every item of `later` has the target position that the item with its id
/// had in `earlier`.
pub open spec fn targets_kept(earlier: Seq<Item>, later: Seq<Item>) -> bool {
    forall|i: int, j: int|
        0 <= i < later.len() && 0 <= j < earlier.len() && #[trigger] earlier[j].id == (
        #[trigger] later[i]).id ==> earlier[j].target_position == later[i].target_position
}

/// A handle for `id` at index `i` means there is a first one.
pub proof fn lemma_first_handle_exists(hs: Seq<Handle>, id: u64, i: int)
    requires
        0 <= i < hs.len(),
        hs[i].id == id,
    ensures
        handle_pos(hs, id) is Some,
    decreases i,
{
    if forall|j: int| 0 <= j < i ==> #[trigger] hs[j].id != id {
        assert(is_first_handle(hs, id, i));
    } else {
        let j = choose|j: int| 0 <= j < i && #[trigger] hs[j].id == id;
        lemma_first_handle_exists(hs, id, j);
    }
}

/// Editing with an id-preserving, idempotent `f` leaves each item either as
/// it was or with `f` applied once.
pub proof fn lemma_edit_all_once(items: Seq<Item>, hs: Seq<Handle>, f: spec_fn(Item) -> Item)
    requires
        forall|x: Item| #[trigger] f(x).id == x.id,
        forall|x: Item| #[trigger] f(f(x)) == f(x),
    ensures
        edit_all(items, hs, f).len() == items.len(),
        forall|i: int|
            0 <= i < items.len() ==> #[trigger] edit_all(items, hs, f)[i] == items[i]
                || edit_all(items, hs, f)[i] == f(items[i]),
    decreases hs.len(),
{
    if hs.len() > 0 {
        lemma_edit_all_once(items, hs.drop_last(), f);
        let e = edit_all(items, hs.drop_last(), f);
        assert forall|i: int| 0 <= i < items.len() implies #[trigger] edit_all(items, hs, f)[i]
            == items[i] || edit_all(items, hs, f)[i] == f(items[i]) by {
            assert(e[i] == items[i] || e[i] == f(items[i]));
            assert(f(e[i]) == f(items[i]));
        }
    }
}

/// Where ids are unique, `edit_all` applies `f` exactly to the items that
/// have a handle in `hs`.
pub proof fn lemma_edit_all_exact(items: Seq<Item>, hs: Seq<Handle>, f: spec_fn(Item) -> Item)
    requires
        unique_ids(items),
        forall|x: Item| #[trigger] f(x).id == x.id,
        forall|x: Item| #[trigger] f(f(x)) == f(x),
    ensures
        edit_all(items, hs, f).len() == items.len(),
        unique_ids(edit_all(items, hs, f)),
        forall|i: int|
            0 <= i < items.len() ==> #[trigger] edit_all(items, hs, f)[i] == if holds(
                hs,
                items[i].id,
            ) {
                f(items[i])
            } else {
                items[i]
            },
    decreases hs.len(),
{
    if hs.len() > 0 {
        let prev = hs.drop_last();
        let last = hs.last();
        lemma_edit_all_exact(items, prev, f);
        let e = edit_all(items, prev, f);
        assert(forall|i: int| 0 <= i < e.len() ==> #[trigger] e[i].id == items[i].id);
        assert forall|i: int| 0 <= i < items.len() implies #[trigger] edit_all(items, hs, f)[i]
            == if holds(hs, items[i].id) {
            f(items[i])
        } else {
            items[i]
        } by {
            let id = items[i].id;
            if holds(prev, id) {
                let w = choose|w: int| 0 <= w < prev.len() && prev[w].id == id;
                assert(hs[w].id == id);
            }
            if id == last.id {
                assert(hs[hs.len() - 1].id == id);
            }
            if holds(hs, id) && !holds(prev, id) {
                let w = choose|w: int| 0 <= w < hs.len() && hs[w].id == id;
                if w < hs.len() - 1 {
                    assert(prev[w].id == id);
                }
            }
            if e[i].id == last.id {
                lemma_unique_item_pos(e, i);
            } else {
                match item_pos(e, last.id) {
                    Some(k) => {
                        assert(e[k].id == last.id);
                    },
                    None => {},
                }
            }
        }
        match item_pos(e, last.id) {
            Some(k) => {
                let r = edit_all(items, hs, f);
                assert(r == e.update(k, f(e[k])));
                assert forall|a: int, b: int|
                    0 <= a < r.len() && 0 <= b < r.len() && a != b implies r[a].id != r[b].id by {
                    assert(r[a].id == e[a].id);
                    assert(r[b].id == e[b].id);
                }
            },
            None => {},
        }
    }
}

/// After `GlobalStop` no handle is live, and every item is stopped at
/// position zero, given that ids are unique and that items without a handle
/// were already stopped at zero.
pub proof fn lemma_global_stop_clears(
    d0: Seq<Handle>,
    m0: Model,
    d1: Seq<Handle>,
    m1: Model,
    cmds: Seq<Command>,
)
    requires
        global_stop_done(d0, m0, d1, m1, cmds),
        unique_ids(m0.items@),
        forall|i: int|
            0 <= i < m0.items@.len() && !holds(d0, #[trigger] m0.items@[i].id) ==> m0.items@[i].status
                == ItemStatus::Stopped && m0.items@[i].target_position == 0,
    ensures
        d1.len() == 0,
        forall|i: int|
            0 <= i < m1.items@.len() ==> #[trigger] m1.items@[i].status == ItemStatus::Stopped
                && m1.items@[i].target_position == 0,
{
    lemma_edit_all_exact(m0.items@, d0, stopped());
    assert forall|i: int| 0 <= i < m1.items@.len() implies #[trigger] m1.items@[i].status
        == ItemStatus::Stopped && m1.items@[i].target_position == 0 by {
        assert(m1.items@[i] == if holds(d0, m0.items@[i].id) {
            stopped()(m0.items@[i])
        } else {
            m0.items@[i]
        });
    }
}

/// After `Delete(id)` no item, playlist entry or handle refers to `id`.
pub proof fn lemma_delete_cascade(
    d0: Seq<Handle>,
    m0: Model,
    d1: Seq<Handle>,
    m1: Model,
    cmds: Seq<Command>,
    id: u64,
)
    requires
        unique_handles(d0),
        delete_done(d0, m0, d1, m1, cmds, id),
    ensures
        !holds(d1, id),
        forall|i: int| 0 <= i < m1.items@.len() ==> (#[trigger] m1.items@[i]).id != id,
        forall|p: int, e: int|
            0 <= p < m1.playlists@.len() && 0 <= e < m1.playlists@[p].items@.len()
                ==> #[trigger] m1.playlists@[p].items@[e] != id,
{
    assert forall|i: int| 0 <= i < m1.items@.len() implies (#[trigger] m1.items@[i]).id != id by {
        assert(not_id(id)(m0.items@.filter(not_id(id))[i]));
    }
    assert forall|p: int, e: int|
        0 <= p < m1.playlists@.len() && 0 <= e < m1.playlists@[p].items@.len()
            implies #[trigger] m1.playlists@[p].items@[e] != id by {
        assert(other_than(id)(m0.playlists@[p].items@.filter(other_than(id))[e]));
    }
    match handle_pos(d0, id) {
        Some(k) => {
            assert(d0[k].id == id);
            if holds(d1, id) {
                let w = choose|w: int| 0 <= w < d1.len() && d1[w].id == id;
                if w < k {
                    assert(d0[w].id == id);
                } else {
                    assert(d0[w + 1].id == id);
                }
            }
        },
        None => {
            if holds(d1, id) {
                let w = choose|w: int| 0 <= w < d1.len() && d1[w].id == id;
                lemma_first_handle_exists(d0, id, w);
            }
        },
    }
}

/// A sync tick keeps every target position within its track.
pub proof fn lemma_sync_in_range(s: (Seq<Item>, Seq<Handle>, Seq<Command>), reports: Seq<HandleReport>)
    requires
        positions_in_range(s.0),
    ensures
        positions_in_range(sync_all(s, reports).0),
    decreases reports.len(),
{
    if reports.len() > 0 {
        lemma_sync_in_range(s, reports.drop_last());
        let prev = sync_all(s, reports.drop_last());
        let next = sync_one(prev, reports.last());
        assert forall|i: int| 0 <= i < next.0.len() implies #[trigger] next.0[i].target_position
            <= next.0[i].duration by {
            assert(prev.0[i].target_position <= prev.0[i].duration);
        }
    }
}

/// Editing one item with an `f` that keeps its target and duration keeps
/// every target position within its track.
pub proof fn lemma_edit_in_range(items: Seq<Item>, id: u64, f: spec_fn(Item) -> Item)
    requires
        positions_in_range(items),
        forall|x: Item| #[trigger] f(x).target_position == x.target_position && f(x).duration == x.duration,
    ensures
        positions_in_range(edit(items, id, f)),
{
    let e = edit(items, id, f);
    assert forall|i: int| 0 <= i < e.len() implies #[trigger] e[i].target_position <= e[i].duration by {
        assert(items[i].target_position <= items[i].duration);
        assert(f(items[i]).target_position == items[i].target_position);
    }
}

/// Every control message keeps each item's target position within its
/// track.
pub proof fn lemma_positions_stay_in_range(
    msg: ControlMessage,
    reports: Seq<HandleReport>,
    d0: Seq<Handle>,
    m0: Model,
    d1: Seq<Handle>,
    m1: Model,
    cmds: Seq<Command>,
)
    requires
        message_done(msg, reports, d0, m0, d1, m1, cmds),
        positions_in_range(m0.items@),
    ensures
        positions_in_range(m1.items@),
{
    let items = m0.items@;
    match msg {
        ControlMessage::Play(id) => {
            lemma_edit_in_range(items, id, with_status(ItemStatus::Playing));
        },
        ControlMessage::Pause(id) => {
            lemma_edit_in_range(items, id, with_status(ItemStatus::Paused));
        },
        ControlMessage::SyncPlaybackStatus => {
            lemma_sync_in_range((items, d0, Seq::empty()), reports);
        },
        ControlMessage::Seek(id, t) => {
            let to = crate::dispatcher::seek_target(items, id, t);
            let e = edit(items, id, crate::dispatcher::with_target(to));
            assert forall|i: int| 0 <= i < e.len() implies #[trigger] e[i].target_position
                <= e[i].duration by {
                assert(items[i].target_position <= items[i].duration);
            }
        },
        ControlMessage::Loop(id, b) => {
            lemma_edit_in_range(items, id, crate::dispatcher::with_looped(b));
        },
        ControlMessage::Delete(id) => {
            let f = items.filter(not_id(id));
            assert forall|i: int| 0 <= i < f.len() implies #[trigger] f[i].target_position
                <= f[i].duration by {
                assert(f.contains(f[i]));
                items.lemma_filter_contains_rev(not_id(id), f[i]);
                let j = choose|j: int| 0 <= j < items.len() && items[j] == f[i];
                assert(items[j].target_position <= items[j].duration);
            }
        },
        ControlMessage::GlobalPause => {
            lemma_edit_all_once(items, d0, with_status(ItemStatus::Paused));
            let e = edit_all(items, d0, with_status(ItemStatus::Paused));
            assert forall|i: int| 0 <= i < e.len() implies #[trigger] e[i].target_position
                <= e[i].duration by {
                assert(items[i].target_position <= items[i].duration);
            }
        },
        ControlMessage::GlobalStop => {
            lemma_edit_all_once(items, d0, stopped());
            let e = edit_all(items, d0, stopped());
            assert forall|i: int| 0 <= i < e.len() implies #[trigger] e[i].target_position
                <= e[i].duration by {
                assert(items[i].target_position <= items[i].duration);
            }
        },
        _ => {},
    }
}

/// Between sync ticks, only a seek or a global stop writes a target
/// position: under any other message each remaining item keeps the target
/// it had.
pub proof fn lemma_targets_written_only_by_sync_seek_or_stop(
    msg: ControlMessage,
    reports: Seq<HandleReport>,
    d0: Seq<Handle>,
    m0: Model,
    d1: Seq<Handle>,
    m1: Model,
    cmds: Seq<Command>,
)
    requires
        message_done(msg, reports, d0, m0, d1, m1, cmds),
        unique_ids(m0.items@),
        !(msg is SyncPlaybackStatus),
        !(msg is Seek),
        !(msg is GlobalStop),
    ensures
        targets_kept(m0.items@, m1.items@),
{
    let items = m0.items@;
    let later = m1.items@;
    match msg {
        ControlMessage::Delete(id) => {
            assert forall|i: int, j: int|
                0 <= i < later.len() && 0 <= j < items.len() && #[trigger] items[j].id == (
                #[trigger] later[i]).id implies items[j].target_position
                == later[i].target_position by {
                assert(later.contains(later[i]));
                items.lemma_filter_contains_rev(not_id(id), later[i]);
                let w = choose|w: int| 0 <= w < items.len() && items[w] == later[i];
                assert(items[w].id == items[j].id);
            }
        },
        ControlMessage::GlobalPause => {
            lemma_edit_all_once(items, d0, with_status(ItemStatus::Paused));
            assert forall|i: int, j: int|
                0 <= i < later.len() && 0 <= j < items.len() && #[trigger] items[j].id == (
                #[trigger] later[i]).id implies items[j].target_position
                == later[i].target_position by {
                assert(items[i].id == later[i].id);
            }
        },
        _ => {
            assert forall|i: int, j: int|
                0 <= i < later.len() && 0 <= j < items.len() && #[trigger] items[j].id == (
                #[trigger] later[i]).id implies items[j].target_position
                == later[i].target_position by {
                assert(items[i].id == later[i].id);
            }
        },
    }
}

/// Filtering keeps ids unique.
pub proof fn lemma_filter_unique(s: Seq<Item>, p: spec_fn(Item) -> bool)
    requires
        unique_ids(s),
    ensures
        unique_ids(s.filter(p)),
    decreases s.len(),
{
    reveal(Seq::filter);
    if s.len() > 0 {
        let prev = s.drop_last();
        assert(unique_ids(prev)) by {
            assert forall|i: int, j: int|
                0 <= i < prev.len() && 0 <= j < prev.len() && i != j implies prev[i].id
                != prev[j].id by {
                assert(prev[i] == s[i] && prev[j] == s[j]);
            }
        }
        lemma_filter_unique(prev, p);
        let f = prev.filter(p);
        if p(s.last()) {
            let g = f.push(s.last());
            assert(s.filter(p) == g);
            assert forall|i: int, j: int|
                0 <= i < g.len() && 0 <= j < g.len() && i != j implies g[i].id != g[j].id by {
                if i < f.len() && j < f.len() {
                    assert(g[i] == f[i] && g[j] == f[j]);
                } else {
                    let e = if i < f.len() {
                        i
                    } else {
                        j
                    };
                    assert(f.contains(f[e]));
                    prev.lemma_filter_contains_rev(p, f[e]);
                    let w = choose|w: int| 0 <= w < prev.len() && prev[w] == f[e];
                    assert(s[w] == f[e]);
                    assert(s[s.len() - 1].id != s[w].id);
                }
            }
        }
    }
}

/// The model's validity survives any change to its items that keeps each
/// item's id and validity in place, when its playlists and counter stay.
pub proof fn lemma_pointwise_keeps_wf(m0: Model, m1: Model)
    requires
        m0.wf(),
        m1.playlists == m0.playlists,
        m1.id_counter == m0.id_counter,
        m1.items@.len() == m0.items@.len(),
        forall|i: int|
            0 <= i < m0.items@.len() ==> (#[trigger] m1.items@[i]).id == m0.items@[i].id
                && m1.items@[i].wf(),
    ensures
        m1.wf(),
{
    assert forall|i: int| 0 <= i < m1.items@.len() implies #[trigger] m1.items@[i].id
        <= m1.id_counter by {
        assert(m0.items@[i].id <= m0.id_counter);
    }
    assert forall|i: int, j: int|
        0 <= i < m1.items@.len() && 0 <= j < m1.items@.len() && i != j implies m1.items@[i].id
        != m1.items@[j].id by {
        assert(m1.items@[i].id == m0.items@[i].id);
        assert(m1.items@[j].id == m0.items@[j].id);
    }
    assert forall|p: int, e: int|
        0 <= p < m1.playlists@.len() && 0 <= e < m1.playlists@[p].items@.len() implies m1.has_item(
        #[trigger] m1.playlists@[p].items@[e],
    ) by {
        let x = m1.playlists@[p].items@[e];
        assert(m0.has_item(m0.playlists@[p].items@[e]));
        let w = choose|w: int| 0 <= w < m0.items@.len() && m0.items@[w].id == x;
        assert(m1.items@[w].id == x);
    }
}

/// A sync tick keeps each item's id in place and each valid item valid.
pub proof fn lemma_sync_keeps_items(s: (Seq<Item>, Seq<Handle>, Seq<Command>), reports: Seq<HandleReport>)
    ensures
        sync_all(s, reports).0.len() == s.0.len(),
        forall|i: int|
            0 <= i < s.0.len() ==> (#[trigger] sync_all(s, reports).0[i]).id == s.0[i].id && (
            s.0[i].wf() ==> sync_all(s, reports).0[i].wf()),
    decreases reports.len(),
{
    if reports.len() > 0 {
        lemma_sync_keeps_items(s, reports.drop_last());
        let prev = sync_all(s, reports.drop_last());
        let next = sync_one(prev, reports.last());
        assert forall|i: int| 0 <= i < s.0.len() implies (#[trigger] sync_all(s, reports).0[i]).id
            == s.0[i].id && (s.0[i].wf() ==> sync_all(s, reports).0[i].wf()) by {
            assert(prev.0[i].id == s.0[i].id);
            assert(next.0[i].id == prev.0[i].id);
        }
    }
}

/// Editing with an `f` that keeps ids and validity keeps the model valid.
pub proof fn lemma_edit_keeps_wf(m0: Model, m1: Model, id: u64, f: spec_fn(Item) -> Item)
    requires
        m0.wf(),
        m1.playlists == m0.playlists,
        m1.id_counter == m0.id_counter,
        m1.items@ == edit(m0.items@, id, f),
        forall|x: Item| #[trigger] f(x).id == x.id,
        forall|x: Item| x.wf() ==> #[trigger] f(x).wf(),
    ensures
        m1.wf(),
{
    assert forall|i: int| 0 <= i < m0.items@.len() implies (#[trigger] m1.items@[i]).id
        == m0.items@[i].id && m1.items@[i].wf() by {
        assert(m0.items@[i].wf());
    }
    lemma_pointwise_keeps_wf(m0, m1);
}

/// Applying an id-keeping, validity-keeping, idempotent `f` to the items of
/// handles keeps the model valid.
proof fn lemma_edit_all_keeps_wf(m0: Model, m1: Model, hs: Seq<Handle>, f: spec_fn(Item) -> Item)
    requires
        m0.wf(),
        m1.playlists == m0.playlists,
        m1.id_counter == m0.id_counter,
        m1.items@ == edit_all(m0.items@, hs, f),
        forall|x: Item| #[trigger] f(x).id == x.id,
        forall|x: Item| #[trigger] f(f(x)) == f(x),
        forall|x: Item| x.wf() ==> #[trigger] f(x).wf(),
    ensures
        m1.wf(),
{
    lemma_edit_all_once(m0.items@, hs, f);
    assert forall|i: int| 0 <= i < m0.items@.len() implies (#[trigger] m1.items@[i]).id
        == m0.items@[i].id && m1.items@[i].wf() by {
        assert(m0.items@[i].wf());
    }
    lemma_pointwise_keeps_wf(m0, m1);
}

pub proof fn lemma_same_lists_keeps_wf(m0: Model, m1: Model)
    requires
        m0.wf(),
        m1.items@ == m0.items@,
        m1.playlists@ == m0.playlists@,
        m1.id_counter == m0.id_counter,
    ensures
        m1.wf(),
{
}

/// Every control message keeps the library valid: items well-formed, ids
/// unique, playlist entries naming items, ids within the counter.
pub proof fn lemma_messages_keep_model_valid(
    msg: ControlMessage,
    reports: Seq<HandleReport>,
    d0: Seq<Handle>,
    m0: Model,
    d1: Seq<Handle>,
    m1: Model,
    cmds: Seq<Command>,
)
    requires
        message_done(msg, reports, d0, m0, d1, m1, cmds),
        m0.wf(),
    ensures
        m1.wf(),
{
    let items = m0.items@;
    match msg {
        ControlMessage::Play(id) => {
            if handle_pos(d0, id) is Some {
                lemma_edit_keeps_wf(m0, m1, id, with_status(ItemStatus::Playing));
            } else {
                lemma_same_lists_keeps_wf(m0, m1);
            }
        },
        ControlMessage::Pause(id) => {
            if handle_pos(d0, id) is Some {
                lemma_edit_keeps_wf(m0, m1, id, with_status(ItemStatus::Paused));
            } else {
                lemma_same_lists_keeps_wf(m0, m1);
            }
        },
        ControlMessage::ChangeStem(_, _) => {
            lemma_same_lists_keeps_wf(m0, m1);
        },
        ControlMessage::SyncPlaybackStatus => {
            lemma_sync_keeps_items((items, d0, Seq::empty()), reports);
            assert forall|i: int| 0 <= i < items.len() implies (#[trigger] m1.items@[i]).id
                == items[i].id && m1.items@[i].wf() by {
                assert(items[i].wf());
            }
            lemma_pointwise_keeps_wf(m0, m1);
        },
        ControlMessage::Seek(id, t) => {
            if m1.items@ != items {
                let k = item_pos(items, id)->Some_0;
                assert(is_first_item_pos(items, id, k));
                assert forall|i: int| 0 <= i < items.len() implies (#[trigger] m1.items@[i]).id
                    == items[i].id && m1.items@[i].wf() by {
                    assert(items[i].wf());
                }
                lemma_pointwise_keeps_wf(m0, m1);
            } else {
                lemma_same_lists_keeps_wf(m0, m1);
            }
        },
        ControlMessage::Loop(id, b) => {
            lemma_edit_keeps_wf(m0, m1, id, crate::dispatcher::with_looped(b));
        },
        ControlMessage::Mute(_, _) => {
            lemma_same_lists_keeps_wf(m0, m1);
        },
        ControlMessage::SetVolume(_, _) => {
            lemma_same_lists_keeps_wf(m0, m1);
        },
        ControlMessage::Delete(id) => {
            let f = items.filter(not_id(id));
            lemma_filter_unique(items, not_id(id));
            assert forall|i: int| 0 <= i < m1.items@.len() implies #[trigger] m1.items@[i].wf()
                && m1.items@[i].id <= m1.id_counter by {
                assert(m1.items@[i] == f[i]);
                assert(f.contains(f[i]));
                items.lemma_filter_contains_rev(not_id(id), f[i]);
                let j = choose|j: int| 0 <= j < items.len() && items[j] == f[i];
                assert(items[j].wf());
                assert(items[j].id <= m0.id_counter);
            }
            assert forall|i: int| 0 <= i < m1.items@.len() implies #[trigger] m1.items@[i].id
                <= m1.id_counter by {
                assert(m1.items@[i].wf());
            }
            assert forall|i: int| 0 <= i < m1.playlists@.len() implies #[trigger] m1.playlists@[i].id
                <= m1.id_counter by {
                assert(m1.playlists@[i].id == m0.playlists@[i].id);
            }
            assert forall|p: int, e: int|
                0 <= p < m1.playlists@.len() && 0 <= e < m1.playlists@[p].items@.len()
                    implies m1.has_item(#[trigger] m1.playlists@[p].items@[e]) by {
                let l0 = m0.playlists@[p].items@;
                let x = m1.playlists@[p].items@[e];
                assert(other_than(id)(l0.filter(other_than(id))[e]));
                assert(l0.filter(other_than(id)).contains(x));
                l0.lemma_filter_contains_rev(other_than(id), x);
                let q = choose|q: int| 0 <= q < l0.len() && l0[q] == x;
                assert(m0.has_item(m0.playlists@[p].items@[q]));
                let w = choose|w: int| 0 <= w < items.len() && items[w].id == x;
                assert(not_id(id)(items[w]));
                assert(f.contains(items[w]));
                let v = choose|v: int| 0 <= v < f.len() && f[v] == items[w];
                assert(m1.items@[v].id == x);
            }
        },
        ControlMessage::AddToPlaylist { item_id, playlist_id } => {
            assert forall|i: int| 0 <= i < m1.playlists@.len() implies #[trigger] m1.playlists@[i].id
                <= m1.id_counter by {
                assert(m1.playlists@[i].id == m0.playlists@[i].id);
            }
            match playlist_pos(m0.playlists@, playlist_id) {
                Some(k) => {
                    if item_pos(items, item_id) is Some {
                        let w = item_pos(items, item_id)->Some_0;
                        assert(is_first_item_pos(items, item_id, w));
                        assert forall|p: int, e: int|
                            0 <= p < m1.playlists@.len() && 0 <= e < m1.playlists@[p].items@.len()
                                implies m1.has_item(#[trigger] m1.playlists@[p].items@[e]) by {
                            if p == k && e == m0.playlists@[k].items@.len() {
                                assert(m1.items@[w].id == item_id);
                            } else {
                                assert(m1.playlists@[p].items@[e] == m0.playlists@[p].items@[e]);
                            }
                        }
                    }
                },
                None => {},
            }
        },
        ControlMessage::RemoveFromPlaylist { pos_within_playlist, playlist_id } => {
            assert forall|i: int| 0 <= i < m1.playlists@.len() implies #[trigger] m1.playlists@[i].id
                <= m1.id_counter by {
                assert(m1.playlists@[i].id == m0.playlists@[i].id);
            }
            match playlist_pos(m0.playlists@, playlist_id) {
                Some(k) => {
                    let pos = pos_within_playlist as int;
                    assert forall|p: int, e: int|
                        0 <= p < m1.playlists@.len() && 0 <= e < m1.playlists@[p].items@.len()
                            implies m1.has_item(#[trigger] m1.playlists@[p].items@[e]) by {
                        if p == k && pos < m0.playlists@[k].items@.len() {
                            if e < pos {
                                assert(m1.playlists@[p].items@[e] == m0.playlists@[p].items@[e]);
                            } else {
                                assert(m1.playlists@[p].items@[e] == m0.playlists@[p].items@[e + 1]);
                            }
                        } else {
                            assert(m1.playlists@[p].items@[e] == m0.playlists@[p].items@[e]);
                        }
                    }
                },
                None => {},
            }
        },
        ControlMessage::PlayFromPlaylist(_) => {
            lemma_same_lists_keeps_wf(m0, m1);
        },
        ControlMessage::GlobalPause => {
            lemma_edit_all_keeps_wf(m0, m1, d0, with_status(ItemStatus::Paused));
        },
        ControlMessage::GlobalStop => {
            lemma_edit_all_keeps_wf(m0, m1, d0, stopped());
        },
    }
}

} // verus!
