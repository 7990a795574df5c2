use crate::classify::{classify_from_file_err, load_issue, FromFileError};
use crate::model::{edit, item_pos, playlist_pos, Issue, Item, ItemStatus, Model, Playlist};
use vstd::prelude::*;

verus! {

/// A command to the playback dispatcher. Times are milliseconds and gains
/// thousandths of full scale.
#[derive(Clone, Copy, Debug, PartialEq, Eq, Structural)]
pub enum ControlMessage {
    Play(u64),
    Pause(u64),
    /// Reserved: switching the stem of a live item is not defined yet.
    ChangeStem(u64, usize),
    SyncPlaybackStatus,
    Seek(u64, u64),
    Loop(u64, bool),
    Mute(u64, bool),
    SetVolume(u64, u32),
    Delete(u64),
    AddToPlaylist { item_id: u64, playlist_id: u64 },
    RemoveFromPlaylist { pos_within_playlist: usize, playlist_id: u64 },
    PlayFromPlaylist(u64),
    GlobalPause,
    GlobalStop,
}

/// Playback state that the backend reports for a handle.
#[derive(Clone, Copy, Debug, PartialEq, Eq, Structural)]
pub enum PlaybackState {
    Playing,
    Pausing,
    Paused,
    Stopping,
    Stopped,
}

/// A live backend handle, as the dispatcher last knew it.
#[derive(Clone, Copy, Debug, PartialEq, Eq, Structural)]
pub struct Handle {
    pub id: u64,
    pub state: PlaybackState,
}

/// What the backend reports of one handle at a sync tick.
#[derive(Clone, Copy, Debug, PartialEq, Eq, Structural)]
pub struct HandleReport {
    pub id: u64,
    pub state: PlaybackState,
    /// Position in milliseconds.
    pub position: u64,
}

/// Settings for opening an item's current stem as a streaming source.
#[derive(Clone, Debug)]
pub struct OpenRequest {
    pub id: u64,
    pub path: String,
    /// Start position in milliseconds.
    pub start_position: u64,
    /// Gain in thousandths of full scale.
    pub volume: u32,
    /// Whether playback loops back to the start.
    pub looped: bool,
}

/// An operation for the backend, or a message to post back on the channel.
#[derive(Clone, Debug)]
pub enum Command {
    /// Open a stream; report the outcome with `playback_started` or
    /// `playback_failed`.
    Open(OpenRequest),
    Resume(u64),
    Pause(u64),
    Stop(u64),
    Seek(u64, u64),
    SetVolume(u64, u32),
    /// Drop the handle.
    Release(u64),
    /// Post the message on the command channel.
    Send(ControlMessage),
}

/// The dispatcher's table of live handles, keyed by item id.
pub struct Dispatcher {
    pub handles: Vec<Handle>,
}

/// `k` is the first index of `hs` that holds a handle for `id`.
pub open spec fn is_first_handle(hs: Seq<Handle>, id: u64, k: int) -> bool {
    &&& 0 <= k < hs.len()
    &&& hs[k].id == id
    &&& forall|j: int| 0 <= j < k ==> #[trigger] hs[j].id != id
}

/// Index of the handle for `id`, if there is one.
pub open spec fn handle_pos(hs: Seq<Handle>, id: u64) -> Option<int> {
    if exists|k: int| is_first_handle(hs, id, k) {
        Some(choose|k: int| is_first_handle(hs, id, k))
    } else {
        None
    }
}

/// Whether `hs` holds a handle for `id`.
pub open spec fn holds(hs: Seq<Handle>, id: u64) -> bool {
    exists|i: int| 0 <= i < hs.len() && hs[i].id == id
}

/// No two handles share an id.
pub open spec fn unique_handles(hs: Seq<Handle>) -> bool {
    forall|i: int, j: int| 0 <= i < hs.len() && 0 <= j < hs.len() && i != j ==> hs[i].id != hs[j].id
}

/// The model's fields other than its items and playlists are equal.
pub open spec fn same_settings(m0: Model, m1: Model) -> bool {
    &&& m1.search_query == m0.search_query
    &&& m1.playlist_creation_state == m0.playlist_creation_state
    &&& m1.selected_playlist == m0.selected_playlist
    &&& m1.playing_playlist == m0.playing_playlist
    &&& m1.shuffle == m0.shuffle
    &&& m1.id_counter == m0.id_counter
}

/// Only the model's items may differ.
pub open spec fn same_but_items(m0: Model, m1: Model) -> bool {
    same_settings(m0, m1) && m1.playlists == m0.playlists
}

/// Nothing in the model differs.
pub open spec fn same_model(m0: Model, m1: Model) -> bool {
    same_but_items(m0, m1) && m1.items == m0.items
}

pub open spec fn with_status(s: ItemStatus) -> spec_fn(Item) -> Item {
    |it: Item| Item { status: s, ..it }
}

pub open spec fn with_target(t: u64) -> spec_fn(Item) -> Item {
    |it: Item| Item { target_position: t, ..it }
}

pub open spec fn with_looped(b: bool) -> spec_fn(Item) -> Item {
    |it: Item| Item { looped: b, ..it }
}

/// Gain at which an item plays.
pub open spec fn effective_volume(it: Item) -> u32 {
    if it.muted {
        0
    } else {
        it.volume
    }
}

/// `req` opens the current stem of `it` at its target position.
pub open spec fn opens(req: OpenRequest, it: Item) -> bool {
    &&& req.id == it.id
    &&& it.current_stem < it.stems@.len()
    &&& req.path@ == it.stems@[it.current_stem as int].path@
    &&& req.start_position == it.target_position
    &&& req.volume == effective_volume(it)
    &&& req.looped == it.looped
}

/// `after` is `before` with status `Stopped` and the issue of `e` appended.
pub open spec fn failed_with(before: Item, after: Item, e: FromFileError) -> bool {
    &&& after == Item { status: ItemStatus::Stopped, issues: after.issues, ..before }
    &&& after.issues@.len() == before.issues@.len() + 1
    &&& after.issues@.take(before.issues@.len() as int) == before.issues@
    &&& after.issues@.last().message@ == load_issue(e).0
    &&& after.issues@.last().category == load_issue(e).1
}

impl Dispatcher {
    /// A dispatcher with no live handles.
    pub fn new() -> (d: Dispatcher)
        ensures
            d.handles@.len() == 0,
            d.wf(),
    {
        Dispatcher { handles: Vec::new() }
    }

    /// At most one handle per item.
    pub open spec fn wf(&self) -> bool {
        unique_handles(self.handles@)
    }

    /// Whether a handle for `id` is live.
    pub fn has_handle(&self, id: u64) -> (r: bool)
        ensures
            r == holds(self.handles@, id),
    {
        let found = self.find_handle(id);
        proof {
            if holds(self.handles@, id) {
                let i = choose|i: int| 0 <= i < self.handles@.len() && self.handles@[i].id == id;
                assert(self.handles@[i].id == id);
            }
        }
        found.is_some()
    }

    /// Index of the handle for `id`.
    pub fn find_handle(&self, id: u64) -> (r: Option<usize>)
        ensures
            match r {
                Some(k) => handle_pos(self.handles@, id) == Some(k as int),
                None => handle_pos(self.handles@, id) is None && !holds(self.handles@, id),
            },
    {
        let mut i: usize = 0;
        while i < self.handles.len()
            invariant
                0 <= i <= self.handles@.len(),
                forall|j: int| 0 <= j < i ==> #[trigger] self.handles@[j].id != id,
            decreases self.handles@.len() - i,
        {
            if self.handles[i].id == id {
                proof {
                    assert(is_first_handle(self.handles@, id, i as int));
                    let c = choose|k: int| is_first_handle(self.handles@, id, k);
                    assert(c == i as int);
                }
                return Some(i);
            }
            i = i + 1;
        }
        proof {
            assert forall|k: int| !is_first_handle(self.handles@, id, k) by {
                if is_first_handle(self.handles@, id, k) {
                    assert(self.handles@[k].id != id);
                }
            }
        }
        None
    }
}


/// The settings for opening the current stem of the item with id `id`:
/// start at its target position, at its gain or silent when muted, looping
/// from the start when it loops. None when there is no such item or its
/// current stem is not one of its stems.
pub fn begin_playback(model: &Model, id: u64) -> (r: Option<OpenRequest>)
    ensures
        match item_pos(model.items@, id) {
            Some(k) => if model.items@[k].current_stem < model.items@[k].stems@.len() {
                r is Some && opens(r->Some_0, model.items@[k])
            } else {
                r is None
            },
            None => r is None,
        },
{
    match model.find_item(id) {
        Some(k) => {
            let item = &model.items[k];
            if item.current_stem < item.stems.len() {
                let path = item.stems[item.current_stem].path.clone();
                let volume = if item.muted {
                    0
                } else {
                    item.volume
                };
                Some(
                    OpenRequest {
                        id,
                        path,
                        start_position: item.target_position,
                        volume,
                        looped: item.looped,
                    },
                )
            } else {
                None
            }
        },
        None => None,
    }
}

pub open spec fn play_done(
    d0: Seq<Handle>,
    m0: Model,
    d1: Seq<Handle>,
    m1: Model,
    cmds: Seq<Command>,
    id: u64,
) -> bool {
    match handle_pos(d0, id) {
        Some(k) => {
            &&& d1 == d0.update(k, Handle { id, state: PlaybackState::Playing })
            &&& m1.items@ == edit(m0.items@, id, with_status(ItemStatus::Playing))
            &&& same_but_items(m0, m1)
            &&& cmds.len() == 1
            &&& cmds[0] == Command::Resume(id)
        },
        None => {
            &&& d1 == d0
            &&& same_model(m0, m1)
            &&& match item_pos(m0.items@, id) {
                Some(k) => if m0.items@[k].current_stem < m0.items@[k].stems@.len() {
                    cmds.len() == 1 && cmds[0] is Open && opens(cmds[0]->Open_0, m0.items@[k])
                } else {
                    cmds.len() == 0
                },
                None => cmds.len() == 0,
            }
        },
    }
}

pub open spec fn pause_done(
    d0: Seq<Handle>,
    m0: Model,
    d1: Seq<Handle>,
    m1: Model,
    cmds: Seq<Command>,
    id: u64,
) -> bool {
    match handle_pos(d0, id) {
        Some(k) => {
            &&& d1 == d0.update(k, Handle { id, state: PlaybackState::Paused })
            &&& m1.items@ == edit(m0.items@, id, with_status(ItemStatus::Paused))
            &&& same_but_items(m0, m1)
            &&& cmds.len() == 1
            &&& cmds[0] == Command::Pause(id)
        },
        None => d1 == d0 && same_model(m0, m1) && cmds.len() == 0,
    }
}

/// Where a seek to `t` lands on the item `id`: `t`, capped at the length of
/// the item's track.
pub open spec fn seek_target(items: Seq<Item>, id: u64, t: u64) -> u64 {
    match item_pos(items, id) {
        Some(k) => if t > items[k].duration {
            items[k].duration
        } else {
            t
        },
        None => t,
    }
}

pub open spec fn seek_done(
    d0: Seq<Handle>,
    m0: Model,
    d1: Seq<Handle>,
    m1: Model,
    cmds: Seq<Command>,
    id: u64,
    t: u64,
) -> bool {
    let to = seek_target(m0.items@, id, t);
    &&& d1 == d0
    &&& match handle_pos(d0, id) {
        Some(k) => cmds.len() == 1 && cmds[0] == Command::Seek(id, to) && if d0[k].state
            == PlaybackState::Playing {
            same_model(m0, m1)
        } else {
            m1.items@ == edit(m0.items@, id, with_target(to)) && same_but_items(m0, m1)
        },
        None => cmds.len() == 0 && m1.items@ == edit(m0.items@, id, with_target(to))
            && same_but_items(m0, m1),
    }
}

pub open spec fn mute_done(
    d0: Seq<Handle>,
    m0: Model,
    d1: Seq<Handle>,
    m1: Model,
    cmds: Seq<Command>,
    id: u64,
    mute: bool,
) -> bool {
    &&& d1 == d0
    &&& same_model(m0, m1)
    &&& if holds(d0, id) && item_pos(m0.items@, id) is Some {
        let it = m0.items@[item_pos(m0.items@, id)->Some_0];
        cmds.len() == 1 && cmds[0] == Command::SetVolume(
            id,
            if mute {
                0
            } else {
                it.volume
            },
        )
    } else {
        cmds.len() == 0
    }
}

pub open spec fn volume_done(
    d0: Seq<Handle>,
    m0: Model,
    d1: Seq<Handle>,
    m1: Model,
    cmds: Seq<Command>,
    id: u64,
    v: u32,
) -> bool {
    &&& d1 == d0
    &&& same_model(m0, m1)
    &&& if holds(d0, id) {
        cmds.len() == 1 && cmds[0] == Command::SetVolume(id, v)
    } else {
        cmds.len() == 0
    }
}

impl Dispatcher {
    /// `Play(id)`: resume a live handle and mark the item playing, or ask
    /// for the item's current stem to be opened.
    pub fn play(&mut self, model: &mut Model, id: u64) -> (cmds: Vec<Command>)
        ensures
            play_done(old(self).handles@, *old(model), final(self).handles@, *final(model), cmds@, id),
    {
        let mut cmds: Vec<Command> = Vec::new();
        match self.find_handle(id) {
            Some(k) => {
                self.handles.set(k, Handle { id, state: PlaybackState::Playing });
                set_status(model, id, ItemStatus::Playing);
                cmds.push(Command::Resume(id));
            },
            None => {
                match begin_playback(model, id) {
                    Some(req) => cmds.push(Command::Open(req)),
                    None => {},
                }
            },
        }
        cmds
    }

    /// `Pause(id)`: pause a live handle and mark the item paused.
    pub fn pause(&mut self, model: &mut Model, id: u64) -> (cmds: Vec<Command>)
        ensures
            pause_done(old(self).handles@, *old(model), final(self).handles@, *final(model), cmds@, id),
    {
        let mut cmds: Vec<Command> = Vec::new();
        match self.find_handle(id) {
            Some(k) => {
                self.handles.set(k, Handle { id, state: PlaybackState::Paused });
                set_status(model, id, ItemStatus::Paused);
                cmds.push(Command::Pause(id));
            },
            None => {},
        }
        cmds
    }

    /// `Seek(id, t)`: seek a live handle to `t`, capped at the item's length;
    /// the target position is written at once unless the handle is playing,
    /// in which case the next sync brings it.
    pub fn seek(&mut self, model: &mut Model, id: u64, t: u64) -> (cmds: Vec<Command>)
        ensures
            seek_done(old(self).handles@, *old(model), final(self).handles@, *final(model), cmds@, id, t),
    {
        let mut cmds: Vec<Command> = Vec::new();
        let to = match model.find_item(id) {
            Some(i) => if t > model.items[i].duration {
                model.items[i].duration
            } else {
                t
            },
            None => t,
        };
        let mut defer_to_sync = false;
        match self.find_handle(id) {
            Some(k) => {
                cmds.push(Command::Seek(id, to));
                defer_to_sync = self.handles[k].state == PlaybackState::Playing;
            },
            None => {},
        }
        if !defer_to_sync {
            set_target(model, id, to);
        }
        cmds
    }

    /// `Mute(id, mute)`: silence a live handle, or restore the item's gain.
    pub fn mute(&mut self, model: &mut Model, id: u64, mute: bool) -> (cmds: Vec<Command>)
        ensures
            mute_done(old(self).handles@, *old(model), final(self).handles@, *final(model), cmds@, id, mute),
    {
        let mut cmds: Vec<Command> = Vec::new();
        if self.has_handle(id) {
            match model.find_item(id) {
                Some(k) => {
                    let v = if mute {
                        0
                    } else {
                        model.items[k].volume
                    };
                    cmds.push(Command::SetVolume(id, v));
                },
                None => {},
            }
        }
        cmds
    }

    /// `SetVolume(id, v)`: set the gain of a live handle.
    pub fn set_volume(&mut self, model: &mut Model, id: u64, v: u32) -> (cmds: Vec<Command>)
        ensures
            volume_done(old(self).handles@, *old(model), final(self).handles@, *final(model), cmds@, id, v),
    {
        let mut cmds: Vec<Command> = Vec::new();
        if self.has_handle(id) {
            cmds.push(Command::SetVolume(id, v));
        }
        cmds
    }

    /// The stream for `id` opened: its handle is live and the item plays.
    pub fn playback_started(&mut self, model: &mut Model, id: u64)
        requires
            old(self).wf(),
        ensures
            final(self).wf(),
            final(self).handles@ == match handle_pos(old(self).handles@, id) {
                Some(k) => old(self).handles@.update(k, Handle { id, state: PlaybackState::Playing }),
                None => old(self).handles@.push(Handle { id, state: PlaybackState::Playing }),
            },
            final(model).items@ == edit(old(model).items@, id, with_status(ItemStatus::Playing)),
            same_but_items(*old(model), *final(model)),
            old(model).wf() ==> final(model).wf(),
    {
        let ghost m0 = *model;
        match self.find_handle(id) {
            Some(k) => {
                self.handles.set(k, Handle { id, state: PlaybackState::Playing });
            },
            None => {
                self.handles.push(Handle { id, state: PlaybackState::Playing });
            },
        }
        set_status(model, id, ItemStatus::Playing);
        proof {
            if m0.wf() {
                crate::dispatch_laws::lemma_edit_keeps_wf(m0, *model, id, with_status(ItemStatus::Playing));
            }
        }
    }

    /// The stream for `id` could not be opened: the item stops and records
    /// the classified issue; no handle is made.
    pub fn playback_failed(&mut self, model: &mut Model, id: u64, err: &FromFileError)
        ensures
            final(self).handles@ == old(self).handles@,
            same_but_items(*old(model), *final(model)),
            match item_pos(old(model).items@, id) {
                Some(k) => final(model).items@.len() == old(model).items@.len()
                    && (forall|j: int|
                    0 <= j < old(model).items@.len() && j != k ==> final(model).items@[j]
                        == old(model).items@[j]) && failed_with(
                    old(model).items@[k],
                    final(model).items@[k],
                    *err,
                ),
                None => final(model).items == old(model).items,
            },
            old(model).wf() ==> final(model).wf(),
    {
        match model.find_item(id) {
            Some(k) => {
                let ghost before = model.items@[k as int];
                let (message, category) = classify_from_file_err(err);
                model.items[k].status = ItemStatus::Stopped;
                model.items[k].issues.push(Issue { category, message });
                proof {
                    let after = model.items@[k as int];
                    assert(after.issues@.take(before.issues@.len() as int) =~= before.issues@);
                    assert(after == Item { status: ItemStatus::Stopped, issues: after.issues, ..before });
                    if old(model).wf() {
                        assert forall|i: int| 0 <= i < old(model).items@.len() implies (
                        #[trigger] model.items@[i]).id == old(model).items@[i].id
                            && model.items@[i].wf() by {
                            assert(old(model).items@[i].wf());
                        }
                        crate::dispatch_laws::lemma_pointwise_keeps_wf(*old(model), *model);
                    }
                }
            },
            None => {},
        }
    }
}


pub open spec fn not_id(id: u64) -> spec_fn(Item) -> bool {
    |it: Item| it.id != id
}

pub open spec fn other_than(id: u64) -> spec_fn(u64) -> bool {
    |x: u64| x != id
}

/// `l1` is `l0` with `id` taken out of every playlist.
pub open spec fn pruned(l0: Seq<Playlist>, l1: Seq<Playlist>, id: u64) -> bool {
    &&& l1.len() == l0.len()
    &&& forall|p: int|
        0 <= p < l0.len() ==> {
            &&& #[trigger] l1[p] == (Playlist { items: l1[p].items, ..l0[p] })
            &&& l1[p].items@ == l0[p].items@.filter(other_than(id))
        }
}

/// `l1` is `l0` with the entries of playlist `k` replaced by `entries`.
pub open spec fn list_edited(l0: Seq<Playlist>, l1: Seq<Playlist>, k: int, entries: Seq<u64>) -> bool {
    &&& l1.len() == l0.len()
    &&& forall|j: int| 0 <= j < l0.len() && j != k ==> #[trigger] l1[j] == l0[j]
    &&& l1[k] == Playlist { items: l1[k].items, ..l0[k] }
    &&& l1[k].items@ == entries
}

pub open spec fn delete_done(
    d0: Seq<Handle>,
    m0: Model,
    d1: Seq<Handle>,
    m1: Model,
    cmds: Seq<Command>,
    id: u64,
) -> bool {
    &&& match handle_pos(d0, id) {
        Some(k) => d1 == d0.remove(k) && cmds.len() == 2 && cmds[0] == Command::Stop(id)
            && cmds[1] == Command::Release(id),
        None => d1 == d0 && cmds.len() == 0,
    }
    &&& m1.items@ == m0.items@.filter(not_id(id))
    &&& pruned(m0.playlists@, m1.playlists@, id)
    &&& same_settings(m0, m1)
}

pub open spec fn add_done(m0: Model, m1: Model, item_id: u64, playlist_id: u64) -> bool {
    &&& m1.items == m0.items
    &&& same_settings(m0, m1)
    &&& match playlist_pos(m0.playlists@, playlist_id) {
        Some(k) => if item_pos(m0.items@, item_id) is Some {
            list_edited(m0.playlists@, m1.playlists@, k, m0.playlists@[k].items@.push(item_id))
        } else {
            m1.playlists == m0.playlists
        },
        None => m1.playlists == m0.playlists,
    }
}

pub open spec fn remove_done(m0: Model, m1: Model, pos: usize, playlist_id: u64) -> bool {
    &&& m1.items == m0.items
    &&& same_settings(m0, m1)
    &&& match playlist_pos(m0.playlists@, playlist_id) {
        Some(k) => if pos < m0.playlists@[k].items@.len() {
            list_edited(m0.playlists@, m1.playlists@, k, m0.playlists@[k].items@.remove(pos as int))
        } else {
            m1.playlists == m0.playlists
        },
        None => m1.playlists == m0.playlists,
    }
}

/// `items` with `f` applied to the item of each handle of `hs` in turn.
pub open spec fn edit_all(items: Seq<Item>, hs: Seq<Handle>, f: spec_fn(Item) -> Item) -> Seq<Item>
    decreases hs.len(),
{
    if hs.len() == 0 {
        items
    } else {
        edit(edit_all(items, hs.drop_last(), f), hs.last().id, f)
    }
}

pub open spec fn stopped() -> spec_fn(Item) -> Item {
    |it: Item| Item { status: ItemStatus::Stopped, target_position: 0, ..it }
}

pub open spec fn global_pause_done(
    d0: Seq<Handle>,
    m0: Model,
    d1: Seq<Handle>,
    m1: Model,
    cmds: Seq<Command>,
) -> bool {
    &&& d1 == Seq::new(d0.len(), |i: int| Handle { id: d0[i].id, state: PlaybackState::Paused })
    &&& cmds == Seq::new(d0.len(), |i: int| Command::Pause(d0[i].id))
    &&& m1.items@ == edit_all(m0.items@, d0, with_status(ItemStatus::Paused))
    &&& same_but_items(m0, m1)
}

pub open spec fn global_stop_done(
    d0: Seq<Handle>,
    m0: Model,
    d1: Seq<Handle>,
    m1: Model,
    cmds: Seq<Command>,
) -> bool {
    &&& d1.len() == 0
    &&& cmds == Seq::new(d0.len(), |i: int| Command::Stop(d0[i].id)) + Seq::new(
        d0.len(),
        |i: int| Command::Release(d0[i].id),
    )
    &&& m1.items@ == edit_all(m0.items@, d0, stopped())
    &&& same_but_items(m0, m1)
}

/// Items, handles and commands after one sync report.
pub open spec fn sync_one(
    s: (Seq<Item>, Seq<Handle>, Seq<Command>),
    r: HandleReport,
) -> (Seq<Item>, Seq<Handle>, Seq<Command>) {
    let (items, hs, cmds) = s;
    let seen = Handle { id: r.id, state: r.state };
    match handle_pos(hs, r.id) {
        None => s,
        Some(h) => if r.state == PlaybackState::Paused {
            (items, hs.update(h, seen), cmds)
        } else {
            match item_pos(items, r.id) {
                None => (items, hs.update(h, seen), cmds),
                Some(k) => {
                    let it = items[k];
                    if r.position >= it.duration || r.state == PlaybackState::Stopped {
                        if it.looped {
                            (
                                items.update(
                                    k,
                                    Item { target_position: 0, status: ItemStatus::Loading, ..it },
                                ),
                                hs.remove(h),
                                cmds + seq![
                                    Command::Send(ControlMessage::Play(r.id)),
                                    Command::Release(r.id),
                                ],
                            )
                        } else {
                            (
                                items.update(
                                    k,
                                    Item { target_position: 0, status: ItemStatus::Stopped, ..it },
                                ),
                                hs.remove(h),
                                cmds + seq![Command::Stop(r.id), Command::Release(r.id)],
                            )
                        }
                    } else {
                        (
                            items.update(k, Item { target_position: r.position, ..it }),
                            hs.update(h, seen),
                            cmds,
                        )
                    }
                },
            }
        },
    }
}

/// Items, handles and commands after the reports, in order.
pub open spec fn sync_all(
    s: (Seq<Item>, Seq<Handle>, Seq<Command>),
    reports: Seq<HandleReport>,
) -> (Seq<Item>, Seq<Handle>, Seq<Command>)
    decreases reports.len(),
{
    if reports.len() == 0 {
        s
    } else {
        sync_one(sync_all(s, reports.drop_last()), reports.last())
    }
}

/// What processing `msg` does to the handles, the model and the commands.
pub open spec fn message_done(
    msg: ControlMessage,
    reports: Seq<HandleReport>,
    d0: Seq<Handle>,
    m0: Model,
    d1: Seq<Handle>,
    m1: Model,
    cmds: Seq<Command>,
) -> bool {
    match msg {
        ControlMessage::Play(id) => play_done(d0, m0, d1, m1, cmds, id),
        ControlMessage::Pause(id) => pause_done(d0, m0, d1, m1, cmds, id),
        ControlMessage::ChangeStem(_, _) => d1 == d0 && same_model(m0, m1) && cmds.len() == 0,
        ControlMessage::SyncPlaybackStatus => {
            &&& (m1.items@, d1, cmds) == sync_all((m0.items@, d0, Seq::empty()), reports)
            &&& same_but_items(m0, m1)
        },
        ControlMessage::Seek(id, t) => seek_done(d0, m0, d1, m1, cmds, id, t),
        ControlMessage::Loop(id, b) => {
            &&& d1 == d0
            &&& m1.items@ == edit(m0.items@, id, with_looped(b))
            &&& same_but_items(m0, m1)
            &&& cmds.len() == 0
        },
        ControlMessage::Mute(id, b) => mute_done(d0, m0, d1, m1, cmds, id, b),
        ControlMessage::SetVolume(id, v) => volume_done(d0, m0, d1, m1, cmds, id, v),
        ControlMessage::Delete(id) => delete_done(d0, m0, d1, m1, cmds, id),
        ControlMessage::AddToPlaylist { item_id, playlist_id } => {
            d1 == d0 && cmds.len() == 0 && add_done(m0, m1, item_id, playlist_id)
        },
        ControlMessage::RemoveFromPlaylist { pos_within_playlist, playlist_id } => {
            d1 == d0 && cmds.len() == 0 && remove_done(m0, m1, pos_within_playlist, playlist_id)
        },
        ControlMessage::PlayFromPlaylist(id) => {
            &&& d1 == d0
            &&& cmds.len() == 0
            &&& m1 == Model { playing_playlist: Some(id), ..m0 }
        },
        ControlMessage::GlobalPause => global_pause_done(d0, m0, d1, m1, cmds),
        ControlMessage::GlobalStop => global_stop_done(d0, m0, d1, m1, cmds),
    }
}

/// The items of `items` whose id is not `id`, in order.
fn remove_items_with(model: &mut Model, id: u64)
    ensures
        final(model).items@ == old(model).items@.filter(not_id(id)),
        same_but_items(*old(model), *final(model)),
{
    let ghost m0 = *model;
    let mut rest: Vec<Item> = Vec::new();
    core::mem::swap(&mut rest, &mut model.items);
    let ghost orig = rest@;
    let n = rest.len();
    let mut i: usize = 0;
    while rest.len() > 0
        invariant
            i <= orig.len(),
            orig.len() == n,
            rest@ == orig.skip(i as int),
            model.items@ == orig.take(i as int).filter(not_id(id)),
            orig == m0.items@,
            same_but_items(m0, *model),
        decreases rest@.len(),
    {
        assert(i < orig.len());
        let it = rest.remove(0);
        proof {
            assert(orig.take(i + 1) =~= orig.take(i as int).push(orig[i as int]));
            orig.take(i as int).lemma_filter_push(orig[i as int], not_id(id));
            assert(rest@ =~= orig.skip(i + 1));
        }
        if it.id != id {
            model.items.push(it);
        }
        i = i + 1;
    }
    proof {
        assert(orig.take(i as int) =~= orig);
    }
}

/// The entries of `ids` other than `id`, in order.
fn without(ids: &Vec<u64>, id: u64) -> (r: Vec<u64>)
    ensures
        r@ == ids@.filter(other_than(id)),
{
    let mut r: Vec<u64> = Vec::new();
    let mut i: usize = 0;
    while i < ids.len()
        invariant
            i <= ids@.len(),
            r@ == ids@.take(i as int).filter(other_than(id)),
        decreases ids@.len() - i,
    {
        proof {
            assert(ids@.take(i + 1) =~= ids@.take(i as int).push(ids@[i as int]));
            ids@.take(i as int).lemma_filter_push(ids@[i as int], other_than(id));
        }
        if ids[i] != id {
            r.push(ids[i]);
        }
        i = i + 1;
    }
    proof {
        assert(ids@.take(i as int) =~= ids@);
    }
    r
}

/// Takes `id` out of every playlist.
fn prune_playlists(model: &mut Model, id: u64)
    ensures
        pruned(old(model).playlists@, final(model).playlists@, id),
        final(model).items == old(model).items,
        same_settings(*old(model), *final(model)),
{
    let ghost m0 = *model;
    let mut p: usize = 0;
    while p < model.playlists.len()
        invariant
            p <= model.playlists@.len(),
            model.playlists@.len() == m0.playlists@.len(),
            forall|q: int|
                0 <= q < p ==> {
                    &&& #[trigger] model.playlists@[q] == (Playlist {
                        items: model.playlists@[q].items,
                        ..m0.playlists@[q]
                    })
                    &&& model.playlists@[q].items@ == m0.playlists@[q].items@.filter(other_than(id))
                },
            forall|q: int| p <= q < m0.playlists@.len() ==> #[trigger] model.playlists@[q] == m0.playlists@[q],
            model.items == m0.items,
            same_settings(m0, *model),
        decreases m0.playlists@.len() - p,
    {
        let entries = without(&model.playlists[p].items, id);
        model.playlists[p].items = entries;
        p = p + 1;
    }
}

impl Dispatcher {
    /// `Delete(id)`: stop and drop the item's handle, remove the item and
    /// take it out of every playlist.
    pub fn delete(&mut self, model: &mut Model, id: u64) -> (cmds: Vec<Command>)
        requires
            old(self).wf(),
        ensures
            final(self).wf(),
            delete_done(old(self).handles@, *old(model), final(self).handles@, *final(model), cmds@, id),
    {
        let mut cmds: Vec<Command> = Vec::new();
        match self.find_handle(id) {
            Some(k) => {
                self.handles.remove(k);
                cmds.push(Command::Stop(id));
                cmds.push(Command::Release(id));
            },
            None => {},
        }
        remove_items_with(model, id);
        prune_playlists(model, id);
        cmds
    }

    /// `GlobalPause`: pause every live handle and mark its item paused.
    pub fn global_pause(&mut self, model: &mut Model) -> (cmds: Vec<Command>)
        requires
            old(self).wf(),
        ensures
            final(self).wf(),
            global_pause_done(old(self).handles@, *old(model), final(self).handles@, *final(model), cmds@),
    {
        let ghost d0 = self.handles@;
        let ghost m0 = *model;
        let mut cmds: Vec<Command> = Vec::new();
        let mut i: usize = 0;
        while i < self.handles.len()
            invariant
                i <= d0.len(),
                self.handles@.len() == d0.len(),
                forall|j: int| 0 <= j < i ==> #[trigger] self.handles@[j] == (Handle {
                    id: d0[j].id,
                    state: PlaybackState::Paused,
                }),
                forall|j: int| i <= j < d0.len() ==> #[trigger] self.handles@[j] == d0[j],
                cmds@ == Seq::new(i as nat, |j: int| Command::Pause(d0[j].id)),
                model.items@ == edit_all(m0.items@, d0.take(i as int), with_status(ItemStatus::Paused)),
                same_but_items(m0, *model),
            decreases d0.len() - i,
        {
            let hid = self.handles[i].id;
            self.handles.set(i, Handle { id: hid, state: PlaybackState::Paused });
            set_status(model, hid, ItemStatus::Paused);
            cmds.push(Command::Pause(hid));
            proof {
                assert(d0.take(i + 1).drop_last() =~= d0.take(i as int));
                assert(cmds@ =~= Seq::new((i + 1) as nat, |j: int| Command::Pause(d0[j].id)));
            }
            i = i + 1;
        }
        proof {
            assert(d0.take(i as int) =~= d0);
            assert(self.handles@ =~= Seq::new(
                d0.len(),
                |j: int| Handle { id: d0[j].id, state: PlaybackState::Paused },
            ));
        }
        cmds
    }

    /// `GlobalStop`: stop and drop every live handle; each of their items
    /// stops at position zero.
    pub fn global_stop(&mut self, model: &mut Model) -> (cmds: Vec<Command>)
        ensures
            final(self).wf(),
            global_stop_done(old(self).handles@, *old(model), final(self).handles@, *final(model), cmds@),
    {
        let ghost d0 = self.handles@;
        let ghost m0 = *model;
        let mut cmds: Vec<Command> = Vec::new();
        let mut i: usize = 0;
        while i < self.handles.len()
            invariant
                i <= d0.len(),
                self.handles@ == d0,
                cmds@ == Seq::new(i as nat, |j: int| Command::Stop(d0[j].id)),
                model.items@ == edit_all(m0.items@, d0.take(i as int), stopped()),
                same_but_items(m0, *model),
            decreases d0.len() - i,
        {
            let hid = self.handles[i].id;
            match model.find_item(hid) {
                Some(k) => {
                    model.items[k].status = ItemStatus::Stopped;
                    model.items[k].target_position = 0;
                },
                None => {},
            }
            cmds.push(Command::Stop(hid));
            proof {
                assert(d0.take(i + 1).drop_last() =~= d0.take(i as int));
                assert(cmds@ =~= Seq::new((i + 1) as nat, |j: int| Command::Stop(d0[j].id)));
            }
            i = i + 1;
        }
        let mut j: usize = 0;
        while j < self.handles.len()
            invariant
                j <= d0.len(),
                self.handles@ == d0,
                cmds@ == Seq::new(d0.len(), |x: int| Command::Stop(d0[x].id)) + Seq::new(
                    j as nat,
                    |x: int| Command::Release(d0[x].id),
                ),
            decreases d0.len() - j,
        {
            cmds.push(Command::Release(self.handles[j].id));
            proof {
                assert(cmds@ =~= Seq::new(d0.len(), |x: int| Command::Stop(d0[x].id)) + Seq::new(
                    (j + 1) as nat,
                    |x: int| Command::Release(d0[x].id),
                ));
            }
            j = j + 1;
        }
        self.handles.clear();
        proof {
            assert(d0.take(d0.len() as int) =~= d0);
        }
        cmds
    }
}


impl Dispatcher {
    /// `AddToPlaylist`: append the item id to the playlist; duplicates are
    /// kept, and an id that names no item of the library is not added.
    pub fn add_to_playlist(&mut self, model: &mut Model, item_id: u64, playlist_id: u64) -> (cmds: Vec<Command>)
        ensures
            final(self).handles@ == old(self).handles@,
            cmds@.len() == 0,
            add_done(*old(model), *final(model), item_id, playlist_id),
    {
        match model.find_playlist(playlist_id) {
            Some(k) => {
                if model.find_item(item_id).is_some() {
                    model.playlists[k].items.push(item_id);
                }
            },
            None => {},
        }
        Vec::new()
    }

    /// `RemoveFromPlaylist`: remove the entry at the given position, when
    /// the playlist has one there.
    pub fn remove_from_playlist(&mut self, model: &mut Model, pos: usize, playlist_id: u64) -> (cmds: Vec<Command>)
        ensures
            final(self).handles@ == old(self).handles@,
            cmds@.len() == 0,
            remove_done(*old(model), *final(model), pos, playlist_id),
    {
        match model.find_playlist(playlist_id) {
            Some(k) => {
                if pos < model.playlists[k].items.len() {
                    model.playlists[k].items.remove(pos);
                }
            },
            None => {},
        }
        Vec::new()
    }

    /// `Loop(id, b)`: store the flag on the item; it takes effect at the next
    /// open, since a live stream cannot change it.
    pub fn set_loop(&mut self, model: &mut Model, id: u64, b: bool) -> (cmds: Vec<Command>)
        ensures
            final(self).handles@ == old(self).handles@,
            cmds@.len() == 0,
            final(model).items@ == edit(old(model).items@, id, with_looped(b)),
            same_but_items(*old(model), *final(model)),
    {
        match model.find_item(id) {
            Some(k) => {
                model.items[k].looped = b;
            },
            None => {},
        }
        Vec::new()
    }

    /// `SyncPlaybackStatus`: copy each reported position of a handle that is
    /// not paused into its item's target position; a handle that reached
    /// the end or stopped is dropped, and its item either re-opens from the
    /// start (when looped) or stops.
    pub fn sync_playback_status(&mut self, model: &mut Model, reports: &Vec<HandleReport>) -> (cmds: Vec<Command>)
        requires
            old(self).wf(),
        ensures
            final(self).wf(),
            (final(model).items@, final(self).handles@, cmds@) == sync_all(
                (old(model).items@, old(self).handles@, Seq::empty()),
                reports@,
            ),
            same_but_items(*old(model), *final(model)),
    {
        let ghost d0 = self.handles@;
        let ghost m0 = *model;
        let mut cmds: Vec<Command> = Vec::new();
        let mut i: usize = 0;
        while i < reports.len()
            invariant
                i <= reports@.len(),
                unique_handles(self.handles@),
                (model.items@, self.handles@, cmds@) == sync_all(
                    (m0.items@, d0, Seq::empty()),
                    reports@.take(i as int),
                ),
                same_but_items(m0, *model),
            decreases reports@.len() - i,
        {
            let r = reports[i];
            let seen = Handle { id: r.id, state: r.state };
            proof {
                assert(reports@.take(i + 1).drop_last() =~= reports@.take(i as int));
            }
            match self.find_handle(r.id) {
                None => {},
                Some(h) => {
                    if r.state == PlaybackState::Paused {
                        self.handles.set(h, seen);
                    } else {
                        match model.find_item(r.id) {
                            None => {
                                self.handles.set(h, seen);
                            },
                            Some(k) => {
                                if r.position >= model.items[k].duration || r.state
                                    == PlaybackState::Stopped {
                                    model.items[k].target_position = 0;
                                    let ghost c0 = cmds@;
                                    if model.items[k].looped {
                                        model.items[k].status = ItemStatus::Loading;
                                        cmds.push(Command::Send(ControlMessage::Play(r.id)));
                                        cmds.push(Command::Release(r.id));
                                        proof {
                                            assert(cmds@ =~= c0 + seq![
                                                Command::Send(ControlMessage::Play(r.id)),
                                                Command::Release(r.id),
                                            ]);
                                        }
                                    } else {
                                        model.items[k].status = ItemStatus::Stopped;
                                        cmds.push(Command::Stop(r.id));
                                        cmds.push(Command::Release(r.id));
                                        proof {
                                            assert(cmds@ =~= c0 + seq![
                                                Command::Stop(r.id),
                                                Command::Release(r.id),
                                            ]);
                                        }
                                    }
                                    self.handles.remove(h);
                                } else {
                                    model.items[k].target_position = r.position;
                                    self.handles.set(h, seen);
                                }
                            },
                        }
                    }
                },
            }
            i = i + 1;
        }
        proof {
            assert(reports@.take(i as int) =~= reports@);
        }
        cmds
    }

    /// Processes one control message: updates the handle table and the
    /// model, and returns what the backend must do, in order. The reports
    /// are read for `SyncPlaybackStatus` only.
    pub fn process_message(
        &mut self,
        model: &mut Model,
        msg: ControlMessage,
        reports: &Vec<HandleReport>,
    ) -> (cmds: Vec<Command>)
        requires
            old(self).wf(),
        ensures
            final(self).wf(),
            message_done(
                msg,
                reports@,
                old(self).handles@,
                *old(model),
                final(self).handles@,
                *final(model),
                cmds@,
            ),
            old(model).wf() ==> final(model).wf(),
    {
        let ghost d0 = self.handles@;
        let ghost m0 = *model;
        let cmds = match msg {
            ControlMessage::Play(id) => self.play(model, id),
            ControlMessage::Pause(id) => self.pause(model, id),
            ControlMessage::ChangeStem(_, _) => Vec::new(),
            ControlMessage::SyncPlaybackStatus => self.sync_playback_status(model, reports),
            ControlMessage::Seek(id, t) => self.seek(model, id, t),
            ControlMessage::Loop(id, b) => self.set_loop(model, id, b),
            ControlMessage::Mute(id, b) => self.mute(model, id, b),
            ControlMessage::SetVolume(id, v) => self.set_volume(model, id, v),
            ControlMessage::Delete(id) => self.delete(model, id),
            ControlMessage::AddToPlaylist { item_id, playlist_id } => {
                self.add_to_playlist(model, item_id, playlist_id)
            },
            ControlMessage::RemoveFromPlaylist { pos_within_playlist, playlist_id } => {
                self.remove_from_playlist(model, pos_within_playlist, playlist_id)
            },
            ControlMessage::PlayFromPlaylist(id) => {
                model.playing_playlist = Some(id);
                Vec::new()
            },
            ControlMessage::GlobalPause => self.global_pause(model),
            ControlMessage::GlobalStop => self.global_stop(model),
        };
        proof {
            if m0.wf() {
                crate::dispatch_laws::lemma_messages_keep_model_valid(
                    msg,
                    reports@,
                    d0,
                    m0,
                    self.handles@,
                    *model,
                    cmds@,
                );
            }
        }
        cmds
    }
}

/// Sets the status of the first item with id `id`.
fn set_status(model: &mut Model, id: u64, s: ItemStatus)
    ensures
        final(model).items@ == edit(old(model).items@, id, with_status(s)),
        same_but_items(*old(model), *final(model)),
{
    match model.find_item(id) {
        Some(k) => {
            model.items[k].status = s;
        },
        None => {},
    }
}

/// Sets the target position of the first item with id `id`.
fn set_target(model: &mut Model, id: u64, t: u64)
    ensures
        final(model).items@ == edit(old(model).items@, id, with_target(t)),
        same_but_items(*old(model), *final(model)),
{
    match model.find_item(id) {
        Some(k) => {
            model.items[k].target_position = t;
        },
        None => {},
    }
}

} // verus!
