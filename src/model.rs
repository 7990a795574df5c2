use vstd::prelude::*;

verus! {

/// Number of bins in an item's waveform summary.
pub const BARS: usize = 128;

/// Full-scale gain, in thousandths.
pub const FULL_VOLUME: u32 = 1000;

/// An alternative audio source for an item.
#[derive(Clone, Debug)]
pub struct Stem {
    pub tag: String,
    pub path: String,
}

/// Lifecycle state of an item's playback.
#[derive(Clone, Copy, Debug, PartialEq, Eq, Structural)]
pub enum ItemStatus {
    Stopped,
    Loading,
    Playing,
    Paused,
}

/// Category of a problem met while loading an item's audio.
#[derive(Clone, Copy, Debug, PartialEq, Eq, Structural)]
pub enum IssueType {
    MissingFile,
    InaccessibleFile,
    PlaybackProblem,
    OtherError,
}

/// A classified problem recorded on an item.
#[derive(Clone, Debug)]
pub struct Issue {
    pub category: IssueType,
    pub message: String,
}

/// An RGBA colour token.
#[derive(Clone, Copy, Debug, PartialEq, Eq, Structural)]
pub struct Colour {
    pub r: u8,
    pub g: u8,
    pub b: u8,
    pub a: u8,
}

/// A track in the library.
#[derive(Clone, Debug)]
pub struct Item {
    pub id: u64,
    pub name: String,
    pub stems: Vec<Stem>,
    pub current_stem: usize,
    /// Linear gain in thousandths of full scale.
    pub volume: u32,
    pub muted: bool,
    pub looped: bool,
    pub status: ItemStatus,
    pub colour: Colour,
    pub bars: Vec<u8>,
    /// Displayed position in milliseconds; animated towards `target_position`.
    pub position: u64,
    /// Authoritative position in milliseconds, written by the dispatcher.
    pub target_position: u64,
    /// Length of the track in milliseconds.
    pub duration: u64,
    pub issues: Vec<Issue>,
}

/// An ordered, user-curated list of item ids.
#[derive(Clone, Debug)]
pub struct Playlist {
    pub id: u64,
    pub name: String,
    pub description: String,
    pub items: Vec<u64>,
}

/// Progress of one file through the import pipeline.
#[derive(Clone, Debug)]
pub enum ItemImportStatus {
    Queued(String),
    Waiting,
    InProgress,
    Finished,
    Failed(String),
}

/// The root of the library.
#[derive(Clone, Debug)]
pub struct Model {
    pub search_query: String,
    pub items: Vec<Item>,
    pub playlists: Vec<Playlist>,
    pub playlist_creation_state: Option<Playlist>,
    pub selected_playlist: Option<u64>,
    pub playing_playlist: Option<u64>,
    pub shuffle: bool,
    pub id_counter: u64,
}

/// The colours that new items are given, in order.
pub open spec fn palette(i: int) -> Colour {
    let (r, g, b) = if i == 0 {
        (240u8, 135u8, 35u8)
    } else if i == 1 {
        (230u8, 200u8, 50u8)
    } else if i == 2 {
        (110u8, 60u8, 200u8)
    } else if i == 3 {
        (240u8, 140u8, 170u8)
    } else if i == 4 {
        (119u8, 51u8, 85u8)
    } else if i == 5 {
        (220u8, 130u8, 140u8)
    } else if i == 6 {
        (40u8, 150u8, 190u8)
    } else if i == 7 {
        (102u8, 51u8, 46u8)
    } else if i == 8 {
        (238u8, 221u8, 170u8)
    } else if i == 9 {
        (230u8, 70u8, 70u8)
    } else if i == 10 {
        (70u8, 175u8, 70u8)
    } else {
        (40u8, 120u8, 220u8)
    };
    Colour { r, g, b, a: 255 }
}

/// Number of colours in the palette.
pub const PALETTE_LEN: u64 = 12;

/// The palette colour of a new item with the given id.
pub fn palette_colour(id: u64) -> (c: Colour)
    ensures
        c == palette((id % PALETTE_LEN) as int),
{
    let i = id % PALETTE_LEN;
    let (r, g, b): (u8, u8, u8) = if i == 0 {
        (240, 135, 35)
    } else if i == 1 {
        (230, 200, 50)
    } else if i == 2 {
        (110, 60, 200)
    } else if i == 3 {
        (240, 140, 170)
    } else if i == 4 {
        (119, 51, 85)
    } else if i == 5 {
        (220, 130, 140)
    } else if i == 6 {
        (40, 150, 190)
    } else if i == 7 {
        (102, 51, 46)
    } else if i == 8 {
        (238, 221, 170)
    } else if i == 9 {
        (230, 70, 70)
    } else if i == 10 {
        (70, 175, 70)
    } else {
        (40, 120, 220)
    };
    Colour { r, g, b, a: 255 }
}

impl Item {
    /// Well-formedness of an item: a valid current stem, a position within
    /// the track, a gain within full scale and a full waveform summary.
    pub open spec fn wf(&self) -> bool {
        &&& self.current_stem < self.stems@.len()
        &&& self.target_position <= self.duration
        &&& 0 < self.volume <= FULL_VOLUME
        &&& self.bars@.len() == BARS
    }

    /// A stopped, unmuted, unlooped item at full volume with one stem tagged
    /// `default`.
    pub fn with_default_stem(id: u64, name: String, path: String, colour: Colour, duration: u64) -> (r: Item)
        ensures
            r.id == id,
            r.name@ == name@,
            r.stems@.len() == 1,
            r.stems@[0].tag@ == "default"@,
            r.stems@[0].path@ == path@,
            r.current_stem == 0,
            r.volume == FULL_VOLUME,
            !r.muted,
            !r.looped,
            r.status == ItemStatus::Stopped,
            r.colour == colour,
            r.bars@ == Seq::new(BARS as nat, |i: int| 0u8),
            r.position == 0,
            r.target_position == 0,
            r.duration == duration,
            r.issues@.len() == 0,
            r.wf(),
    {
        let tag = String::from_str("default");
        let mut stems: Vec<Stem> = Vec::new();
        stems.push(Stem { tag, path });
        let bars: Vec<u8> = vec![0u8; BARS];
        proof {
            assert(bars@ =~= Seq::new(BARS as nat, |i: int| 0u8));
        }
        Item {
            id,
            name,
            stems,
            current_stem: 0,
            volume: FULL_VOLUME,
            muted: false,
            looped: false,
            status: ItemStatus::Stopped,
            colour,
            bars,
            position: 0,
            target_position: 0,
            duration,
            issues: Vec::new(),
        }
    }
}


/// `k` is the first index of `items` that holds an item with id `id`.
pub open spec fn is_first_item(items: Seq<Item>, id: u64, k: int) -> bool {
    &&& 0 <= k < items.len()
    &&& items[k].id == id
    &&& forall|j: int| 0 <= j < k ==> #[trigger] items[j].id != id
}

/// Index of the first item with id `id`, if there is one.
pub open spec fn item_pos(items: Seq<Item>, id: u64) -> Option<int> {
    if exists|k: int| is_first_item(items, id, k) {
        Some(choose|k: int| is_first_item(items, id, k))
    } else {
        None
    }
}

/// `items` with `f` applied to the first item whose id is `id`.
pub open spec fn edit(items: Seq<Item>, id: u64, f: spec_fn(Item) -> Item) -> Seq<Item> {
    match item_pos(items, id) {
        Some(k) => items.update(k, f(items[k])),
        None => items,
    }
}

/// No two items share an id.
pub open spec fn unique_ids(items: Seq<Item>) -> bool {
    forall|i: int, j: int|
        0 <= i < items.len() && 0 <= j < items.len() && i != j ==> items[i].id != items[j].id
}

/// Where ids are unique, an item's index is the first index of its id.
pub proof fn lemma_unique_item_pos(items: Seq<Item>, i: int)
    requires
        unique_ids(items),
        0 <= i < items.len(),
    ensures
        item_pos(items, items[i].id) == Some(i),
{
    let id = items[i].id;
    assert(is_first_item(items, id, i));
    let c = choose|k: int| is_first_item(items, id, k);
    assert(c == i);
}


/// `k` is the first index of `lists` that holds a playlist with id `id`.
pub open spec fn is_first_playlist(lists: Seq<Playlist>, id: u64, k: int) -> bool {
    &&& 0 <= k < lists.len()
    &&& lists[k].id == id
    &&& forall|j: int| 0 <= j < k ==> #[trigger] lists[j].id != id
}

/// Index of the first playlist with id `id`, if there is one.
pub open spec fn playlist_pos(lists: Seq<Playlist>, id: u64) -> Option<int> {
    if exists|k: int| is_first_playlist(lists, id, k) {
        Some(choose|k: int| is_first_playlist(lists, id, k))
    } else {
        None
    }
}

impl Model {
    /// An empty library whose next fresh id is 1.
    pub fn new() -> (m: Model)
        ensures
            m.search_query@.len() == 0,
            m.items@.len() == 0,
            m.playlists@.len() == 0,
            m.playlist_creation_state is None,
            m.selected_playlist is None,
            m.playing_playlist is None,
            !m.shuffle,
            m.id_counter == 0,
            m.wf(),
    {
        Model {
            search_query: String::new(),
            items: Vec::new(),
            playlists: Vec::new(),
            playlist_creation_state: None,
            selected_playlist: None,
            playing_playlist: None,
            shuffle: false,
            id_counter: 0,
        }
    }

    /// Whether some item of the library has the given id.
    pub open spec fn has_item(&self, id: u64) -> bool {
        exists|i: int| 0 <= i < self.items@.len() && self.items@[i].id == id
    }

    /// Every item is well-formed, item ids are unique, every playlist entry
    /// names an item of the library, and no id in use exceeds the counter,
    /// which holds the last id handed out.
    pub open spec fn wf(&self) -> bool {
        &&& forall|i: int| 0 <= i < self.items@.len() ==> #[trigger] self.items@[i].wf()
        &&& forall|i: int|
            0 <= i < self.items@.len() ==> #[trigger] self.items@[i].id <= self.id_counter
        &&& forall|i: int|
            0 <= i < self.playlists@.len() ==> #[trigger] self.playlists@[i].id <= self.id_counter
        &&& unique_ids(self.items@)
        &&& forall|p: int, e: int|
            0 <= p < self.playlists@.len() && 0 <= e < self.playlists@[p].items@.len()
                ==> self.has_item(#[trigger] self.playlists@[p].items@[e])
    }

    /// Index of the first item with the given id.
    pub fn find_item(&self, id: u64) -> (r: Option<usize>)
        ensures
            match r {
                Some(k) => item_pos(self.items@, id) == Some(k as int),
                None => item_pos(self.items@, id) is None,
            },
    {
        let mut i: usize = 0;
        while i < self.items.len()
            invariant
                0 <= i <= self.items@.len(),
                forall|j: int| 0 <= j < i ==> #[trigger] self.items@[j].id != id,
            decreases self.items@.len() - i,
        {
            if self.items[i].id == id {
                proof {
                    assert(is_first_item(self.items@, id, i as int));
                    let c = choose|k: int| is_first_item(self.items@, id, k);
                    assert(c == i as int);
                }
                return Some(i);
            }
            i = i + 1;
        }
        proof {
            assert forall|k: int| !is_first_item(self.items@, id, k) by {
                if is_first_item(self.items@, id, k) {
                    assert(self.items@[k].id != id);
                }
            }
        }
        None
    }

    /// Index of the first playlist with the given id.
    pub fn find_playlist(&self, id: u64) -> (r: Option<usize>)
        ensures
            match r {
                Some(k) => playlist_pos(self.playlists@, id) == Some(k as int),
                None => playlist_pos(self.playlists@, id) is None,
            },
    {
        let mut i: usize = 0;
        while i < self.playlists.len()
            invariant
                0 <= i <= self.playlists@.len(),
                forall|j: int| 0 <= j < i ==> #[trigger] self.playlists@[j].id != id,
            decreases self.playlists@.len() - i,
        {
            if self.playlists[i].id == id {
                proof {
                    assert(is_first_playlist(self.playlists@, id, i as int));
                    let c = choose|k: int| is_first_playlist(self.playlists@, id, k);
                    assert(c == i as int);
                }
                return Some(i);
            }
            i = i + 1;
        }
        proof {
            assert forall|k: int| !is_first_playlist(self.playlists@, id, k) by {
                if is_first_playlist(self.playlists@, id, k) {
                    assert(self.playlists@[k].id != id);
                }
            }
        }
        None
    }

    /// Every fresh id is greater than the one before: the counter is
    /// incremented and its new value returned.
    pub fn fresh_id(&mut self) -> (r: u64)
        requires
            old(self).id_counter < u64::MAX,
        ensures
            r == old(self).id_counter + 1,
            final(self).id_counter == r,
            final(self).search_query == old(self).search_query,
            final(self).items == old(self).items,
            final(self).playlists == old(self).playlists,
            final(self).playlist_creation_state == old(self).playlist_creation_state,
            final(self).selected_playlist == old(self).selected_playlist,
            final(self).playing_playlist == old(self).playing_playlist,
            final(self).shuffle == old(self).shuffle,
            old(self).wf() ==> final(self).wf(),
            old(self).wf() ==> forall|i: int|
                0 <= i < old(self).items@.len() ==> #[trigger] old(self).items@[i].id < r,
            old(self).wf() ==> forall|i: int|
                0 <= i < old(self).playlists@.len() ==> #[trigger] old(self).playlists@[i].id < r,
    {
        self.id_counter = self.id_counter + 1;
        self.id_counter
    }
}

} // verus!
