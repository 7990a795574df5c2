//! Searching the library and building playlists from what the window shows.
use crate::dispatcher::ControlMessage;
use crate::model::{item_pos, playlist_pos, Item, ItemStatus, Model, Playlist};
use crate::text::{contains, is_prefix, occurs_in, starts_with};
use vstd::prelude::*;

verus! {

/// What `str::to_lowercase` makes of `s`.
pub uninterp spec fn lower_of(s: Seq<char>) -> Seq<char>;

/// The words that `str::split_ascii_whitespace` finds in `s`, in order.
pub uninterp spec fn words_of(s: Seq<char>) -> Seq<Seq<char>>;

/// Relies on str::to_lowercase, which maps each character to its Unicode
/// lowercase form.
#[verifier::external_body]
fn lowercase(s: &str) -> (r: String)
    ensures
        r@ == lower_of(s@),
{
    s.to_lowercase()
}

/// ASCII whitespace as `char::is_ascii_whitespace` has it.
pub open spec fn is_ascii_space(c: char) -> bool {
    c == ' ' || c == '\t' || c == '\n' || c == '\x0C' || c == '\r'
}

/// Relies on str::split_ascii_whitespace, which splits at runs of ASCII
/// whitespace and yields no empty words.
#[verifier::external_body]
fn split_words(s: &str) -> (r: Vec<String>)
    ensures
        r@.len() == words_of(s@).len(),
        forall|i: int| 0 <= i < r@.len() ==> (#[trigger] r@[i])@ == words_of(s@)[i],
        forall|i: int| 0 <= i < r@.len() ==> (#[trigger] r@[i])@.len() > 0,
        forall|i: int, j: int|
            0 <= i < r@.len() && 0 <= j < r@[i]@.len() ==> !is_ascii_space(#[trigger] r@[i]@[j]),
{
    s.split_ascii_whitespace().map(|w| w.to_string()).collect()
}

pub open spec fn views(pat: Seq<String>) -> Seq<Seq<char>> {
    pat.map_values(|w: String| w@)
}

/// An item with the given status and lowercased name is shown when some
/// word of the query starts the word "playing" and the item plays, or when
/// every word occurs in the name.
pub open spec fn shows_lowered(status: ItemStatus, lowered: Seq<char>, pat: Seq<Seq<char>>) -> bool {
    ||| (exists|w: int| 0 <= w < pat.len() && is_prefix(#[trigger] pat[w], "playing"@))
        && status == ItemStatus::Playing
    ||| forall|w: int| 0 <= w < pat.len() ==> occurs_in(#[trigger] pat[w], lowered)
}

/// Whether the search shows the item.
pub open spec fn shows(it: Item, pat: Seq<Seq<char>>) -> bool {
    shows_lowered(it.status, lower_of(it.name@), pat)
}

/// Positions and ids of the shown entries of a playlist; an entry whose
/// item is gone is skipped.
pub open spec fn playlist_hits(items: Seq<Item>, ids: Seq<u64>, pat: Seq<Seq<char>>) -> Seq<(usize, u64)>
    decreases ids.len(),
{
    if ids.len() == 0 {
        Seq::empty()
    } else {
        let prev = playlist_hits(items, ids.drop_last(), pat);
        match item_pos(items, ids.last()) {
            Some(k) => if shows(items[k], pat) {
                prev.push(((ids.len() - 1) as usize, ids.last()))
            } else {
                prev
            },
            None => prev,
        }
    }
}

/// Positions and ids of the shown items of the library.
pub open spec fn library_hits(items: Seq<Item>, pat: Seq<Seq<char>>) -> Seq<(usize, u64)>
    decreases items.len(),
{
    if items.len() == 0 {
        Seq::empty()
    } else {
        let prev = library_hits(items.drop_last(), pat);
        if shows(items.last(), pat) {
            prev.push(((items.len() - 1) as usize, items.last().id))
        } else {
            prev
        }
    }
}

/// Whether an item with the given status and lowercased name matches the
/// query words.
pub fn matches_lowered(status: ItemStatus, lowered_name: &str, pat: &Vec<String>) -> (r: bool)
    ensures
        r == shows_lowered(status, lowered_name@, views(pat@)),
{
    let ghost p = views(pat@);
    let mut playing_word = false;
    let mut i: usize = 0;
    while i < pat.len()
        invariant
            p == views(pat@),
            i <= pat@.len(),
            playing_word == exists|w: int| 0 <= w < i && is_prefix(#[trigger] p[w], "playing"@),
        decreases pat@.len() - i,
    {
        proof {
            assert(p[i as int] == pat@[i as int]@);
        }
        if starts_with("playing", pat[i].as_str()) {
            playing_word = true;
        }
        i = i + 1;
    }
    if playing_word && status == ItemStatus::Playing {
        return true;
    }
    let mut j: usize = 0;
    while j < pat.len()
        invariant
            p == views(pat@),
            j <= pat@.len(),
            !(playing_word && status == ItemStatus::Playing),
            playing_word == exists|w: int| 0 <= w < p.len() && is_prefix(#[trigger] p[w], "playing"@),
            forall|w: int| 0 <= w < j ==> occurs_in(#[trigger] p[w], lowered_name@),
        decreases pat@.len() - j,
    {
        if !contains(lowered_name, pat[j].as_str()) {
            proof {
                assert(p[j as int] == pat@[j as int]@);
            }
            return false;
        }
        j = j + 1;
    }
    true
}

fn is_shown(it: &Item, pat: &Vec<String>) -> (r: bool)
    ensures
        r == shows(*it, views(pat@)),
{
    let name = lowercase(it.name.as_str());
    matches_lowered(it.status, name.as_str(), pat)
}

/// The entries to show: of the given playlist in its order, or of the whole
/// library, as (position, item id).
pub fn search_in_playlist(model: &Model, selected_playlist: Option<&Playlist>, pat: &Vec<String>) -> (r: Vec<(usize, u64)>)
    ensures
        r@ == match selected_playlist {
            Some(p) => playlist_hits(model.items@, p.items@, views(pat@)),
            None => library_hits(model.items@, views(pat@)),
        },
{
    let mut r: Vec<(usize, u64)> = Vec::new();
    match selected_playlist {
        Some(p) => {
            let mut i: usize = 0;
            while i < p.items.len()
                invariant
                    i <= p.items@.len(),
                    r@ == playlist_hits(model.items@, p.items@.take(i as int), views(pat@)),
                decreases p.items@.len() - i,
            {
                proof {
                    assert(p.items@.take(i + 1).drop_last() =~= p.items@.take(i as int));
                }
                let id = p.items[i];
                match model.find_item(id) {
                    Some(k) => {
                        if is_shown(&model.items[k], pat) {
                            r.push((i, id));
                        }
                    },
                    None => {},
                }
                i = i + 1;
            }
            proof {
                assert(p.items@.take(i as int) =~= p.items@);
            }
        },
        None => {
            let mut i: usize = 0;
            while i < model.items.len()
                invariant
                    i <= model.items@.len(),
                    r@ == library_hits(model.items@.take(i as int), views(pat@)),
                decreases model.items@.len() - i,
            {
                proof {
                    assert(model.items@.take(i + 1).drop_last() =~= model.items@.take(i as int));
                }
                if is_shown(&model.items[i], pat) {
                    r.push((i, model.items[i].id));
                }
                i = i + 1;
            }
            proof {
                assert(model.items@.take(i as int) =~= model.items@);
            }
        },
    }
    r
}

/// The words of the lowercased search query.
pub open spec fn query_words(m: Model) -> Seq<Seq<char>> {
    words_of(lower_of(m.search_query@))
}

/// What the current search shows: entries of the selected playlist, or of
/// the library when none is selected; nothing when the selected playlist is
/// gone.
pub open spec fn current_hits(m: Model) -> Seq<(usize, u64)> {
    match m.selected_playlist {
        Some(id) => match playlist_pos(m.playlists@, id) {
            Some(k) => playlist_hits(m.items@, m.playlists@[k].items@, query_words(m)),
            None => Seq::empty(),
        },
        None => library_hits(m.items@, query_words(m)),
    }
}

/// Runs the model's search query.
pub fn process_search(model: &Model) -> (r: Vec<(usize, u64)>)
    ensures
        r@ == current_hits(*model),
{
    let query = lowercase(model.search_query.as_str());
    let pat = split_words(query.as_str());
    proof {
        assert(views(pat@) =~= query_words(*model));
    }
    match model.selected_playlist {
        Some(id) => match model.find_playlist(id) {
            Some(k) => search_in_playlist(model, Some(&model.playlists[k]), &pat),
            None => Vec::new(),
        },
        None => search_in_playlist(model, None, &pat),
    }
}

/// Starts a draft playlist, under a fresh id, holding what the search
/// shows; an existing draft is kept.
pub fn playlist_from_search(model: &mut Model)
    requires
        old(model).id_counter < u64::MAX,
    ensures
        match old(model).playlist_creation_state {
            Some(_) => *final(model) == *old(model),
            None => {
                &&& final(model).id_counter == old(model).id_counter + 1
                &&& final(model).playlist_creation_state is Some
                &&& final(model).playlist_creation_state->Some_0.id == final(model).id_counter
                &&& final(model).playlist_creation_state->Some_0.name@ == "new playlist"@
                &&& final(model).playlist_creation_state->Some_0.description@.len() == 0
                &&& final(model).playlist_creation_state->Some_0.items@ == current_hits(
                    *old(model),
                ).map_values(|h: (usize, u64)| h.1)
                &&& final(model).items == old(model).items
                &&& final(model).playlists == old(model).playlists
                &&& final(model).search_query == old(model).search_query
                &&& final(model).selected_playlist == old(model).selected_playlist
                &&& final(model).playing_playlist == old(model).playing_playlist
                &&& final(model).shuffle == old(model).shuffle
            },
        },
{
    if model.playlist_creation_state.is_none() {
        let id = model.fresh_id();
        let hits = process_search(model);
        let mut ids: Vec<u64> = Vec::new();
        let mut i: usize = 0;
        while i < hits.len()
            invariant
                i <= hits@.len(),
                ids@ == hits@.take(i as int).map_values(|h: (usize, u64)| h.1),
            decreases hits@.len() - i,
        {
            ids.push(hits[i].1);
            proof {
                assert(ids@ =~= hits@.take(i + 1).map_values(|h: (usize, u64)| h.1));
            }
            i = i + 1;
        }
        proof {
            assert(hits@.take(i as int) =~= hits@);
        }
        model.playlist_creation_state = Some(
            Playlist {
                id,
                name: String::from_str("new playlist"),
                description: String::new(),
                items: ids,
            },
        );
    }
}

/// Appends imported items to the library; when a playlist is selected,
/// returns the messages that add each of them to it.
pub fn add_imported_items(model: &mut Model, items: Vec<Item>) -> (msgs: Vec<ControlMessage>)
    ensures
        final(model).items@ == old(model).items@ + items@,
        *final(model) == (Model { items: final(model).items, ..*old(model) }),
        msgs@ == match old(model).selected_playlist {
            Some(pid) => items@.map_values(
                |it: Item| ControlMessage::AddToPlaylist { item_id: it.id, playlist_id: pid },
            ),
            None => Seq::empty(),
        },
{
    let mut msgs: Vec<ControlMessage> = Vec::new();
    match model.selected_playlist {
        Some(pid) => {
            let mut i: usize = 0;
            while i < items.len()
                invariant
                    i <= items@.len(),
                    msgs@ == items@.take(i as int).map_values(
                        |it: Item| ControlMessage::AddToPlaylist { item_id: it.id, playlist_id: pid },
                    ),
                decreases items@.len() - i,
            {
                msgs.push(ControlMessage::AddToPlaylist { item_id: items[i].id, playlist_id: pid });
                proof {
                    assert(msgs@ =~= items@.take(i + 1).map_values(
                        |it: Item| ControlMessage::AddToPlaylist { item_id: it.id, playlist_id: pid },
                    ));
                }
                i = i + 1;
            }
            proof {
                assert(items@.take(i as int) =~= items@);
            }
        },
        None => {},
    }
    let mut items = items;
    model.items.append(&mut items);
    msgs
}

/// The name of the selected playlist, or "library" when none is selected
/// or it is gone.
pub fn get_selected_playlist_name(model: &Model) -> (r: String)
    ensures
        r@ == match model.selected_playlist {
            Some(id) => match playlist_pos(model.playlists@, id) {
                Some(k) => model.playlists@[k].name@,
                None => "library"@,
            },
            None => "library"@,
        },
{
    match model.selected_playlist {
        Some(id) => match model.find_playlist(id) {
            Some(k) => model.playlists[k].name.clone(),
            None => String::from_str("library"),
        },
        None => String::from_str("library"),
    }
}

pub open spec fn other_playlist(id: u64) -> spec_fn(Playlist) -> bool {
    |p: Playlist| p.id != id
}

/// Deletes every playlist with the given id, and clears the selection when
/// it was selected.
pub fn delete_playlist(model: &mut Model, id: u64)
    ensures
        final(model).playlists@ == old(model).playlists@.filter(other_playlist(id)),
        final(model).selected_playlist == if old(model).selected_playlist == Some(id) {
            None
        } else {
            old(model).selected_playlist
        },
        *final(model) == (Model {
            playlists: final(model).playlists,
            selected_playlist: final(model).selected_playlist,
            ..*old(model)
        }),
{
    let ghost m0 = *model;
    let mut rest: Vec<Playlist> = Vec::new();
    core::mem::swap(&mut rest, &mut model.playlists);
    let ghost orig = rest@;
    let n = rest.len();
    let mut i: usize = 0;
    while rest.len() > 0
        invariant
            i <= orig.len(),
            orig.len() == n,
            orig == m0.playlists@,
            rest@ == orig.skip(i as int),
            model.playlists@ == orig.take(i as int).filter(other_playlist(id)),
            *model == (Model { playlists: model.playlists, ..m0 }),
        decreases rest@.len(),
    {
        assert(i < orig.len());
        let p = rest.remove(0);
        proof {
            assert(orig.take(i + 1) =~= orig.take(i as int).push(orig[i as int]));
            orig.take(i as int).lemma_filter_push(orig[i as int], other_playlist(id));
            assert(rest@ =~= orig.skip(i + 1));
        }
        if p.id != id {
            model.playlists.push(p);
        }
        i = i + 1;
    }
    proof {
        assert(orig.take(i as int) =~= orig);
    }
    if model.selected_playlist == Some(id) {
        model.selected_playlist = None;
    }
}

/// Adds the draft playlist, if there is one, to the playlists and clears
/// the draft.
pub fn commit_playlist_draft(model: &mut Model)
    ensures
        match old(model).playlist_creation_state {
            Some(draft) => final(model).playlists@ == old(model).playlists@.push(draft),
            None => final(model).playlists == old(model).playlists,
        },
        final(model).playlist_creation_state is None,
        *final(model) == (Model {
            playlists: final(model).playlists,
            playlist_creation_state: None,
            ..*old(model)
        }),
{
    let mut draft: Option<Playlist> = None;
    core::mem::swap(&mut draft, &mut model.playlist_creation_state);
    match draft {
        Some(p) => model.playlists.push(p),
        None => {},
    }
}

} // verus!
