use afx::browse::{
    add_imported_items, commit_playlist_draft, delete_playlist, get_selected_playlist_name, matches_lowered, playlist_from_search,
    process_search, search_in_playlist,
};
use afx::text::{contains, starts_with};
use afx::{Colour, ControlMessage, Item, ItemStatus, Model, Playlist};

fn library() -> Model {
    let mut m = Model::new();
    let c = Colour { r: 0, g: 0, b: 0, a: 255 };
    for (id, name) in [(1u64, "Bird Whistle"), (2, "Door Creak"), (3, "bird song")] {
        m.items.push(Item::with_default_stem(id, name.to_string(), format!("{}.wav", id), c, 100));
    }
    m.id_counter = 3;
    m
}

#[test]
fn text_matching() {
    assert!(contains("bird whistle", "whis"));
    assert!(contains("abc", ""));
    assert!(!contains("abc", "abcd"));
    assert!(!contains("bird", "rd "));
    assert!(starts_with("playing", "pla"));
    assert!(!starts_with("playing", "lay"));
    assert!(starts_with("playing", ""));
}

#[test]
fn search_matches_every_word_case_insensitively() {
    let mut m = library();
    m.search_query = "BIRD  Wh".to_string();
    assert_eq!(process_search(&m), vec![(0, 1)]);
    m.search_query = "bird".to_string();
    assert_eq!(process_search(&m), vec![(0, 1), (2, 3)]);
    m.search_query = String::new();
    assert_eq!(process_search(&m).len(), 3);
}

#[test]
fn search_for_playing_items() {
    let mut m = library();
    m.items[1].status = ItemStatus::Playing;
    m.search_query = "play".to_string();
    assert_eq!(process_search(&m), vec![(1, 2)]);
}

#[test]
fn search_within_selected_playlist() {
    let mut m = library();
    m.playlists.push(Playlist {
        id: 9,
        name: "birds".to_string(),
        description: String::new(),
        items: vec![3, 2, 1, 44],
    });
    m.selected_playlist = Some(9);
    m.search_query = "bird".to_string();
    assert_eq!(process_search(&m), vec![(0, 3), (2, 1)]);
    let pat = vec!["creak".to_string()];
    assert_eq!(search_in_playlist(&m, Some(&m.playlists[0]), &pat), vec![(1, 2)]);
    assert_eq!(search_in_playlist(&m, None, &pat), vec![(1, 2)]);
    assert_eq!(get_selected_playlist_name(&m), "birds");
    m.selected_playlist = None;
    assert_eq!(get_selected_playlist_name(&m), "library");
}

#[test]
fn draft_playlist_from_search() {
    let mut m = library();
    m.search_query = "bird".to_string();
    playlist_from_search(&mut m);
    let draft = m.playlist_creation_state.clone().unwrap();
    assert_eq!(draft.id, 4);
    assert_eq!(draft.name, "new playlist");
    assert_eq!(draft.items, vec![1, 3]);
    playlist_from_search(&mut m);
    assert_eq!(m.id_counter, 4);
}

#[test]
fn imported_items_join_selected_playlist() {
    let mut m = library();
    let c = Colour { r: 0, g: 0, b: 0, a: 255 };
    let new_items = vec![Item::with_default_stem(8, "x".to_string(), "x.wav".to_string(), c, 1)];
    assert!(add_imported_items(&mut m, new_items.clone()).is_empty());
    assert_eq!(m.items.len(), 4);
    m.selected_playlist = Some(5);
    let msgs = add_imported_items(&mut m, new_items);
    assert_eq!(msgs, vec![ControlMessage::AddToPlaylist { item_id: 8, playlist_id: 5 }]);
    assert_eq!(m.items.len(), 5);
}

#[test]
fn matching_on_lowercased_names() {
    let pat = vec!["bird".to_string(), "whi".to_string()];
    assert!(matches_lowered(ItemStatus::Stopped, "bird whistle", &pat));
    assert!(!matches_lowered(ItemStatus::Stopped, "Bird Whistle", &pat));
    let playing = vec!["p".to_string(), "zzz".to_string()];
    assert!(matches_lowered(ItemStatus::Playing, "door", &playing));
    assert!(!matches_lowered(ItemStatus::Paused, "door", &playing));
    assert!(matches_lowered(ItemStatus::Paused, "door", &vec![]));
}

#[test]
fn playlist_lifecycle() {
    let mut m = library();
    m.search_query = "bird".to_string();
    playlist_from_search(&mut m);
    commit_playlist_draft(&mut m);
    assert!(m.playlist_creation_state.is_none());
    assert_eq!(m.playlists.len(), 1);
    assert_eq!(m.playlists[0].items, vec![1, 3]);
    commit_playlist_draft(&mut m);
    assert_eq!(m.playlists.len(), 1);
    let id = m.playlists[0].id;
    m.selected_playlist = Some(id);
    delete_playlist(&mut m, 99);
    assert_eq!(m.playlists.len(), 1);
    assert_eq!(m.selected_playlist, Some(id));
    delete_playlist(&mut m, id);
    assert!(m.playlists.is_empty());
    assert_eq!(m.selected_playlist, None);
}
