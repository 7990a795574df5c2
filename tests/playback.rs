use afx::{
    Colour, Command, ControlMessage, Dispatcher, FromFileError, HandleReport, IoErrorKind,
    IssueType, Item, ItemStatus, Model, PlaybackState, Playlist,
};

const SAMPLE: &str = "samples/416529__inspectorj__bird-whistling-single-robin-a.wav";
const BLACK: Colour = Colour { r: 0, g: 0, b: 0, a: 255 };

fn build_test_model() -> Model {
    let mut m = Model::new();
    for id in 0..3u64 {
        m.items.push(Item::with_default_stem(
            id,
            format!("test {}", id),
            SAMPLE.to_string(),
            BLACK,
            1000,
        ));
    }
    m
}

/// Stands in for the audio backend: opening fails only for paths that name a
/// missing file.
fn process(d: &mut Dispatcher, m: &mut Model, msg: ControlMessage, reports: &Vec<HandleReport>) -> Vec<Command> {
    let cmds = d.process_message(m, msg, reports);
    for cmd in cmds.iter() {
        if let Command::Open(req) = cmd {
            if req.path.contains("nonexistent") {
                d.playback_failed(m, req.id, &FromFileError::Io(IoErrorKind::NotFound));
            } else {
                d.playback_started(m, req.id);
            }
        }
    }
    cmds
}

fn none() -> Vec<HandleReport> {
    Vec::new()
}

#[test]
fn file_not_found() {
    let mut model = build_test_model();
    model.items[0].stems[0].path = "/tmp/missing-dir/nonexistent.wav".to_string();
    let mut d = Dispatcher::new();
    process(&mut d, &mut model, ControlMessage::Play(0), &none());
    assert_eq!(model.items[0].status, ItemStatus::Stopped);
    assert_eq!(model.items[0].issues.len(), 1);
    assert_eq!(model.items[0].issues[0].category, IssueType::MissingFile);
    assert_eq!(model.items[0].issues[0].message, "the file could not be found");
    assert!(!d.has_handle(0));
}

#[test]
fn play_and_pause() {
    let mut model = build_test_model();
    let mut d = Dispatcher::new();
    process(&mut d, &mut model, ControlMessage::Play(0), &none());
    assert_eq!(model.items[0].status, ItemStatus::Playing);
    let cmds = process(&mut d, &mut model, ControlMessage::Pause(0), &none());
    assert_eq!(model.items[0].status, ItemStatus::Paused);
    assert!(matches!(cmds[..], [Command::Pause(0)]));
    let cmds = process(&mut d, &mut model, ControlMessage::Play(0), &none());
    assert!(matches!(cmds[..], [Command::Resume(0)]));
    assert_eq!(model.items[0].status, ItemStatus::Playing);
}

#[test]
fn play_many() {
    let mut model = build_test_model();
    let mut d = Dispatcher::new();
    for id in 0..3u64 {
        process(&mut d, &mut model, ControlMessage::Play(id), &none());
    }
    for i in 0..3 {
        assert_eq!(model.items[i].status, ItemStatus::Playing);
    }
    process(&mut d, &mut model, ControlMessage::GlobalPause, &none());
    for i in 0..3 {
        assert_eq!(model.items[i].status, ItemStatus::Paused);
    }
    let cmds = process(&mut d, &mut model, ControlMessage::GlobalStop, &none());
    for i in 0..3 {
        assert_eq!(model.items[i].status, ItemStatus::Stopped);
        assert_eq!(model.items[i].target_position, 0);
    }
    assert!(d.handles.is_empty());
    assert_eq!(cmds.len(), 6);
    assert!(matches!(cmds[0], Command::Stop(0)));
    assert!(matches!(cmds[5], Command::Release(2)));
}

#[test]
fn seek() {
    let mut model = build_test_model();
    let mut d = Dispatcher::new();
    process(&mut d, &mut model, ControlMessage::Play(0), &none());
    assert_eq!(model.items[0].status, ItemStatus::Playing);
    let cmds = process(&mut d, &mut model, ControlMessage::Seek(0, 500), &none());
    assert!(matches!(cmds[..], [Command::Seek(0, 500)]));
    // a playing handle leaves the target to the next sync
    assert_eq!(model.items[0].target_position, 0);
    let reports = vec![HandleReport { id: 0, state: PlaybackState::Playing, position: 500 }];
    process(&mut d, &mut model, ControlMessage::SyncPlaybackStatus, &reports);
    assert_eq!(model.items[0].status, ItemStatus::Playing);
    assert_eq!(model.items[0].target_position, 500);
}

#[test]
fn seek_without_handle_sets_target() {
    let mut model = build_test_model();
    let mut d = Dispatcher::new();
    let cmds = process(&mut d, &mut model, ControlMessage::Seek(1, 250), &none());
    assert!(cmds.is_empty());
    assert_eq!(model.items[1].target_position, 250);
    // the next open starts from there
    let cmds = d.process_message(&mut model, ControlMessage::Play(1), &none());
    match &cmds[..] {
        [Command::Open(req)] => {
            assert_eq!(req.start_position, 250);
            assert_eq!(req.path, SAMPLE);
            assert_eq!(req.volume, 1000);
            assert!(!req.looped);
        }
        _ => panic!("expected one open"),
    }
}

#[test]
fn seek_on_paused_handle_sets_target() {
    let mut model = build_test_model();
    let mut d = Dispatcher::new();
    process(&mut d, &mut model, ControlMessage::Play(0), &none());
    process(&mut d, &mut model, ControlMessage::Pause(0), &none());
    process(&mut d, &mut model, ControlMessage::Seek(0, 300), &none());
    assert_eq!(model.items[0].target_position, 300);
}

#[test]
fn loop_wraparound() {
    let mut model = build_test_model();
    model.items[0].looped = true;
    let mut d = Dispatcher::new();
    process(&mut d, &mut model, ControlMessage::Play(0), &none());
    let reports = vec![HandleReport { id: 0, state: PlaybackState::Playing, position: 1000 }];
    let cmds = process(&mut d, &mut model, ControlMessage::SyncPlaybackStatus, &reports);
    assert_eq!(model.items[0].target_position, 0);
    assert_eq!(model.items[0].status, ItemStatus::Loading);
    assert!(!d.has_handle(0));
    assert!(matches!(cmds[..], [Command::Send(ControlMessage::Play(0)), Command::Release(0)]));
}

#[test]
fn track_end_stops_unlooped_item() {
    let mut model = build_test_model();
    let mut d = Dispatcher::new();
    process(&mut d, &mut model, ControlMessage::Play(1), &none());
    let reports = vec![HandleReport { id: 1, state: PlaybackState::Stopped, position: 400 }];
    let cmds = process(&mut d, &mut model, ControlMessage::SyncPlaybackStatus, &reports);
    assert_eq!(model.items[1].status, ItemStatus::Stopped);
    assert_eq!(model.items[1].target_position, 0);
    assert!(matches!(cmds[..], [Command::Stop(1), Command::Release(1)]));
    assert!(d.handles.is_empty());
}

#[test]
fn sync_skips_paused_handles() {
    let mut model = build_test_model();
    let mut d = Dispatcher::new();
    process(&mut d, &mut model, ControlMessage::Play(2), &none());
    process(&mut d, &mut model, ControlMessage::Seek(2, 0), &none());
    let reports = vec![HandleReport { id: 2, state: PlaybackState::Paused, position: 700 }];
    let cmds = process(&mut d, &mut model, ControlMessage::SyncPlaybackStatus, &reports);
    assert!(cmds.is_empty());
    assert_eq!(model.items[2].target_position, 0);
    assert!(d.has_handle(2));
}

#[test]
fn delete_cascade() {
    let mut model = build_test_model();
    model.playlists.push(Playlist {
        id: 10,
        name: "list".to_string(),
        description: String::new(),
        items: vec![0],
    });
    let mut d = Dispatcher::new();
    process(&mut d, &mut model, ControlMessage::Play(0), &none());
    let cmds = process(&mut d, &mut model, ControlMessage::Delete(0), &none());
    assert!(model.items.iter().all(|it| it.id != 0));
    assert_eq!(model.items.len(), 2);
    assert!(model.playlists[0].items.is_empty());
    assert!(!d.has_handle(0));
    assert!(matches!(cmds[..], [Command::Stop(0), Command::Release(0)]));
}

#[test]
fn playlist_entries() {
    let mut model = build_test_model();
    model.playlists.push(Playlist {
        id: 7,
        name: "p".to_string(),
        description: String::new(),
        items: vec![],
    });
    let mut d = Dispatcher::new();
    let add = |item_id| ControlMessage::AddToPlaylist { item_id, playlist_id: 7 };
    process(&mut d, &mut model, add(1), &none());
    process(&mut d, &mut model, add(2), &none());
    process(&mut d, &mut model, add(1), &none());
    assert_eq!(model.playlists[0].items, vec![1, 2, 1]);
    let remove = ControlMessage::RemoveFromPlaylist { pos_within_playlist: 0, playlist_id: 7 };
    process(&mut d, &mut model, remove, &none());
    assert_eq!(model.playlists[0].items, vec![2, 1]);
    let out_of_range = ControlMessage::RemoveFromPlaylist { pos_within_playlist: 9, playlist_id: 7 };
    process(&mut d, &mut model, out_of_range, &none());
    assert_eq!(model.playlists[0].items, vec![2, 1]);
    process(&mut d, &mut model, ControlMessage::PlayFromPlaylist(7), &none());
    assert_eq!(model.playing_playlist, Some(7));
}

#[test]
fn mute_and_volume_reach_live_handles_only() {
    let mut model = build_test_model();
    model.items[0].volume = 400;
    let mut d = Dispatcher::new();
    let cmds = process(&mut d, &mut model, ControlMessage::Mute(0, true), &none());
    assert!(cmds.is_empty());
    process(&mut d, &mut model, ControlMessage::Play(0), &none());
    let cmds = process(&mut d, &mut model, ControlMessage::Mute(0, true), &none());
    assert!(matches!(cmds[..], [Command::SetVolume(0, 0)]));
    let cmds = process(&mut d, &mut model, ControlMessage::Mute(0, false), &none());
    assert!(matches!(cmds[..], [Command::SetVolume(0, 400)]));
    let cmds = process(&mut d, &mut model, ControlMessage::SetVolume(0, 250), &none());
    assert!(matches!(cmds[..], [Command::SetVolume(0, 250)]));
}

#[test]
fn muted_item_opens_silent_and_loop_flag_is_stored() {
    let mut model = build_test_model();
    model.items[1].muted = true;
    let mut d = Dispatcher::new();
    process(&mut d, &mut model, ControlMessage::Loop(1, true), &none());
    assert!(model.items[1].looped);
    let cmds = d.process_message(&mut model, ControlMessage::Play(1), &none());
    match &cmds[..] {
        [Command::Open(req)] => {
            assert_eq!(req.volume, 0);
            assert!(req.looped);
        }
        _ => panic!("expected one open"),
    }
}

#[test]
fn play_of_unknown_item_does_nothing() {
    let mut model = build_test_model();
    let mut d = Dispatcher::new();
    let cmds = process(&mut d, &mut model, ControlMessage::Play(99), &none());
    assert!(cmds.is_empty());
    let cmds = process(&mut d, &mut model, ControlMessage::ChangeStem(0, 1), &none());
    assert!(cmds.is_empty());
}

#[test]
fn fresh_ids_increase() {
    let mut model = Model::new();
    let a = model.fresh_id();
    let b = model.fresh_id();
    let c = model.fresh_id();
    assert_eq!((a, b, c), (1, 2, 3));
    assert_eq!(model.id_counter, 3);
}

#[test]
fn seek_past_end_is_capped() {
    let mut model = build_test_model();
    let mut d = Dispatcher::new();
    process(&mut d, &mut model, ControlMessage::Seek(0, 5000), &none());
    assert_eq!(model.items[0].target_position, 1000);
    process(&mut d, &mut model, ControlMessage::Play(1), &none());
    let cmds = process(&mut d, &mut model, ControlMessage::Seek(1, 9999), &none());
    assert!(matches!(cmds[..], [Command::Seek(1, 1000)]));
}

#[test]
fn unknown_item_is_not_added_to_playlist() {
    let mut model = build_test_model();
    model.playlists.push(Playlist {
        id: 7,
        name: "p".to_string(),
        description: String::new(),
        items: vec![],
    });
    let mut d = Dispatcher::new();
    let msg = ControlMessage::AddToPlaylist { item_id: 42, playlist_id: 7 };
    process(&mut d, &mut model, msg, &none());
    assert!(model.playlists[0].items.is_empty());
}
