use afx::{
    classify_from_file_err, create_item, decode_blob, encode_blob, import_paths, palette_colour,
    process_import_message, recover, visualise_samples, BlobError, Colour, ControlMessage,
    DecodedSound, DecoderError, Frame, FromFileError, ImportMessage, ImportState, IoErrorKind,
    IssueType, Item, ItemImportStatus, ItemStatus, Model, SeekErrorKind,
};

fn frames(mags: &[i32]) -> Vec<Frame> {
    mags.iter().map(|&m| Frame { left: m, right: -m }).collect()
}

#[test]
fn waveform_has_128_bins_peaking_at_255() {
    let mut mags = vec![0i32; 256];
    mags[10] = 100;
    mags[11] = 100;
    mags[100] = 50;
    mags[101] = 50;
    let bars = visualise_samples(&frames(&mags));
    assert_eq!(bars.len(), 128);
    assert_eq!(bars[5], 255);
    assert_eq!(bars[50], 128); // 255 * 0.5 = 127.5 rounds up
    assert_eq!(*bars.iter().max().unwrap(), 255);
    assert_eq!(bars.iter().filter(|&&b| b != 0).count(), 2);
}

#[test]
fn waveform_of_silence_is_zero() {
    let bars = visualise_samples(&frames(&vec![0; 1024]));
    assert_eq!(bars, vec![0u8; 128]);
}

#[test]
fn waveform_of_short_track_is_zero() {
    let bars = visualise_samples(&frames(&vec![1000; 100]));
    assert_eq!(bars, vec![0u8; 128]);
}

#[test]
fn waveform_ignores_remainder_frames() {
    let mut mags = vec![0i32; 130];
    mags[129] = 500;
    assert_eq!(visualise_samples(&frames(&mags)), vec![0u8; 128]);
}

#[test]
fn waveform_extreme_samples() {
    let f = vec![Frame { left: i32::MIN, right: i32::MAX }; 128];
    assert_eq!(visualise_samples(&f), vec![255u8; 128]);
}

#[test]
fn classification_messages_and_categories() {
    let cases = vec![
        (FromFileError::NoDefaultTrack, "the file doesn't have a default track", IssueType::PlaybackProblem),
        (FromFileError::UnknownSampleRate, "the sample rate could not be determined", IssueType::PlaybackProblem),
        (
            FromFileError::UnsupportedChannelConfiguration,
            "the channel configuration of the file is not supported",
            IssueType::PlaybackProblem,
        ),
        (FromFileError::Io(IoErrorKind::NotFound), "the file could not be found", IssueType::MissingFile),
        (
            FromFileError::Io(IoErrorKind::PermissionDenied),
            "permission to read the file was denied",
            IssueType::InaccessibleFile,
        ),
        (
            FromFileError::Io(IoErrorKind::Other("timed out".to_string())),
            "an IO error occurred: timed out",
            IssueType::OtherError,
        ),
        (
            FromFileError::Decoder(DecoderError::Io(IoErrorKind::NotFound)),
            "the file could not be found",
            IssueType::MissingFile,
        ),
        (
            FromFileError::Decoder(DecoderError::Decode("bad frame".to_string())),
            "could not decode the file: bad frame",
            IssueType::PlaybackProblem,
        ),
        (
            FromFileError::Decoder(DecoderError::Seek(SeekErrorKind::ForwardOnly)),
            "this file can only be seeked forward",
            IssueType::PlaybackProblem,
        ),
        (
            FromFileError::Decoder(DecoderError::Seek(SeekErrorKind::Unseekable)),
            "this file is not seekable",
            IssueType::PlaybackProblem,
        ),
        (
            FromFileError::Decoder(DecoderError::Unsupported("opus".to_string())),
            "does not support this format: opus",
            IssueType::PlaybackProblem,
        ),
        (
            FromFileError::Decoder(DecoderError::Limit("too many frames".to_string())),
            "a limit error occurred: too many frames",
            IssueType::PlaybackProblem,
        ),
        (FromFileError::Decoder(DecoderError::ResetRequired), "requires a reset", IssueType::PlaybackProblem),
        (FromFileError::Unknown, "an unknown error occurred", IssueType::OtherError),
    ];
    for (e, msg, cat) in cases {
        let (m, c) = classify_from_file_err(&e);
        assert_eq!(m, msg);
        assert_eq!(c, cat);
    }
}

#[test]
fn blob_round_trip() {
    let bytes: Vec<u8> = (0..2000u32).map(|i| (i % 7) as u8).collect();
    let text = encode_blob(&bytes).unwrap();
    assert!(text.is_ascii());
    assert!(!text.is_empty());
    assert_eq!(text.len() % 4, 0);
    assert!(text.chars().all(|c| c.is_ascii_alphanumeric() || c == '+' || c == '/' || c == '='));
    assert_ne!(text.as_bytes(), &bytes[..]);
    assert_eq!(decode_blob(&text), Ok(bytes));
    let empty = encode_blob(&[]).unwrap();
    assert_eq!(decode_blob(&empty), Ok(vec![]));
}

#[test]
fn blob_errors() {
    assert_eq!(decode_blob("not base64!"), Err(BlobError::Base64));
    // "AQ==" is one byte: too short for the length prefix
    assert_eq!(decode_blob("AQ=="), Err(BlobError::Decompress));
    // declared size 0, then a one-byte literal that does not fit
    assert_eq!(decode_blob("AAAAABBh"), Err(BlobError::Decompress));
}

#[test]
fn recovery_reconciles_statuses() {
    let mut m = Model::new();
    let c = Colour { r: 1, g: 2, b: 3, a: 255 };
    for (id, s) in [(4u64, ItemStatus::Playing), (5, ItemStatus::Loading), (6, ItemStatus::Paused), (7, ItemStatus::Playing)] {
        let mut it = Item::with_default_stem(id, format!("i{}", id), "p".to_string(), c, 10);
        it.status = s;
        m.items.push(it);
    }
    let msgs = recover(&mut m);
    assert_eq!(msgs, vec![ControlMessage::Play(4), ControlMessage::Play(7)]);
    let statuses: Vec<ItemStatus> = m.items.iter().map(|i| i.status).collect();
    assert_eq!(
        statuses,
        vec![ItemStatus::Loading, ItemStatus::Stopped, ItemStatus::Paused, ItemStatus::Loading]
    );
}

#[test]
fn import_assigns_fresh_ids_in_order() {
    let mut m = Model::new();
    m.id_counter = 41;
    let files = vec![
        ("a.wav".to_string(), "/x/a.wav".to_string()),
        ("b.wav".to_string(), "/x/b.wav".to_string()),
    ];
    let jobs = import_paths(&mut m, &files);
    assert_eq!(jobs.len(), 2);
    assert_eq!((jobs[0].id, jobs[1].id), (42, 43));
    assert_eq!(jobs[1].name, "b.wav");
    assert_eq!(jobs[1].path, "/x/b.wav");
    assert_eq!(m.id_counter, 43);
}

#[test]
fn created_item_summarises_audio() {
    let mut mags = vec![0i32; 128 * 4];
    mags[0] = 10;
    let sound = DecodedSound { frames: frames(&mags), sample_rate: 48000 };
    let (item, status) = create_item(13, "/x/a.wav".to_string(), "a.wav".to_string(), Ok(sound));
    assert!(matches!(status, ItemImportStatus::Finished));
    let item: Item = item.unwrap();
    assert_eq!(item.id, 13);
    assert_eq!(item.duration, 10); // 512 frames at 48 kHz
    assert_eq!(item.colour, palette_colour(1));
    assert_eq!(item.colour, Colour { r: 230, g: 200, b: 50, a: 255 });
    assert_eq!(item.stems.len(), 1);
    assert_eq!(item.stems[0].tag, "default");
    assert_eq!(item.stems[0].path, "/x/a.wav");
    assert_eq!(item.bars.len(), 128);
    assert_eq!(item.bars[0], 255);
    assert_eq!(item.status, ItemStatus::Stopped);
}

#[test]
fn failed_import_reports_message() {
    let (item, status) = create_item(
        1,
        "/x/b.wav".to_string(),
        "b.wav".to_string(),
        Err(FromFileError::Io(IoErrorKind::PermissionDenied)),
    );
    assert!(item.is_none());
    match status {
        ItemImportStatus::Failed(m) => assert_eq!(m, "permission to read the file was denied"),
        _ => panic!("expected a failure"),
    }
}

#[test]
fn import_progress_messages() {
    let mut state = ImportState { items_in_progress: vec![], finished: vec![] };
    let mut open = true;
    process_import_message(
        ImportMessage::Update(3, ItemImportStatus::Queued("a.wav".to_string())),
        &mut open,
        &mut state,
    );
    assert_eq!(state.items_in_progress.len(), 1);
    assert!(matches!(state.items_in_progress[0].2, ItemImportStatus::Waiting));
    process_import_message(ImportMessage::Update(3, ItemImportStatus::InProgress), &mut open, &mut state);
    assert!(matches!(state.items_in_progress[0].2, ItemImportStatus::InProgress));
    assert_eq!(state.items_in_progress[0].1, "a.wav");
    process_import_message(ImportMessage::Update(9, ItemImportStatus::Finished), &mut open, &mut state);
    assert_eq!(state.items_in_progress.len(), 1);
    let item = Item::with_default_stem(3, "a.wav".to_string(), "/a.wav".to_string(), palette_colour(3), 5);
    process_import_message(ImportMessage::Finished(vec![item]), &mut open, &mut state);
    assert_eq!(state.finished.len(), 1);
    assert!(open);
    process_import_message(ImportMessage::Cancelled, &mut open, &mut state);
    assert!(!open);
}

#[test]
fn palette_wraps_every_twelve_ids() {
    assert_eq!(palette_colour(0), Colour { r: 240, g: 135, b: 35, a: 255 });
    assert_eq!(palette_colour(12), palette_colour(0));
    assert_eq!(palette_colour(23), Colour { r: 40, g: 120, b: 220, a: 255 });
}
