//! Playback and library core of a cue-based sound-sample player.
//!
//! Times are whole milliseconds, gains are thousandths of full scale, and
//! sample frames are fixed-point integers: the audio backend and the decoder
//! live outside this crate and hand it plain values. The dispatcher decides
//! what each control message does to the library and returns the backend
//! operations to perform.
pub mod browse;
pub mod classify;
pub mod dispatch_laws;
pub mod dispatcher;
pub mod import;
pub mod model;
pub mod persist;
pub mod text;
pub mod waveform;

pub use classify::{classify_from_file_err, DecoderError, FromFileError, IoErrorKind, SeekErrorKind};
pub use dispatcher::{
    begin_playback, Command, ControlMessage, Dispatcher, Handle, HandleReport, OpenRequest,
    PlaybackState,
};
pub use import::{
    create_item, import_paths, process_import_message, DecodedSound, ImportJob, ImportMessage,
    ImportState,
};
pub use model::{
    palette_colour, Colour, Issue, IssueType, Item, ItemImportStatus, ItemStatus, Model, Playlist,
    Stem, BARS, FULL_VOLUME,
};
pub use persist::{decode_blob, encode_blob, recover, BlobError};
pub use waveform::{visualise_samples, Frame};
