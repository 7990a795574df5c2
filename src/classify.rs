use crate::model::IssueType;
use vstd::prelude::*;

verus! {

/// Kind of an I/O failure met while reading an audio file.
#[derive(Clone, Debug)]
pub enum IoErrorKind {
    NotFound,
    PermissionDenied,
    /// Any other kind, with its description.
    Other(String),
}

/// Why a decoder could not seek in a stream.
#[derive(Clone, Copy, Debug, PartialEq, Eq, Structural)]
pub enum SeekErrorKind {
    Unseekable,
    ForwardOnly,
    OutOfRange,
    InvalidTrack,
}

/// A failure reported by the decoder, with the details it gives.
#[derive(Clone, Debug)]
pub enum DecoderError {
    Io(IoErrorKind),
    Decode(String),
    Seek(SeekErrorKind),
    Unsupported(String),
    Limit(String),
    ResetRequired,
}

/// A failure to load an audio file, as the audio loader reports it.
#[derive(Clone, Debug)]
pub enum FromFileError {
    NoDefaultTrack,
    UnknownSampleRate,
    UnsupportedChannelConfiguration,
    Io(IoErrorKind),
    Decoder(DecoderError),
    /// A failure of a kind this library does not know.
    Unknown,
}

/// Message and category of an I/O failure.
pub open spec fn io_issue(kind: IoErrorKind) -> (Seq<char>, IssueType) {
    match kind {
        IoErrorKind::NotFound => ("the file could not be found"@, IssueType::MissingFile),
        IoErrorKind::PermissionDenied => (
            "permission to read the file was denied"@,
            IssueType::InaccessibleFile,
        ),
        IoErrorKind::Other(detail) => (
            "an IO error occurred: "@ + detail@,
            IssueType::OtherError,
        ),
    }
}

/// Message of a seek failure.
pub open spec fn seek_message(kind: SeekErrorKind) -> Seq<char> {
    match kind {
        SeekErrorKind::Unseekable => "this file is not seekable"@,
        SeekErrorKind::ForwardOnly => "this file can only be seeked forward"@,
        SeekErrorKind::OutOfRange => "the seek timestamp is out of range"@,
        SeekErrorKind::InvalidTrack => "the track ID is invalid"@,
    }
}

/// Message and category of a decoder failure.
pub open spec fn decoder_issue(e: DecoderError) -> (Seq<char>, IssueType) {
    match e {
        DecoderError::Io(kind) => io_issue(kind),
        DecoderError::Decode(detail) => (
            "could not decode the file: "@ + detail@,
            IssueType::PlaybackProblem,
        ),
        DecoderError::Seek(kind) => (seek_message(kind), IssueType::PlaybackProblem),
        DecoderError::Unsupported(detail) => (
            "does not support this format: "@ + detail@,
            IssueType::PlaybackProblem,
        ),
        DecoderError::Limit(detail) => (
            "a limit error occurred: "@ + detail@,
            IssueType::PlaybackProblem,
        ),
        DecoderError::ResetRequired => ("requires a reset"@, IssueType::PlaybackProblem),
    }
}

/// Message and category of a load failure.
pub open spec fn load_issue(e: FromFileError) -> (Seq<char>, IssueType) {
    match e {
        FromFileError::NoDefaultTrack => (
            "the file doesn't have a default track"@,
            IssueType::PlaybackProblem,
        ),
        FromFileError::UnknownSampleRate => (
            "the sample rate could not be determined"@,
            IssueType::PlaybackProblem,
        ),
        FromFileError::UnsupportedChannelConfiguration => (
            "the channel configuration of the file is not supported"@,
            IssueType::PlaybackProblem,
        ),
        FromFileError::Io(kind) => io_issue(kind),
        FromFileError::Decoder(d) => decoder_issue(d),
        FromFileError::Unknown => ("an unknown error occurred"@, IssueType::OtherError),
    }
}

/// `prefix` followed by `detail`.
fn prefixed(prefix: &str, detail: &String) -> (r: String)
    ensures
        r@ == prefix@ + detail@,
{
    String::from_str(prefix).concat(detail.as_str())
}

fn describe_io_error(kind: &IoErrorKind) -> (r: (String, IssueType))
    ensures
        (r.0@, r.1) == io_issue(*kind),
{
    match kind {
        IoErrorKind::NotFound => (
            String::from_str("the file could not be found"),
            IssueType::MissingFile,
        ),
        IoErrorKind::PermissionDenied => (
            String::from_str("permission to read the file was denied"),
            IssueType::InaccessibleFile,
        ),
        IoErrorKind::Other(detail) => (
            prefixed("an IO error occurred: ", detail),
            IssueType::OtherError,
        ),
    }
}

fn describe_decoder_error(e: &DecoderError) -> (r: (String, IssueType))
    ensures
        (r.0@, r.1) == decoder_issue(*e),
{
    match e {
        DecoderError::Io(kind) => describe_io_error(kind),
        DecoderError::Decode(detail) => (
            prefixed("could not decode the file: ", detail),
            IssueType::PlaybackProblem,
        ),
        DecoderError::Seek(kind) => {
            let msg = match kind {
                SeekErrorKind::Unseekable => String::from_str("this file is not seekable"),
                SeekErrorKind::ForwardOnly => String::from_str(
                    "this file can only be seeked forward",
                ),
                SeekErrorKind::OutOfRange => String::from_str("the seek timestamp is out of range"),
                SeekErrorKind::InvalidTrack => String::from_str("the track ID is invalid"),
            };
            (msg, IssueType::PlaybackProblem)
        },
        DecoderError::Unsupported(detail) => (
            prefixed("does not support this format: ", detail),
            IssueType::PlaybackProblem,
        ),
        DecoderError::Limit(detail) => (
            prefixed("a limit error occurred: ", detail),
            IssueType::PlaybackProblem,
        ),
        DecoderError::ResetRequired => (
            String::from_str("requires a reset"),
            IssueType::PlaybackProblem,
        ),
    }
}

/// The message and category of an audio-loading failure.
pub fn classify_from_file_err(e: &FromFileError) -> (r: (String, IssueType))
    ensures
        (r.0@, r.1) == load_issue(*e),
{
    match e {
        FromFileError::NoDefaultTrack => (
            String::from_str("the file doesn't have a default track"),
            IssueType::PlaybackProblem,
        ),
        FromFileError::UnknownSampleRate => (
            String::from_str("the sample rate could not be determined"),
            IssueType::PlaybackProblem,
        ),
        FromFileError::UnsupportedChannelConfiguration => (
            String::from_str("the channel configuration of the file is not supported"),
            IssueType::PlaybackProblem,
        ),
        FromFileError::Io(kind) => describe_io_error(kind),
        FromFileError::Decoder(d) => describe_decoder_error(d),
        FromFileError::Unknown => (
            String::from_str("an unknown error occurred"),
            IssueType::OtherError,
        ),
    }
}

} // verus!
