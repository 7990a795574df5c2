//! Saving and restoring the library: the blob format and the reconciliation
//! of a restored model.
use crate::dispatcher::ControlMessage;
use crate::model::{Item, ItemStatus, Model};
use vstd::prelude::*;
use vstd::string::StringSliceAdditionalSpecFns;
use vstd::utf8::{is_ascii_chars, is_ascii_chars_encode_utf8};

verus! {

/// Status of an item restored from a saved library: a playing item is loading
/// again, and an item that was still loading when the library was saved is
/// stopped.
pub open spec fn recovered_status(s: ItemStatus) -> ItemStatus {
    match s {
        ItemStatus::Playing => ItemStatus::Loading,
        ItemStatus::Loading => ItemStatus::Stopped,
        other => other,
    }
}

pub open spec fn was_playing() -> spec_fn(Item) -> bool {
    |it: Item| it.status == ItemStatus::Playing
}

/// The `Play` messages that restart the playing items of `items`, in order.
pub open spec fn restarts(items: Seq<Item>) -> Seq<ControlMessage> {
    items.filter(was_playing()).map_values(|it: Item| ControlMessage::Play(it.id))
}

/// Reconciles a restored library with a playback engine that has no live
/// handles, and returns the messages that restart what was playing. Send
/// them only once the result is installed as the current model.
pub fn recover(loaded: &mut Model) -> (msgs: Vec<ControlMessage>)
    ensures
        final(loaded).items@.len() == old(loaded).items@.len(),
        forall|i: int|
            0 <= i < old(loaded).items@.len() ==> #[trigger] final(loaded).items@[i] == (Item {
                status: recovered_status(old(loaded).items@[i].status),
                ..old(loaded).items@[i]
            }),
        msgs@ == restarts(old(loaded).items@),
        final(loaded).playlists == old(loaded).playlists,
        final(loaded).search_query == old(loaded).search_query,
        final(loaded).playlist_creation_state == old(loaded).playlist_creation_state,
        final(loaded).selected_playlist == old(loaded).selected_playlist,
        final(loaded).playing_playlist == old(loaded).playing_playlist,
        final(loaded).shuffle == old(loaded).shuffle,
        final(loaded).id_counter == old(loaded).id_counter,
{
    let ghost m0 = *loaded;
    let ghost items0 = loaded.items@;
    let mut msgs: Vec<ControlMessage> = Vec::new();
    let mut i: usize = 0;
    while i < loaded.items.len()
        invariant
            i <= items0.len(),
            loaded.items@.len() == items0.len(),
            forall|j: int|
                0 <= j < i ==> #[trigger] loaded.items@[j] == (Item {
                    status: recovered_status(items0[j].status),
                    ..items0[j]
                }),
            forall|j: int| i <= j < items0.len() ==> #[trigger] loaded.items@[j] == items0[j],
            msgs@ == restarts(items0.take(i as int)),
            loaded.playlists == m0.playlists,
            loaded.search_query == m0.search_query,
            loaded.playlist_creation_state == m0.playlist_creation_state,
            loaded.selected_playlist == m0.selected_playlist,
            loaded.playing_playlist == m0.playing_playlist,
            loaded.shuffle == m0.shuffle,
            loaded.id_counter == m0.id_counter,
        decreases items0.len() - i,
    {
        proof {
            assert(items0.take(i + 1) =~= items0.take(i as int).push(items0[i as int]));
            items0.take(i as int).lemma_filter_push(items0[i as int], was_playing());
        }
        if loaded.items[i].status == ItemStatus::Playing {
            loaded.items[i].status = ItemStatus::Loading;
            let id = loaded.items[i].id;
            msgs.push(ControlMessage::Play(id));
            proof {
                assert(msgs@ =~= restarts(items0.take(i + 1)));
            }
        } else if loaded.items[i].status == ItemStatus::Loading {
            loaded.items[i].status = ItemStatus::Stopped;
        }
        i = i + 1;
    }
    proof {
        assert(items0.take(i as int) =~= items0);
    }
    msgs
}

/// The LZ4 block that `lz4_flex::compress_prepend_size` makes of `b`, after
/// the length of `b` as a little-endian u32.
pub uninterp spec fn lz4_packed(b: Seq<u8>) -> Seq<u8>;

/// What `lz4_flex::decompress_size_prepended` makes of `b`; None for an error.
pub uninterp spec fn lz4_unpacked(b: Seq<u8>) -> Option<Seq<u8>>;

/// The text that `base64::encode` makes of `b`.
pub uninterp spec fn base64_of(b: Seq<u8>) -> Seq<char>;

/// What `base64::decode` makes of the text `s`; None for an error.
pub uninterp spec fn base64_decoded(s: Seq<char>) -> Option<Seq<u8>>;

/// Relies on lz4_flex::compress_prepend_size, which prepends the input's
/// length as a u32 and is documented to pair with decompress_size_prepended,
/// which gives the input back.
#[verifier::external_body]
fn lz4_compress(b: &[u8]) -> (r: Vec<u8>)
    requires
        b@.len() <= u32::MAX,
    ensures
        r@ == lz4_packed(b@),
        r@.len() >= 4,
        lz4_unpacked(r@) == Some(b@),
{
    lz4_flex::compress_prepend_size(b)
}

/// Relies on lz4_flex::decompress_size_prepended, which reads the length that
/// compress_prepend_size put first and decompresses the rest. With the
/// `checked-decode` feature it reports malformed input as an error rather
/// than panicking.
#[verifier::external_body]
fn lz4_decompress(b: &[u8]) -> (r: Option<Vec<u8>>)
    ensures
        match r {
            Some(v) => lz4_unpacked(b@) == Some(v@),
            None => lz4_unpacked(b@) is None,
        },
{
    lz4_flex::decompress_size_prepended(b).ok()
}

/// A character of the standard base-64 alphabet, or the padding `=`.
pub open spec fn is_base64_char(c: char) -> bool {
    ||| 'A' <= c <= 'Z'
    ||| 'a' <= c <= 'z'
    ||| '0' <= c <= '9'
    ||| c == '+'
    ||| c == '/'
    ||| c == '='
}

/// Relies on base64::encode: standard alphabet, padded, four characters for
/// every three bytes or part of three; base64::decode gives the bytes back.
/// It panics when that length overflows `usize`.
#[verifier::external_body]
fn base64_encode(b: &[u8]) -> (r: String)
    requires
        4 * ((b@.len() + 2) / 3) <= usize::MAX,
    ensures
        r@ == base64_of(b@),
        r@.len() == 4 * ((b@.len() + 2) / 3),
        forall|i: int| 0 <= i < r@.len() ==> is_base64_char(#[trigger] r@[i]),
        base64_decoded(r@) == Some(b@),
{
    base64::encode(b)
}

/// Relies on base64::decode, standard alphabet; it panics when the input's
/// length in bytes plus 7 overflows `usize`.
#[verifier::external_body]
fn base64_decode(s: &str) -> (r: Option<Vec<u8>>)
    requires
        s.spec_bytes().len() + 7 <= usize::MAX,
    ensures
        match r {
            Some(v) => base64_decoded(s@) == Some(v@),
            None => base64_decoded(s@) is None,
        },
{
    base64::decode(s).ok()
}

/// Why a saved blob could not be read.
#[derive(Clone, Copy, Debug, PartialEq, Eq, Structural)]
pub enum BlobError {
    /// The text is not base-64.
    Base64,
    /// The bytes are not a length-prefixed LZ4 block.
    Decompress,
}

/// The text a serialized library is saved as: its bytes compressed, then
/// base-64 encoded.
pub open spec fn blob_text(b: Seq<u8>) -> Seq<char> {
    base64_of(lz4_packed(b))
}

/// The serialized library that saved text holds.
pub open spec fn blob_bytes(s: Seq<char>) -> Result<Seq<u8>, BlobError> {
    match base64_decoded(s) {
        None => Err(BlobError::Base64),
        Some(packed) => match lz4_unpacked(packed) {
            None => Err(BlobError::Decompress),
            Some(b) => Ok(b),
        },
    }
}

/// Length of the base-64 text of `n` bytes.
pub open spec fn text_len(n: nat) -> nat {
    4 * ((n + 2) / 3)
}

/// Encodes a serialized library for the string-keyed store: non-empty
/// base-64 text whose length is a multiple of 4, from which `decode_blob`
/// reads `bytes` back. None when the input is too long for the format's
/// 32-bit length, or its text too long to be read back in memory.
pub fn encode_blob(bytes: &[u8]) -> (r: Option<String>)
    ensures
        bytes@.len() > u32::MAX ==> r is None,
        bytes@.len() <= u32::MAX ==> match r {
            Some(text) => {
                &&& text@ == blob_text(bytes@)
                &&& text@.len() == text_len(lz4_packed(bytes@).len())
                &&& text@.len() > 0
                &&& text@.len() % 4 == 0
                &&& forall|i: int| 0 <= i < text@.len() ==> is_base64_char(#[trigger] text@[i])
                &&& is_ascii_chars(text@)
                &&& text@.len() + 7 <= usize::MAX
                &&& blob_bytes(text@) == Ok::<Seq<u8>, BlobError>(bytes@)
            },
            None => text_len(lz4_packed(bytes@).len()) + 7 > usize::MAX,
        },
{
    if bytes.len() > 0xFFFF_FFFF {
        return None;
    }
    let packed = lz4_compress(bytes);
    let n = packed.len() as u128;
    if 4 * ((n + 2) / 3) + 7 > usize::MAX as u128 {
        return None;
    }
    let text = base64_encode(packed.as_slice());
    proof {
        assert forall|i: int| 0 <= i < text@.len() implies '\0' <= #[trigger] text@[i] <= '\u{7f}' by {
            assert(is_base64_char(text@[i]));
        }
    }
    Some(text)
}

/// Reads text that `encode_blob` wrote back into a serialized library.
/// Text whose UTF-8 length plus 7 overflows `usize` is refused as not
/// base-64; ASCII text as long as `encode_blob` allows never is.
pub fn decode_blob(saved: &str) -> (r: Result<Vec<u8>, BlobError>)
    ensures
        saved.spec_bytes().len() + 7 <= usize::MAX ==> match r {
            Ok(v) => blob_bytes(saved@) == Ok::<Seq<u8>, BlobError>(v@),
            Err(e) => blob_bytes(saved@) == Err::<Seq<u8>, BlobError>(e),
        },
        saved.spec_bytes().len() + 7 > usize::MAX ==> r == Err::<Vec<u8>, BlobError>(BlobError::Base64),
        is_ascii_chars(saved@) && saved@.len() + 7 <= usize::MAX ==> saved.spec_bytes().len() + 7 <= usize::MAX,
{
    proof {
        if is_ascii_chars(saved@) {
            is_ascii_chars_encode_utf8(saved@);
        }
    }
    if saved.as_bytes().len() > usize::MAX - 7 {
        return Err(BlobError::Base64);
    }
    match base64_decode(saved) {
        None => Err(BlobError::Base64),
        Some(packed) => match lz4_decompress(packed.as_slice()) {
            None => Err(BlobError::Decompress),
            Some(b) => Ok(b),
        },
    }
}

} // verus!
