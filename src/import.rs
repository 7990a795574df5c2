//! The import pipeline: queueing chosen files, turning decoded audio into
//! items, and tracking progress.
use crate::classify::{classify_from_file_err, load_issue, FromFileError};
use crate::model::{palette, FULL_VOLUME, Item, ItemImportStatus, ItemStatus, Model, PALETTE_LEN, palette_colour};
use crate::waveform::{visualise_samples, waveform, Frame};
use vstd::prelude::*;

verus! {

/// A message from the import workers to the window that shows progress.
#[derive(Clone, Debug)]
pub enum ImportMessage {
    Cancelled,
    Update(u64, ItemImportStatus),
    Finished(Vec<Item>),
}

/// Progress of an import, as the window shows it.
pub struct ImportState {
    pub items_in_progress: Vec<(u64, String, ItemImportStatus)>,
    pub finished: Vec<Item>,
}

/// A file queued for import under a fresh id.
#[derive(Clone, Debug)]
pub struct ImportJob {
    pub id: u64,
    pub name: String,
    pub path: String,
}

/// A fully decoded track.
#[derive(Clone, Debug)]
pub struct DecodedSound {
    pub frames: Vec<Frame>,
    /// Frames per second.
    pub sample_rate: u32,
}

/// Length in milliseconds of `frames` frames at `rate` frames per second,
/// rounded down and capped at `u64::MAX`; 0 at a rate of 0.
pub open spec fn duration_ms(frames: nat, rate: nat) -> nat {
    if rate == 0 {
        0
    } else if frames * 1000 / rate > u64::MAX {
        u64::MAX as nat
    } else {
        frames * 1000 / rate
    }
}

fn duration_of(frames: usize, rate: u32) -> (r: u64)
    ensures
        r == duration_ms(frames as nat, rate as nat),
{
    if rate == 0 {
        0
    } else {
        assert(frames as u128 * 1000 <= u128::MAX) by (nonlinear_arith)
            requires
                frames <= usize::MAX,
        ;
        let d = frames as u128 * 1000 / rate as u128;
        if d > u64::MAX as u128 {
            u64::MAX
        } else {
            d as u64
        }
    }
}

/// Assigns a fresh id to each file, in order.
pub fn import_paths(model: &mut Model, files: &Vec<(String, String)>) -> (jobs: Vec<ImportJob>)
    requires
        old(model).id_counter + files@.len() <= u64::MAX,
    ensures
        jobs@.len() == files@.len(),
        forall|i: int|
            0 <= i < jobs@.len() ==> {
                &&& #[trigger] jobs@[i].id == old(model).id_counter + i + 1
                &&& jobs@[i].name@ == files@[i].0@
                &&& jobs@[i].path@ == files@[i].1@
            },
        final(model).id_counter == old(model).id_counter + files@.len(),
        *final(model) == (Model { id_counter: final(model).id_counter, ..*old(model) }),
{
    let ghost m0 = *model;
    let mut jobs: Vec<ImportJob> = Vec::new();
    let mut i: usize = 0;
    while i < files.len()
        invariant
            i <= files@.len(),
            jobs@.len() == i,
            m0.id_counter + files@.len() <= u64::MAX,
            model.id_counter == m0.id_counter + i,
            *model == (Model { id_counter: model.id_counter, ..m0 }),
            forall|j: int|
                0 <= j < i ==> {
                    &&& #[trigger] jobs@[j].id == m0.id_counter + j + 1
                    &&& jobs@[j].name@ == files@[j].0@
                    &&& jobs@[j].path@ == files@[j].1@
                },
        decreases files@.len() - i,
    {
        let name = files[i].0.clone();
        let path = files[i].1.clone();
        let id = model.fresh_id();
        jobs.push(ImportJob { id, name, path });
        i = i + 1;
    }
    jobs
}

/// Makes the item for an imported file from its decoded audio, or the
/// failure status when it could not be decoded. The item has the file as its
/// one stem, the palette colour of its id, the track's length and its
/// waveform summary.
pub fn create_item(id: u64, path: String, name: String, decoded: Result<DecodedSound, FromFileError>) -> (r: (
    Option<Item>,
    ItemImportStatus,
))
    ensures
        match decoded {
            Ok(sound) => {
                &&& r.0 is Some
                &&& r.1 is Finished
                &&& r.0->Some_0.id == id
                &&& r.0->Some_0.name@ == name@
                &&& r.0->Some_0.stems@.len() == 1
                &&& r.0->Some_0.stems@[0].tag@ == "default"@
                &&& r.0->Some_0.stems@[0].path@ == path@
                &&& r.0->Some_0.current_stem == 0
                &&& r.0->Some_0.volume == FULL_VOLUME
                &&& !r.0->Some_0.muted
                &&& !r.0->Some_0.looped
                &&& r.0->Some_0.position == 0
                &&& r.0->Some_0.status == ItemStatus::Stopped
                &&& r.0->Some_0.colour == palette((id % PALETTE_LEN) as int)
                &&& r.0->Some_0.duration == duration_ms(sound.frames@.len(), sound.sample_rate as nat)
                &&& r.0->Some_0.target_position == 0
                &&& r.0->Some_0.bars@ == waveform(sound.frames@)
                &&& r.0->Some_0.issues@.len() == 0
                &&& r.0->Some_0.wf()
            },
            Err(e) => r.0 is None && r.1 is Failed && r.1->Failed_0@ == load_issue(e).0,
        },
{
    match decoded {
        Ok(sound) => {
            let duration = duration_of(sound.frames.len(), sound.sample_rate);
            let mut item = Item::with_default_stem(id, name, path, palette_colour(id), duration);
            item.bars = visualise_samples(&sound.frames);
            (Some(item), ItemImportStatus::Finished)
        },
        Err(e) => {
            let (msg, _) = classify_from_file_err(&e);
            (None, ItemImportStatus::Failed(msg))
        },
    }
}

/// `k` is the first entry of `progress` for `id`.
pub open spec fn is_first_entry(progress: Seq<(u64, String, ItemImportStatus)>, id: u64, k: int) -> bool {
    &&& 0 <= k < progress.len()
    &&& progress[k].0 == id
    &&& forall|j: int| 0 <= j < k ==> #[trigger] progress[j].0 != id
}

/// Index of the first entry for `id`, if there is one.
pub open spec fn entry_pos(progress: Seq<(u64, String, ItemImportStatus)>, id: u64) -> Option<int> {
    if exists|k: int| is_first_entry(progress, id, k) {
        Some(choose|k: int| is_first_entry(progress, id, k))
    } else {
        None
    }
}

fn find_entry(progress: &Vec<(u64, String, ItemImportStatus)>, id: u64) -> (r: Option<usize>)
    ensures
        match r {
            Some(k) => entry_pos(progress@, id) == Some(k as int),
            None => entry_pos(progress@, id) is None,
        },
{
    let mut i: usize = 0;
    while i < progress.len()
        invariant
            0 <= i <= progress@.len(),
            forall|j: int| 0 <= j < i ==> #[trigger] progress@[j].0 != id,
        decreases progress@.len() - i,
    {
        if progress[i].0 == id {
            proof {
                assert(is_first_entry(progress@, id, i as int));
                let c = choose|k: int| is_first_entry(progress@, id, k);
                assert(c == i as int);
            }
            return Some(i);
        }
        i = i + 1;
    }
    proof {
        assert forall|k: int| !is_first_entry(progress@, id, k) by {
            if is_first_entry(progress@, id, k) {
                assert(progress@[k].0 != id);
            }
        }
    }
    None
}

/// Applies one progress message: a cancellation closes the window, a
/// queued file is listed as waiting, any other update replaces the status
/// of the file's entry, and the finished batch is kept for confirmation.
pub fn process_import_message(msg: ImportMessage, keep_window_open: &mut bool, state: &mut ImportState)
    ensures
        match msg {
            ImportMessage::Cancelled => {
                &&& !*final(keep_window_open)
                &&& final(state).items_in_progress == old(state).items_in_progress
                &&& final(state).finished == old(state).finished
            },
            ImportMessage::Update(id, ItemImportStatus::Queued(name)) => {
                &&& *final(keep_window_open) == *old(keep_window_open)
                &&& final(state).items_in_progress@ == old(state).items_in_progress@.push(
                    (id, name, ItemImportStatus::Waiting),
                )
                &&& final(state).finished == old(state).finished
            },
            ImportMessage::Update(id, s) => {
                &&& *final(keep_window_open) == *old(keep_window_open)
                &&& final(state).finished == old(state).finished
                &&& final(state).items_in_progress@ == match entry_pos(
                    old(state).items_in_progress@,
                    id,
                ) {
                    Some(k) => old(state).items_in_progress@.update(
                        k,
                        (id, old(state).items_in_progress@[k].1, s),
                    ),
                    None => old(state).items_in_progress@,
                }
            },
            ImportMessage::Finished(v) => {
                &&& *final(keep_window_open) == *old(keep_window_open)
                &&& final(state).items_in_progress == old(state).items_in_progress
                &&& final(state).finished == v
            },
        },
{
    match msg {
        ImportMessage::Cancelled => {
            *keep_window_open = false;
        },
        ImportMessage::Update(id, status) => match status {
            ItemImportStatus::Queued(name) => {
                state.items_in_progress.push((id, name, ItemImportStatus::Waiting));
            },
            s => {
                match find_entry(&state.items_in_progress, id) {
                    Some(k) => {
                        state.items_in_progress[k].2 = s;
                    },
                    None => {},
                }
            },
        },
        ImportMessage::Finished(v) => {
            state.finished = v;
        },
    }
}

} // verus!
