//! A model of the file system, to state what a save leaves on disk.
//!
//! The model holds the files with their text and the directories. Every
//! action of a save is given its effect on the model, and a save is run by
//! performing what the job asks for and reporting back, as a driver does.
//! The model has no failing action: it describes the save that meets no
//! error of the file system.

use crate::card::CardView;
use crate::records::{
    lemma_round_trip, line_of, records_of_text, text_of, well_framed, RecordView,
};
use crate::save::{
    action_of, backup_path, backups_path, directory_len, stage_after, temp_path, writing_from,
    ActionView, EventView, JobView, StageView,
};
use crate::store::{distinct_keys, lemma_put_all_fresh, put_all};
use vstd::prelude::*;

verus! {

/// The files, each with its text, and the directories.
pub struct Disk {
    pub files: Map<Seq<char>, Seq<char>>,
    pub dirs: Set<Seq<char>>,
}

/// The text of a file, or nothing where the file does not exist.
pub open spec fn text_at(disk: Disk, path: Seq<char>) -> Seq<char> {
    if disk.files.contains_key(path) {
        disk.files[path]
    } else {
        Seq::empty()
    }
}

/// The disk after an action.
pub open spec fn perform(disk: Disk, action: ActionView) -> Disk {
    match action {
        ActionView::Create(path) => Disk { files: disk.files.insert(path, Seq::empty()), ..disk },
        ActionView::Append(path, text) => Disk {
            files: disk.files.insert(path, text_at(disk, path) + text),
            ..disk
        },
        ActionView::CreateDir(path) => Disk { dirs: disk.dirs.insert(path), ..disk },
        ActionView::Copy(from, to) => Disk {
            files: disk.files.insert(to, text_at(disk, from)),
            ..disk
        },
        ActionView::Remove(path) => Disk { files: disk.files.remove(path), ..disk },
        _ => disk,
    }
}

/// What the driver reports after an action on the disk, where `payload`
/// encodes the cards.
pub open spec fn report(
    disk: Disk,
    action: ActionView,
    payload: spec_fn(CardView) -> Seq<char>,
) -> EventView {
    match action {
        ActionView::Probe(path) => EventView::Found(
            disk.files.contains_key(path) || disk.dirs.contains(path),
        ),
        ActionView::Encode(card) => EventView::Encoded(Ok(payload(card))),
        _ => EventView::Performed,
    }
}

/// The job and the disk after `steps` actions.
pub open spec fn run_save(
    job: JobView,
    disk: Disk,
    payload: spec_fn(CardView) -> Seq<char>,
    steps: nat,
) -> (JobView, Disk)
    decreases steps,
{
    if steps == 0 {
        (job, disk)
    } else {
        let action = action_of(job);
        run_save(
            JobView {
                stage: stage_after(job.cards, job.stage, report(disk, action, payload)),
                ..job
            },
            perform(disk, action),
            payload,
            (steps - 1) as nat,
        )
    }
}

/// The job that [`crate::save::save_db`] prepares.
pub open spec fn new_job(target: Seq<char>, stamp: Seq<char>, cards: Seq<CardView>) -> JobView {
    JobView { target, stamp, cards, stage: StageView::Truncate }
}

/// The records that a save writes: one per card, under its headword.
pub open spec fn saved_records(
    cards: Seq<CardView>,
    payload: spec_fn(CardView) -> Seq<char>,
) -> Seq<RecordView> {
    Seq::new(cards.len(), |i: int| RecordView { key: cards[i].character, payload: payload(cards[i]) })
}

/// The number of actions after which a save of `count` cards is over.
pub open spec fn enough_steps(count: nat) -> nat {
    2 * count + 8
}

/// The disk after a whole save.
pub open spec fn saved(
    disk: Disk,
    target: Seq<char>,
    stamp: Seq<char>,
    cards: Seq<CardView>,
    payload: spec_fn(CardView) -> Seq<char>,
) -> Disk {
    run_save(new_job(target, stamp, cards), disk, payload, enough_steps(cards.len())).1
}

/// Running a job for some steps and then for more is running it for all of
/// them.
pub proof fn lemma_run_splits(
    job: JobView,
    disk: Disk,
    payload: spec_fn(CardView) -> Seq<char>,
    first: nat,
    second: nat,
)
    ensures
        run_save(job, disk, payload, first + second) == run_save(
            run_save(job, disk, payload, first).0,
            run_save(job, disk, payload, first).1,
            payload,
            second,
        ),
    decreases first,
{
    if first > 0 {
        let action = action_of(job);
        let next = JobView {
            stage: stage_after(job.cards, job.stage, report(disk, action, payload)),
            ..job
        };
        lemma_run_splits(next, perform(disk, action), payload, (first - 1) as nat, second);
    }
}

/// A job that is over stays as it is, and so does the disk.
pub proof fn lemma_finished_stays(
    job: JobView,
    disk: Disk,
    payload: spec_fn(CardView) -> Seq<char>,
    steps: nat,
)
    requires
        job.stage is Finished,
    ensures
        run_save(job, disk, payload, steps) == (job, disk),
    decreases steps,
{
    if steps > 0 {
        lemma_finished_stays(job, disk, payload, (steps - 1) as nat);
    }
}

/// The text of records followed by one more is the text of the records
/// followed by the line of that one.
pub proof fn lemma_text_of_push(records: Seq<RecordView>, record: RecordView)
    ensures
        text_of(records.push(record)) == text_of(records) + line_of(record),
    decreases records.len(),
{
    if records.len() == 0 {
        assert(records.push(record).drop_first() =~= Seq::<RecordView>::empty());
        assert(text_of(Seq::<RecordView>::empty()) =~= Seq::<char>::empty());
    } else {
        assert(records.push(record).drop_first() =~= records.drop_first().push(record));
        lemma_text_of_push(records.drop_first(), record);
    }
}

/// No `/` stands behind the directory part of a path.
pub proof fn lemma_directory_len(path: Seq<char>)
    ensures
        directory_len(path) <= path.len(),
        forall|j: int| directory_len(path) <= j < path.len() ==> path[j] != '/',
    decreases path.len(),
{
    if path.len() > 0 && path.last() != '/' {
        lemma_directory_len(path.drop_last());
        assert forall|j: int| directory_len(path) <= j < path.len() implies path[j] != '/' by {
            if j < path.len() - 1 {
                assert(path.drop_last()[j] == path[j]);
            }
        }
    }
}

/// The store file, its temporary file and its backup lie at three
/// different paths, and backups of different moments at different paths.
pub proof fn lemma_paths_differ(target: Seq<char>, stamp: Seq<char>, other: Seq<char>)
    ensures
        temp_path(target) != target,
        backup_path(target, stamp) != target,
        backup_path(target, stamp) != temp_path(target),
        stamp != other ==> backup_path(target, stamp) != backup_path(target, other),
{
    reveal_strlit(".temp");
    reveal_strlit("backups");
    reveal_strlit("/");
    lemma_directory_len(target);
    let d = directory_len(target) as int;
    let backup = backup_path(target, stamp);
    let temp = temp_path(target);
    assert(backup.len() == d + 8 + stamp.len());
    if backup == target {
        assert(target[d + 7] != '/');
    }
    if backup == temp {
        if d + 7 < target.len() {
            assert(temp[d + 7] == target[d + 7]);
        } else {
            assert(temp[d + 7] == ".temp"@[d + 7 - target.len()]);
        }
    }
    if stamp != other && backup == backup_path(target, other) {
        let prefix = backups_path(target) + "/"@;
        assert(backup.subrange(prefix.len() as int, backup.len() as int) =~= stamp);
        assert(backup_path(target, other).subrange(
            prefix.len() as int,
            backup_path(target, other).len() as int,
        ) =~= other);
    }
}

/// The writing of the cards from place `at` on: the lines reach the
/// temporary file one by one, and nothing else changes.
proof fn lemma_writing(job: JobView, disk: Disk, payload: spec_fn(CardView) -> Seq<char>, at: nat)
    requires
        at <= job.cards.len(),
        job.stage == writing_from(job.cards, at),
        disk.files.contains_key(temp_path(job.target)),
        disk.files[temp_path(job.target)] == text_of(
            saved_records(job.cards, payload).take(at as int),
        ),
    ensures
        run_save(job, disk, payload, (2 * (job.cards.len() - at)) as nat) == (
            JobView { stage: StageView::ProbeBackups, ..job },
            Disk {
                files: disk.files.insert(
                    temp_path(job.target),
                    text_of(saved_records(job.cards, payload)),
                ),
                ..disk
            },
        ),
    decreases job.cards.len() - at,
{
    let temp = temp_path(job.target);
    let records = saved_records(job.cards, payload);
    if at < job.cards.len() {
        let record = records[at as int];
        let line = line_of(record);
        let writing = JobView { stage: StageView::Write(at, line), ..job };
        let next = JobView { stage: writing_from(job.cards, at + 1), ..job };
        let written = Disk { files: disk.files.insert(temp, disk.files[temp] + line), ..disk };
        assert(run_save(job, disk, payload, 2) == (next, written)) by {
            reveal_with_fuel(run_save, 3);
        }
        assert(records.take(at as int + 1) =~= records.take(at as int).push(record));
        lemma_text_of_push(records.take(at as int), record);
        lemma_writing(next, written, payload, at + 1);
        lemma_run_splits(job, disk, payload, 2, (2 * (job.cards.len() - at - 1)) as nat);
        assert(written.files.insert(temp, text_of(records)) =~= disk.files.insert(
            temp,
            text_of(records),
        ));
    } else {
        assert(records.take(at as int) =~= records);
        assert(disk.files.insert(temp, text_of(records)) =~= disk.files);
    }
}

/// What a save leaves on disk, where the store path is neither a directory
/// nor the path of its own backups directory: the store file holds the
/// records of the cards, the backup of the moment holds what the store file
/// held before, the temporary file is gone, and every other file is as it
/// was.
pub proof fn lemma_save_completes(
    disk: Disk,
    target: Seq<char>,
    stamp: Seq<char>,
    cards: Seq<CardView>,
    payload: spec_fn(CardView) -> Seq<char>,
)
    requires
        !disk.dirs.contains(target),
        backups_path(target) != target,
    ensures
        run_save(
            new_job(target, stamp, cards),
            disk,
            payload,
            enough_steps(cards.len()),
        ).0.stage is Finished,
        saved(disk, target, stamp, cards, payload).files == disk.files.insert(
            backup_path(target, stamp),
            text_at(disk, target),
        ).insert(target, text_of(saved_records(cards, payload))).remove(temp_path(target)),
        !saved(disk, target, stamp, cards, payload).dirs.contains(target),
        forall|dir: Seq<char>|
            disk.dirs.contains(dir) ==> saved(disk, target, stamp, cards, payload).dirs.contains(
                dir,
            ),
{
    let job = new_job(target, stamp, cards);
    let temp = temp_path(target);
    let backup = backup_path(target, stamp);
    let text = text_of(saved_records(cards, payload));
    lemma_paths_differ(target, stamp, stamp);
    lemma_backups_is_no_temp(target);
    // the temporary file is emptied
    let emptied = Disk { files: disk.files.insert(temp, Seq::empty()), ..disk };
    let writing = JobView { stage: writing_from(cards, 0), ..job };
    assert(run_save(job, disk, payload, 1) == (writing, emptied)) by {
        reveal_with_fuel(run_save, 2);
    }
    // the lines are written
    lemma_writing(writing, emptied, payload, 0);
    let ready = JobView { stage: StageView::ProbeBackups, ..job };
    let written = Disk { files: disk.files.insert(temp, text), ..disk };
    assert(emptied.files.insert(temp, text) =~= written.files);
    lemma_run_splits(job, disk, payload, 1, (2 * cards.len()) as nat);
    // the backup is taken, the store file replaced, the temporary file removed
    let end = run_save(ready, written, payload, 7);
    assert(end.0.stage is Finished && end.1.files =~= disk.files.insert(
        backup,
        text_at(disk, target),
    ).insert(target, text).remove(temp) && !end.1.dirs.contains(target) && (forall|
        dir: Seq<char>,
    |
        disk.dirs.contains(dir) ==> end.1.dirs.contains(dir))) by {
        reveal_with_fuel(run_save, 8);
    }
    lemma_run_splits(job, disk, payload, (1 + 2 * cards.len()) as nat, 7);
}

/// The backups directory is not the temporary file.
proof fn lemma_backups_is_no_temp(target: Seq<char>)
    ensures
        backups_path(target) != temp_path(target),
{
    reveal_strlit(".temp");
    reveal_strlit("backups");
    lemma_directory_len(target);
    let d = directory_len(target) as int;
    let backups = backups_path(target);
    let temp = temp_path(target);
    assert(temp.len() == target.len() + 5);
    if backups == temp {
        assert(temp[d + 6] == 'p');
    }
}

/// Saving twice in a row, with the cards unchanged, leaves two backups and
/// the store file as the first save wrote it. The second backup holds what
/// the first save wrote, the first what was there before.
pub proof fn lemma_saving_twice(
    disk: Disk,
    target: Seq<char>,
    first: Seq<char>,
    second: Seq<char>,
    cards: Seq<CardView>,
    payload: spec_fn(CardView) -> Seq<char>,
)
    requires
        !disk.dirs.contains(target),
        backups_path(target) != target,
        first != second,
    ensures
        ({
            let once = saved(disk, target, first, cards, payload);
            let twice = saved(once, target, second, cards, payload);
            &&& once.files.contains_key(target)
            &&& twice.files.contains_key(target)
            &&& twice.files[target] == once.files[target]
            &&& twice.files.contains_key(backup_path(target, first))
            &&& twice.files[backup_path(target, first)] == text_at(disk, target)
            &&& twice.files.contains_key(backup_path(target, second))
            &&& twice.files[backup_path(target, second)] == once.files[target]
        }),
{
    let once = saved(disk, target, first, cards, payload);
    lemma_save_completes(disk, target, first, cards, payload);
    lemma_save_completes(once, target, second, cards, payload);
    lemma_paths_differ(target, first, second);
    lemma_paths_differ(target, second, first);
}

/// Saving and loading gives the cards back: the text that a save leaves in
/// the store file holds one record per card, and the cards decoded from
/// these records, stored in turn, are the cards that were saved, in their
/// order.
///
/// This holds where the headwords are distinct, as they are in a store,
/// where every record is well framed, and where `decode` undoes `payload`
/// on the cards.
pub proof fn lemma_save_then_load(
    disk: Disk,
    target: Seq<char>,
    stamp: Seq<char>,
    cards: Seq<CardView>,
    payload: spec_fn(CardView) -> Seq<char>,
    decode: spec_fn(Seq<char>) -> CardView,
)
    requires
        !disk.dirs.contains(target),
        backups_path(target) != target,
        distinct_keys(cards),
        forall|i: int|
            0 <= i < cards.len() ==> well_framed(
                RecordView { key: (#[trigger] cards[i]).character, payload: payload(cards[i]) },
            ) && decode(payload(cards[i])) == cards[i],
    ensures
        ({
            let text = saved(disk, target, stamp, cards, payload).files[target];
            let records = records_of_text(text);
            &&& records == saved_records(cards, payload)
            &&& put_all(
                Seq::empty(),
                Seq::new(records.len(), |i: int| decode(records[i].payload)),
            ) == cards
        }),
{
    let records = saved_records(cards, payload);
    lemma_save_completes(disk, target, stamp, cards, payload);
    lemma_paths_differ(target, stamp, stamp);
    lemma_round_trip(records);
    assert(Seq::new(records.len(), |i: int| decode(records[i].payload)) =~= cards);
    lemma_put_all_fresh(cards);
}

} // verus!
