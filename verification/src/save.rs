//! The crash-safe save of the store, as a state machine.
//!
//! A save never rewrites the store file in place. It writes the records to
//! a temporary sibling file, copies the store file as it stands into the
//! backups directory under the name of the moment, copies the temporary
//! file over the store file, and removes the temporary file. The backup is
//! taken before the store file is touched.
//!
//! The machine decides; its driver performs each [`SaveAction`] on the file
//! system, encodes each card it is asked to, and reports back with a
//! [`SaveEvent`]. A failing action ends the save at once: nothing is rolled
//! back.

use crate::card::{Card, CardView};
use crate::error::{DBError, DBErrorKind};
use crate::records::{line_of, record_line, RecordView};
use crate::store::{card_views, Store};
use crate::text::{chars_of, substring};
use vstd::prelude::*;

verus! {

/// What the driver is to do next.
#[derive(Debug)]
pub enum SaveAction {
    /// Create the file, empty, or empty it if it exists.
    Create(String),
    /// Encode the card and report the payload.
    Encode(Card),
    /// Write the text at the end of the file.
    Append(String, String),
    /// Report whether the path exists.
    Probe(String),
    /// Create the directory.
    CreateDir(String),
    /// Copy the first file over the second.
    Copy(String, String),
    /// Remove the file.
    Remove(String),
    /// The save is complete.
    Done,
    /// The save has failed.
    Fail(DBError),
}

/// The mathematical value of a [`SaveAction`].
pub enum ActionView {
    Create(Seq<char>),
    Encode(CardView),
    Append(Seq<char>, Seq<char>),
    Probe(Seq<char>),
    CreateDir(Seq<char>),
    Copy(Seq<char>, Seq<char>),
    Remove(Seq<char>),
    Done,
    Fail(DBErrorKind, Seq<char>),
}

impl View for SaveAction {
    type V = ActionView;

    open spec fn view(&self) -> ActionView {
        match self {
            SaveAction::Create(path) => ActionView::Create(path@),
            SaveAction::Encode(card) => ActionView::Encode(card@),
            SaveAction::Append(path, text) => ActionView::Append(path@, text@),
            SaveAction::Probe(path) => ActionView::Probe(path@),
            SaveAction::CreateDir(path) => ActionView::CreateDir(path@),
            SaveAction::Copy(from, to) => ActionView::Copy(from@, to@),
            SaveAction::Remove(path) => ActionView::Remove(path@),
            SaveAction::Done => ActionView::Done,
            SaveAction::Fail(e) => ActionView::Fail(e.kind, e.message@),
        }
    }
}

/// What the driver reports after an action.
#[derive(Debug)]
pub enum SaveEvent {
    /// The action was performed.
    Performed,
    /// The answer to a probe.
    Found(bool),
    /// The payload of the card, or the description of why it has none.
    Encoded(Result<String, String>),
}

/// The mathematical value of a [`SaveEvent`].
pub enum EventView {
    Performed,
    Found(bool),
    Encoded(Result<Seq<char>, Seq<char>>),
}

impl View for SaveEvent {
    type V = EventView;

    open spec fn view(&self) -> EventView {
        match self {
            SaveEvent::Performed => EventView::Performed,
            SaveEvent::Found(found) => EventView::Found(*found),
            SaveEvent::Encoded(Ok(payload)) => EventView::Encoded(Ok(payload@)),
            SaveEvent::Encoded(Err(detail)) => EventView::Encoded(Err(detail@)),
        }
    }
}

/// Where a save stands: the action that comes next.
pub enum StageView {
    /// Empty the temporary file.
    Truncate,
    /// Encode the card at this place of the store.
    Encode(nat),
    /// Write this line, which holds the card at this place, to the temporary
    /// file.
    Write(nat, Seq<char>),
    /// Ask whether the backups directory exists.
    ProbeBackups,
    /// Create the backups directory.
    CreateBackups,
    /// Ask whether the store file exists.
    ProbeTarget,
    /// Create the store file, empty.
    CreateTarget,
    /// Copy the store file into the backups directory.
    Backup,
    /// Copy the temporary file over the store file.
    Commit,
    /// Remove the temporary file.
    Cleanup,
    /// Nothing is left to do.
    Finished,
    /// A card could not be encoded.
    Failed(Seq<char>),
}

enum Stage {
    Truncate,
    Encode(usize),
    Write(usize, String),
    ProbeBackups,
    CreateBackups,
    ProbeTarget,
    CreateTarget,
    Backup,
    Commit,
    Cleanup,
    Finished,
    Failed(String),
}

impl View for Stage {
    type V = StageView;

    closed spec fn view(&self) -> StageView {
        match self {
            Stage::Truncate => StageView::Truncate,
            Stage::Encode(at) => StageView::Encode(*at as nat),
            Stage::Write(at, line) => StageView::Write(*at as nat, line@),
            Stage::ProbeBackups => StageView::ProbeBackups,
            Stage::CreateBackups => StageView::CreateBackups,
            Stage::ProbeTarget => StageView::ProbeTarget,
            Stage::CreateTarget => StageView::CreateTarget,
            Stage::Backup => StageView::Backup,
            Stage::Commit => StageView::Commit,
            Stage::Cleanup => StageView::Cleanup,
            Stage::Finished => StageView::Finished,
            Stage::Failed(detail) => StageView::Failed(detail@),
        }
    }
}

/// The mathematical value of a [`SaveJob`].
pub struct JobView {
    /// The path of the store file.
    pub target: Seq<char>,
    /// The name of the backup: the moment of the save.
    pub stamp: Seq<char>,
    /// The cards to save, in order.
    pub cards: Seq<CardView>,
    /// Where the save stands.
    pub stage: StageView,
}

/// The length of the part of `path` that names its directory: up to and
/// including the last `/`, or nothing where it has none.
pub open spec fn directory_len(path: Seq<char>) -> nat
    decreases path.len(),
{
    if path.len() == 0 {
        0
    } else if path.last() == '/' {
        path.len()
    } else {
        directory_len(path.drop_last())
    }
}

/// The path of the temporary file beside the store file.
pub open spec fn temp_path(target: Seq<char>) -> Seq<char> {
    target + ".temp"@
}

/// The path of the backups directory beside the store file.
pub open spec fn backups_path(target: Seq<char>) -> Seq<char> {
    target.subrange(0, directory_len(target) as int) + "backups"@
}

/// The path of the backup taken at the moment `stamp`.
pub open spec fn backup_path(target: Seq<char>, stamp: Seq<char>) -> Seq<char> {
    backups_path(target) + "/"@ + stamp
}

/// The stage at which the cards from place `at` on are written: the next
/// card is encoded, or, when none is left, the backup begins.
pub open spec fn writing_from(cards: Seq<CardView>, at: nat) -> StageView {
    if at < cards.len() {
        StageView::Encode(at)
    } else {
        StageView::ProbeBackups
    }
}

/// The action that a job asks for.
pub open spec fn action_of(job: JobView) -> ActionView {
    match job.stage {
        StageView::Truncate => ActionView::Create(temp_path(job.target)),
        StageView::Encode(at) => ActionView::Encode(job.cards[at as int]),
        StageView::Write(at, line) => ActionView::Append(temp_path(job.target), line),
        StageView::ProbeBackups => ActionView::Probe(backups_path(job.target)),
        StageView::CreateBackups => ActionView::CreateDir(backups_path(job.target)),
        StageView::ProbeTarget => ActionView::Probe(job.target),
        StageView::CreateTarget => ActionView::Create(job.target),
        StageView::Backup => ActionView::Copy(job.target, backup_path(job.target, job.stamp)),
        StageView::Commit => ActionView::Copy(temp_path(job.target), job.target),
        StageView::Cleanup => ActionView::Remove(temp_path(job.target)),
        StageView::Finished => ActionView::Done,
        StageView::Failed(detail) => ActionView::Fail(
            DBErrorKind::Serialization,
            "Serde error: "@ + detail,
        ),
    }
}

/// The stage that follows `stage` once the driver has reported `event`.
///
/// A probe waits for its answer and an encoding for its payload; any other
/// event leaves such a stage as it is. The other stages go on whatever the
/// event.
pub open spec fn stage_after(cards: Seq<CardView>, stage: StageView, event: EventView) -> StageView {
    match stage {
        StageView::Truncate => writing_from(cards, 0),
        StageView::Encode(at) => match event {
            EventView::Encoded(Ok(payload)) => StageView::Write(
                at,
                line_of(RecordView { key: cards[at as int].character, payload }),
            ),
            EventView::Encoded(Err(detail)) => StageView::Failed(detail),
            _ => stage,
        },
        StageView::Write(at, line) => writing_from(cards, at + 1),
        StageView::ProbeBackups => match event {
            EventView::Found(true) => StageView::ProbeTarget,
            EventView::Found(false) => StageView::CreateBackups,
            _ => stage,
        },
        StageView::CreateBackups => StageView::ProbeTarget,
        StageView::ProbeTarget => match event {
            EventView::Found(true) => StageView::Backup,
            EventView::Found(false) => StageView::CreateTarget,
            _ => stage,
        },
        StageView::CreateTarget => StageView::Backup,
        StageView::Backup => StageView::Commit,
        StageView::Commit => StageView::Cleanup,
        StageView::Cleanup => StageView::Finished,
        StageView::Finished => StageView::Finished,
        StageView::Failed(detail) => stage,
    }
}

/// Whether a stage of a job over `cards` speaks of a card that exists.
pub open spec fn stage_fits(cards: Seq<CardView>, stage: StageView) -> bool {
    match stage {
        StageView::Encode(at) => at < cards.len(),
        StageView::Write(at, line) => at < cards.len(),
        _ => true,
    }
}

/// The backup comes first: the temporary file is copied over the store file
/// only at the stage that follows the backup, and at no other stage does an
/// action copy anything over the store file.
pub proof fn lemma_backup_precedes_commit(job: JobView, event: EventView)
    ensures
        stage_after(job.cards, job.stage, event) is Commit ==> job.stage is Backup,
        job.stage is Backup ==> action_of(job) == ActionView::Copy(
            job.target,
            backup_path(job.target, job.stamp),
        ),
        action_of(job) matches ActionView::Copy(from, to) ==> job.stage is Backup
            || job.stage is Commit,
{
}

/// A card that cannot be encoded ends the save before the store file or
/// its backups are touched: the job fails with the description, and stays
/// failed.
pub proof fn lemma_encoding_failure_ends_save(job: JobView, detail: Seq<char>, event: EventView)
    requires
        job.stage is Encode,
    ensures
        stage_after(job.cards, job.stage, EventView::Encoded(Err(detail))) == StageView::Failed(
            detail,
        ),
        stage_after(job.cards, StageView::Failed(detail), event) == StageView::Failed(detail),
        action_of(JobView { stage: StageView::Failed(detail), ..job }) == ActionView::Fail(
            DBErrorKind::Serialization,
            "Serde error: "@ + detail,
        ),
{
}

/// One save in progress.
pub struct SaveJob {
    target: String,
    stamp: String,
    cards: Vec<Card>,
    stage: Stage,
}

impl View for SaveJob {
    type V = JobView;

    closed spec fn view(&self) -> JobView {
        JobView {
            target: self.target@,
            stamp: self.stamp@,
            cards: card_views(self.cards@),
            stage: self.stage@,
        }
    }
}

/// The text `first` followed by `second`.
fn joined(first: &str, second: &str) -> (text: String)
    ensures
        text@ == first@ + second@,
{
    let mut text = String::from_str(first);
    text.append(second);
    text
}

/// The path of the temporary file beside the store file `target`.
pub fn temp_path_of(target: &str) -> (path: String)
    ensures
        path@ == temp_path(target@),
{
    joined(target, ".temp")
}

/// The path of the backups directory beside the store file `target`.
pub fn backups_path_of(target: &str) -> (path: String)
    ensures
        path@ == backups_path(target@),
{
    let chars = chars_of(target);
    let mut end: usize = chars.len();
    assert(chars@.subrange(0, chars.len() as int) =~= chars@);
    while end > 0 && chars[end - 1] != '/'
        invariant
            end <= chars.len(),
            directory_len(chars@) == directory_len(chars@.subrange(0, end as int)),
        decreases end,
    {
        assert(chars@.subrange(0, end as int).drop_last() =~= chars@.subrange(0, end - 1));
        end = end - 1;
    }
    let directory = substring(&chars, 0, end);
    joined(directory.as_str(), "backups")
}

/// The path of the backup of the store file `target` taken at `stamp`.
pub fn backup_path_of(target: &str, stamp: &str) -> (path: String)
    ensures
        path@ == backup_path(target@, stamp@),
{
    let directory = backups_path_of(target);
    let base = joined(directory.as_str(), "/");
    joined(base.as_str(), stamp)
}

/// Prepares the save of `db` to the store file `path`; `stamp` names the
/// moment and with it the backup. Nothing has happened yet: the job begins
/// by emptying the temporary file.
pub fn save_db(path: &str, stamp: &str, db: &Store) -> (job: SaveJob)
    ensures
        job@ == (JobView {
            target: path@,
            stamp: stamp@,
            cards: db.cards(),
            stage: StageView::Truncate,
        }),
{
    let mut cards: Vec<Card> = Vec::new();
    let n = db.len();
    let mut i: usize = 0;
    while i < n
        invariant
            i <= n == db.cards().len(),
            card_views(cards@) == db.cards().take(i as int),
        decreases n - i,
    {
        let copy = db.card_at(i).clone();
        cards.push(copy);
        assert(db.cards().take(i + 1) =~= db.cards().take(i as int).push(copy@));
        i += 1;
    }
    assert(db.cards().take(n as int) =~= db.cards());
    SaveJob { target: path.to_owned(), stamp: stamp.to_owned(), cards, stage: Stage::Truncate }
}

impl SaveJob {
    #[verifier::type_invariant]
    spec fn well_formed(self) -> bool {
        stage_fits(card_views(self.cards@), self.stage@)
    }

    /// Whether the save is over: complete, or failed.
    pub fn is_over(&self) -> (over: bool)
        ensures
            over == (self@.stage is Finished || self@.stage is Failed),
            stage_fits(self@.cards, self@.stage),
    {
        proof {
            use_type_invariant(self);
        }
        match &self.stage {
            Stage::Finished => true,
            Stage::Failed(_) => true,
            _ => false,
        }
    }

    /// The action that comes next.
    pub fn action(&self) -> (action: SaveAction)
        ensures
            action@ == action_of(self@),
    {
        proof {
            use_type_invariant(self);
        }
        match &self.stage {
            Stage::Truncate => SaveAction::Create(temp_path_of(self.target.as_str())),
            Stage::Encode(at) => SaveAction::Encode(self.cards[*at].clone()),
            Stage::Write(_, line) => SaveAction::Append(
                temp_path_of(self.target.as_str()),
                line.clone(),
            ),
            Stage::ProbeBackups => SaveAction::Probe(backups_path_of(self.target.as_str())),
            Stage::CreateBackups => SaveAction::CreateDir(backups_path_of(self.target.as_str())),
            Stage::ProbeTarget => SaveAction::Probe(self.target.clone()),
            Stage::CreateTarget => SaveAction::Create(self.target.clone()),
            Stage::Backup => SaveAction::Copy(
                self.target.clone(),
                backup_path_of(self.target.as_str(), self.stamp.as_str()),
            ),
            Stage::Commit => SaveAction::Copy(
                temp_path_of(self.target.as_str()),
                self.target.clone(),
            ),
            Stage::Cleanup => SaveAction::Remove(temp_path_of(self.target.as_str())),
            Stage::Finished => SaveAction::Done,
            Stage::Failed(detail) => SaveAction::Fail(DBError::serialization(detail.as_str())),
        }
    }

    /// The stage at which the cards from place `at` on are written.
    fn writing_stage(&self, at: usize) -> (stage: Stage)
        ensures
            stage@ == writing_from(self@.cards, at as nat),
    {
        if at < self.cards.len() {
            Stage::Encode(at)
        } else {
            Stage::ProbeBackups
        }
    }

    /// Takes the driver's report on the action and moves to the next stage.
    pub fn advance(&mut self, event: SaveEvent)
        ensures
            final(self)@ == (JobView {
                stage: stage_after(old(self)@.cards, old(self)@.stage, event@),
                ..old(self)@
            }),
    {
        proof {
            use_type_invariant(&*self);
        }
        let next = match &self.stage {
            Stage::Truncate => self.writing_stage(0),
            Stage::Encode(at) => match event {
                SaveEvent::Encoded(Ok(payload)) => Stage::Write(
                    *at,
                    record_line(self.cards[*at].character.as_str(), payload.as_str()),
                ),
                SaveEvent::Encoded(Err(detail)) => Stage::Failed(detail),
                _ => Stage::Encode(*at),
            },
            Stage::Write(at, _) => {
                assert(*at < self.cards.len());
                self.writing_stage(*at + 1)
            },
            Stage::ProbeBackups => match event {
                SaveEvent::Found(true) => Stage::ProbeTarget,
                SaveEvent::Found(false) => Stage::CreateBackups,
                _ => Stage::ProbeBackups,
            },
            Stage::CreateBackups => Stage::ProbeTarget,
            Stage::ProbeTarget => match event {
                SaveEvent::Found(true) => Stage::Backup,
                SaveEvent::Found(false) => Stage::CreateTarget,
                _ => Stage::ProbeTarget,
            },
            Stage::CreateTarget => Stage::Backup,
            Stage::Backup => Stage::Commit,
            Stage::Commit => Stage::Cleanup,
            Stage::Cleanup => Stage::Finished,
            Stage::Finished => Stage::Finished,
            Stage::Failed(detail) => Stage::Failed(detail.clone()),
        };
        self.stage = next;
    }
}

} // verus!
