//! The job pipeline: what the engine does with one submitted job, as a state
//! machine.
//!
//! A job runs through counting the files, naming the archive, staging,
//! archiving, discarding a failed or canceled archive, hashing (on request),
//! delivering, and removing the source (on request). [`JobRun::advance`]
//! takes what came of the last action and returns the events to report and
//! the next action; the caller performs the actions (file system, clock,
//! network) and reports every event to the interface.

use vstd::prelude::*;

use crate::error::{describes, CoreError};
use crate::model::{job_id_text, JobId, JobSpec, JobStatus};
use crate::naming::{archive_name, spec_archive_name, Timestamp};
use crate::text::push_str;

verus! {

/// A command to the engine (for callers that talk to it over a channel).
#[derive(Debug)]
pub enum Command {
    Submit(JobSpec),
    Cancel(JobId),
    Shutdown,
}

/// An event for the interface.
#[allow(inconsistent_fields)]
#[derive(Debug)]
pub enum Event {
    Accepted { id: JobId, source: String },
    Progress { id: JobId, status: JobStatus },
    Log { id: Option<JobId>, line: String },
    Finished { id: JobId, status: JobStatus },
}

/// Where a job stands.
#[derive(Debug)]
pub enum Stage {
    /// Counting the files of the source.
    Counting,
    /// Reading the clock to name the archive.
    Naming { total: u64 },
    /// Obtaining the staging path for the archive `name`.
    Staging { name: String, total: u64 },
    /// Packing the source into `staged`; `packed` files are done so far.
    Archiving { name: String, staged: String, total: u64, packed: u64 },
    /// Removing the staged archive after packing failed with `error` (or was
    /// canceled).
    Discarding { staged: String, error: CoreError },
    /// Computing the SHA-256 of the staged archive.
    Hashing { name: String, staged: String },
    /// Moving the staged archive to the destination under `name`.
    Delivering { name: String, staged: String, sha256: Option<String> },
    /// Removing the source after delivery to `output`.
    RemovingSource { output: String, sha256: Option<String> },
    /// The job is over; its final event has been reported.
    Finished,
}

/// What came of the last action.
#[derive(Debug)]
pub enum Outcome {
    Counted(Result<u64, CoreError>),
    Clock(Timestamp),
    Staged(Result<String, CoreError>),
    /// The packing result, and whether the job's cancel flag was set when
    /// packing ended.
    Archived { result: Result<u64, CoreError>, canceled: bool },
    /// One more file of the packing under way is done (reported while the
    /// `Archive` action runs).
    FilePacked,
    Discarded,
    Hashed(Result<String, CoreError>),
    Delivered(Result<String, CoreError>),
    SourceRemoved(Result<(), CoreError>),
}

/// The next thing for the caller to do.
#[derive(Debug)]
pub enum Action {
    /// Count the files of `source`; answer with `Counted`.
    CountFiles { source: String },
    /// Read the local clock; answer with `Clock`.
    ReadClock,
    /// Obtain the staging path for the archive `name` from the destination;
    /// answer with `Staged`.
    Stage { name: String },
    /// Pack `source` into `staged` at `level`, checking the cancel flag;
    /// report each file packed with `FilePacked` while it runs (the run counts
    /// them out of `total`), and answer with `Archived` when it ends.
    Archive { source: String, staged: String, level: u32, total: u64 },
    /// Remove the file `staged` (failures ignored); answer with `Discarded`.
    Discard { staged: String },
    /// Compute the SHA-256 of `staged`; answer with `Hashed`.
    Hash { staged: String },
    /// Move `staged` to the destination under `name`; answer with
    /// `Delivered`.
    Deliver { staged: String, name: String },
    /// Remove the directory `source`; answer with `SourceRemoved`.
    RemoveSource { source: String },
    /// Nothing new to do: the action under way goes on.
    Continue,
    /// Nothing more: the job is over.
    Stop,
}

/// One job on its way through the pipeline.
pub struct JobRun {
    pub id: JobId,
    pub spec: JobSpec,
    pub level: u32,
    pub stage: Stage,
}

/// The action a run waits on in its current stage.
pub open spec fn pending_action(r: JobRun) -> Action {
    match r.stage {
        Stage::Counting => Action::CountFiles { source: r.spec.source },
        Stage::Naming { .. } => Action::ReadClock,
        Stage::Staging { name, .. } => Action::Stage { name },
        Stage::Archiving { staged, total, .. } => Action::Archive {
            source: r.spec.source,
            staged,
            level: r.level,
            total,
        },
        Stage::Discarding { staged, .. } => Action::Discard { staged },
        Stage::Hashing { staged, .. } => Action::Hash { staged },
        Stage::Delivering { name, staged, .. } => Action::Deliver { staged, name },
        Stage::RemovingSource { .. } => Action::RemoveSource { source: r.spec.source },
        Stage::Finished => Action::Stop,
    }
}

/// The events that end job `id` with the error `e`: a canceled job just
/// finishes as canceled; any other failure is logged (`#<id> ошибка: <text>`)
/// and finishes as failed with the error's text.
pub open spec fn failure_events(id: JobId, e: CoreError, events: Seq<Event>) -> bool {
    if e is Canceled {
        events == seq![Event::Finished { id, status: JobStatus::Canceled }]
    } else {
        &&& events.len() == 2
        &&& events[0] matches Event::Log { id: lid, line } && lid == Some(id)
        &&& events[1] matches Event::Finished { id: fid, status: JobStatus::Failed { error } } && fid
            == id
        &&& describes(e, events[1]->Finished_status->Failed_error@)
        &&& events[0]->Log_line@ == job_id_text(id) + " ошибка: "@
            + events[1]->Finished_status->Failed_error@
    }
}

/// The events that end job `id` delivered to `output`: a log line
/// (`#<id> готово: <output>`), then the job finishes as done.
pub open spec fn done_events(
    id: JobId,
    output: String,
    sha256: Option<String>,
    events: Seq<Event>,
) -> bool {
    &&& events.len() == 2
    &&& events[0] matches Event::Log { id: lid, line } && lid == Some(id) && line@ == job_id_text(id)
        + " готово: "@ + output@
    &&& events[1] == Event::Finished { id, status: JobStatus::Done { output, sha256 } }
}

/// The run `r2` finished with the error `e`.
pub open spec fn ends_failed(r: JobRun, e: CoreError, r2: JobRun, ev: Seq<Event>, a: Action) -> bool {
    &&& r2.stage is Finished
    &&& failure_events(r.id, e, ev)
    &&& a is Stop
}

/// The run stays where it is: the outcome does not answer its pending action.
pub open spec fn stays(r: JobRun, r2: JobRun, ev: Seq<Event>, a: Action) -> bool {
    &&& r2.stage == r.stage
    &&& ev.len() == 0
    &&& a == pending_action(r)
}

/// The step from `r` on outcome `o`: new run `r2`, the events `ev` to report
/// in order, and the next action `a`.
pub open spec fn transition(r: JobRun, o: Outcome, r2: JobRun, ev: Seq<Event>, a: Action) -> bool {
    &&& r2.id == r.id
    &&& r2.spec == r.spec
    &&& r2.level == r.level
    &&& match r.stage {
        Stage::Counting => match o {
            Outcome::Counted(Ok(total)) => {
                &&& r2.stage == Stage::Naming { total }
                &&& ev == seq![
                    Event::Progress { id: r.id, status: JobStatus::Archiving { done: 0, total } },
                ]
                &&& a == Action::ReadClock
            },
            Outcome::Counted(Err(e)) => ends_failed(r, e, r2, ev, a),
            _ => stays(r, r2, ev, a),
        },
        Stage::Naming { total } => match o {
            Outcome::Clock(now) => {
                &&& r2.stage matches Stage::Staging { name, total: t } && t == total && name@
                    == spec_archive_name(r.spec.source@, now)
                &&& ev.len() == 0
                &&& a == Action::Stage { name: r2.stage->Staging_name }
            },
            _ => stays(r, r2, ev, a),
        },
        Stage::Staging { name, total } => match o {
            Outcome::Staged(Ok(staged)) => {
                &&& r2.stage == Stage::Archiving { name, staged, total, packed: 0 }
                &&& ev.len() == 0
                &&& a == Action::Archive { source: r.spec.source, staged, level: r.level, total }
            },
            Outcome::Staged(Err(e)) => ends_failed(r, e, r2, ev, a),
            _ => stays(r, r2, ev, a),
        },
        Stage::Archiving { name, staged, total, packed } => match o {
            Outcome::FilePacked => if packed < u64::MAX {
                &&& r2.stage == Stage::Archiving { name, staged, total, packed: (packed + 1) as u64 }
                &&& ev == seq![
                    Event::Progress {
                        id: r.id,
                        status: JobStatus::Archiving { done: (packed + 1) as u64, total },
                    },
                ]
                &&& a is Continue
            } else {
                &&& r2.stage == r.stage
                &&& ev.len() == 0
                &&& a is Continue
            },
            Outcome::Archived { result: Ok(_), canceled: false } => if r.spec.checksum {
                &&& r2.stage == Stage::Hashing { name, staged }
                &&& ev.len() == 0
                &&& a == Action::Hash { staged }
            } else {
                &&& r2.stage == Stage::Delivering { name, staged, sha256: None }
                &&& ev == seq![Event::Progress { id: r.id, status: JobStatus::Transferring }]
                &&& a == Action::Deliver { staged, name }
            },
            Outcome::Archived { result: Ok(_), canceled: true } => {
                &&& r2.stage == Stage::Discarding { staged, error: CoreError::Canceled }
                &&& ev.len() == 0
                &&& a == Action::Discard { staged }
            },
            Outcome::Archived { result: Err(e), .. } => {
                &&& r2.stage == Stage::Discarding { staged, error: e }
                &&& ev.len() == 0
                &&& a == Action::Discard { staged }
            },
            _ => stays(r, r2, ev, a),
        },
        Stage::Discarding { error, .. } => match o {
            Outcome::Discarded => ends_failed(r, error, r2, ev, a),
            _ => stays(r, r2, ev, a),
        },
        Stage::Hashing { name, staged } => match o {
            Outcome::Hashed(Ok(h)) => {
                &&& r2.stage == Stage::Delivering { name, staged, sha256: Some(h) }
                &&& ev == seq![Event::Progress { id: r.id, status: JobStatus::Transferring }]
                &&& a == Action::Deliver { staged, name }
            },
            Outcome::Hashed(Err(e)) => ends_failed(r, e, r2, ev, a),
            _ => stays(r, r2, ev, a),
        },
        Stage::Delivering { sha256, .. } => match o {
            Outcome::Delivered(Ok(output)) => if r.spec.remove_source {
                &&& r2.stage == Stage::RemovingSource { output, sha256 }
                &&& ev.len() == 0
                &&& a == Action::RemoveSource { source: r.spec.source }
            } else {
                &&& r2.stage is Finished
                &&& done_events(r.id, output, sha256, ev)
                &&& a is Stop
            },
            Outcome::Delivered(Err(e)) => ends_failed(r, e, r2, ev, a),
            _ => stays(r, r2, ev, a),
        },
        Stage::RemovingSource { output, sha256 } => match o {
            Outcome::SourceRemoved(Ok(())) => {
                &&& r2.stage is Finished
                &&& done_events(r.id, output, sha256, ev)
                &&& a is Stop
            },
            Outcome::SourceRemoved(Err(e)) => ends_failed(r, e, r2, ev, a),
            _ => stays(r, r2, ev, a),
        },
        Stage::Finished => {
            &&& r2.stage is Finished
            &&& ev.len() == 0
            &&& a is Stop
        },
    }
}

/// The events that end a job with `e`, in order.
fn failure(id: JobId, e: CoreError) -> (ev: Vec<Event>)
    ensures
        failure_events(id, e, ev@),
{
    let mut ev: Vec<Event> = Vec::new();
    if let CoreError::Canceled = e {
        ev.push(Event::Finished { id, status: JobStatus::Canceled });
        assert(ev@ =~= seq![Event::Finished { id, status: JobStatus::Canceled }]);
    } else {
        let error = e.message();
        let mut line = id.text();
        push_str(&mut line, " ошибка: ");
        push_str(&mut line, error.as_str());
        ev.push(Event::Log { id: Some(id), line });
        ev.push(Event::Finished { id, status: JobStatus::Failed { error } });
    }
    ev
}

/// The events that end a job delivered to `output`, in order.
fn done(id: JobId, output: String, sha256: Option<String>) -> (ev: Vec<Event>)
    ensures
        done_events(id, output, sha256, ev@),
{
    let mut ev: Vec<Event> = Vec::new();
    let mut line = id.text();
    push_str(&mut line, " готово: ");
    push_str(&mut line, output.as_str());
    ev.push(Event::Log { id: Some(id), line });
    ev.push(Event::Finished { id, status: JobStatus::Done { output, sha256 } });
    ev
}

/// A single event.
fn one(e: Event) -> (ev: Vec<Event>)
    ensures
        ev@ == seq![e],
{
    let mut ev: Vec<Event> = Vec::new();
    ev.push(e);
    assert(ev@ =~= seq![e]);
    ev
}

impl JobRun {
    /// A run for job `id` that starts by counting the files of the source.
    pub fn start(id: JobId, spec: JobSpec, level: u32) -> (res: (JobRun, Action))
        ensures
            res.0.id == id,
            res.0.spec == spec,
            res.0.level == level,
            res.0.stage is Counting,
            res.1 == pending_action(res.0),
            consistent(res.0),
    {
        let source = spec.source.clone();
        (JobRun { id, spec, level, stage: Stage::Counting }, Action::CountFiles { source })
    }

    /// The action this run waits on.
    pub fn pending(&self) -> (a: Action)
        ensures
            a == pending_action(*self),
    {
        match &self.stage {
            Stage::Counting => Action::CountFiles { source: self.spec.source.clone() },
            Stage::Naming { .. } => Action::ReadClock,
            Stage::Staging { name, .. } => Action::Stage { name: name.clone() },
            Stage::Archiving { staged, total, .. } => Action::Archive {
                source: self.spec.source.clone(),
                staged: staged.clone(),
                level: self.level,
                total: *total,
            },
            Stage::Discarding { staged, .. } => Action::Discard { staged: staged.clone() },
            Stage::Hashing { staged, .. } => Action::Hash { staged: staged.clone() },
            Stage::Delivering { name, staged, .. } => Action::Deliver {
                staged: staged.clone(),
                name: name.clone(),
            },
            Stage::RemovingSource { .. } => Action::RemoveSource {
                source: self.spec.source.clone(),
            },
            Stage::Finished => Action::Stop,
        }
    }

    /// Takes what came of the last action; returns the run's next state, the
    /// events to report in order, and the next action.
    pub fn advance(self, outcome: Outcome) -> (res: (JobRun, Vec<Event>, Action))
        ensures
            transition(self, outcome, res.0, res.1@, res.2),
    {
        let id = self.id;
        let spec = self.spec;
        let level = self.level;
        match self.stage {
            Stage::Counting => match outcome {
                Outcome::Counted(Ok(total)) => {
                    let ev = one(
                        Event::Progress { id, status: JobStatus::Archiving { done: 0, total } },
                    );
                    (JobRun { id, spec, level, stage: Stage::Naming { total } }, ev, Action::ReadClock)
                },
                Outcome::Counted(Err(e)) => {
                    (JobRun { id, spec, level, stage: Stage::Finished }, failure(id, e), Action::Stop)
                },
                _ => {
                    let r = JobRun { id, spec, level, stage: Stage::Counting };
                    let a = r.pending();
                    (r, Vec::new(), a)
                },
            },
            Stage::Naming { total } => match outcome {
                Outcome::Clock(now) => {
                    let name = archive_name(spec.source.as_str(), &now);
                    let a = Action::Stage { name: name.clone() };
                    (JobRun { id, spec, level, stage: Stage::Staging { name, total } }, Vec::new(), a)
                },
                _ => {
                    let r = JobRun { id, spec, level, stage: Stage::Naming { total } };
                    let a = r.pending();
                    (r, Vec::new(), a)
                },
            },
            Stage::Staging { name, total } => match outcome {
                Outcome::Staged(Ok(staged)) => {
                    let a = Action::Archive {
                        source: spec.source.clone(),
                        staged: staged.clone(),
                        level,
                        total,
                    };
                    (
                        JobRun {
                            id,
                            spec,
                            level,
                            stage: Stage::Archiving { name, staged, total, packed: 0 },
                        },
                        Vec::new(),
                        a,
                    )
                },
                Outcome::Staged(Err(e)) => {
                    (JobRun { id, spec, level, stage: Stage::Finished }, failure(id, e), Action::Stop)
                },
                _ => {
                    let r = JobRun { id, spec, level, stage: Stage::Staging { name, total } };
                    let a = r.pending();
                    (r, Vec::new(), a)
                },
            },
            Stage::Archiving { name, staged, total, packed } => match outcome {
                Outcome::FilePacked => {
                    if packed < u64::MAX {
                        let ev = one(file_packed_event(id, packed, total));
                        (
                            JobRun {
                                id,
                                spec,
                                level,
                                stage: Stage::Archiving { name, staged, total, packed: packed + 1 },
                            },
                            ev,
                            Action::Continue,
                        )
                    } else {
                        (
                            JobRun { id, spec, level, stage: Stage::Archiving { name, staged, total, packed } },
                            Vec::new(),
                            Action::Continue,
                        )
                    }
                },
                Outcome::Archived { result: Ok(_), canceled: false } => {
                    if spec.checksum {
                        let a = Action::Hash { staged: staged.clone() };
                        (JobRun { id, spec, level, stage: Stage::Hashing { name, staged } }, Vec::new(), a)
                    } else {
                        let a = Action::Deliver { staged: staged.clone(), name: name.clone() };
                        let ev = one(Event::Progress { id, status: JobStatus::Transferring });
                        (
                            JobRun {
                                id,
                                spec,
                                level,
                                stage: Stage::Delivering { name, staged, sha256: None },
                            },
                            ev,
                            a,
                        )
                    }
                },
                Outcome::Archived { result: Ok(_), canceled: true } => {
                    let a = Action::Discard { staged: staged.clone() };
                    (
                        JobRun {
                            id,
                            spec,
                            level,
                            stage: Stage::Discarding { staged, error: CoreError::Canceled },
                        },
                        Vec::new(),
                        a,
                    )
                },
                Outcome::Archived { result: Err(e), .. } => {
                    let a = Action::Discard { staged: staged.clone() };
                    (
                        JobRun { id, spec, level, stage: Stage::Discarding { staged, error: e } },
                        Vec::new(),
                        a,
                    )
                },
                _ => {
                    let r = JobRun {
                        id,
                        spec,
                        level,
                        stage: Stage::Archiving { name, staged, total, packed },
                    };
                    let a = r.pending();
                    (r, Vec::new(), a)
                },
            },
            Stage::Discarding { staged, error } => match outcome {
                Outcome::Discarded => {
                    (JobRun { id, spec, level, stage: Stage::Finished }, failure(id, error), Action::Stop)
                },
                _ => {
                    let r = JobRun { id, spec, level, stage: Stage::Discarding { staged, error } };
                    let a = r.pending();
                    (r, Vec::new(), a)
                },
            },
            Stage::Hashing { name, staged } => match outcome {
                Outcome::Hashed(Ok(h)) => {
                    let a = Action::Deliver { staged: staged.clone(), name: name.clone() };
                    let ev = one(Event::Progress { id, status: JobStatus::Transferring });
                    (
                        JobRun {
                            id,
                            spec,
                            level,
                            stage: Stage::Delivering { name, staged, sha256: Some(h) },
                        },
                        ev,
                        a,
                    )
                },
                Outcome::Hashed(Err(e)) => {
                    (JobRun { id, spec, level, stage: Stage::Finished }, failure(id, e), Action::Stop)
                },
                _ => {
                    let r = JobRun { id, spec, level, stage: Stage::Hashing { name, staged } };
                    let a = r.pending();
                    (r, Vec::new(), a)
                },
            },
            Stage::Delivering { name, staged, sha256 } => match outcome {
                Outcome::Delivered(Ok(output)) => {
                    if spec.remove_source {
                        let a = Action::RemoveSource { source: spec.source.clone() };
                        (
                            JobRun { id, spec, level, stage: Stage::RemovingSource { output, sha256 } },
                            Vec::new(),
                            a,
                        )
                    } else {
                        let ev = done(id, output, sha256);
                        (JobRun { id, spec, level, stage: Stage::Finished }, ev, Action::Stop)
                    }
                },
                Outcome::Delivered(Err(e)) => {
                    (JobRun { id, spec, level, stage: Stage::Finished }, failure(id, e), Action::Stop)
                },
                _ => {
                    let r = JobRun {
                        id,
                        spec,
                        level,
                        stage: Stage::Delivering { name, staged, sha256 },
                    };
                    let a = r.pending();
                    (r, Vec::new(), a)
                },
            },
            Stage::RemovingSource { output, sha256 } => match outcome {
                Outcome::SourceRemoved(Ok(())) => {
                    let ev = done(id, output, sha256);
                    (JobRun { id, spec, level, stage: Stage::Finished }, ev, Action::Stop)
                },
                Outcome::SourceRemoved(Err(e)) => {
                    (JobRun { id, spec, level, stage: Stage::Finished }, failure(id, e), Action::Stop)
                },
                _ => {
                    let r = JobRun { id, spec, level, stage: Stage::RemovingSource { output, sha256 } };
                    let a = r.pending();
                    (r, Vec::new(), a)
                },
            },
            Stage::Finished => (JobRun { id, spec, level, stage: Stage::Finished }, Vec::new(), Action::Stop),
        }
    }
}

/// The progress event reported while packing, when one more file has been
/// packed: `packed_before` files of `total` were packed before it, so the
/// event counts `packed_before + 1`. Over a packing of `total` files these
/// events count `1` to `total`, one per file.
pub fn file_packed_event(id: JobId, packed_before: u64, total: u64) -> (e: Event)
    requires
        packed_before < u64::MAX,
    ensures
        e == (Event::Progress {
            id,
            status: JobStatus::Archiving { done: (packed_before + 1) as u64, total },
        }),
{
    Event::Progress { id, status: JobStatus::Archiving { done: packed_before + 1, total } }
}

/// Whether `o` answers the action a run waits on in stage `st`.
pub open spec fn answers(st: Stage, o: Outcome) -> bool {
    match st {
        Stage::Counting => o is Counted,
        Stage::Naming { .. } => o is Clock,
        Stage::Staging { .. } => o is Staged,
        Stage::Archiving { .. } => o is Archived,
        Stage::Discarding { .. } => o is Discarded,
        Stage::Hashing { .. } => o is Hashed,
        Stage::Delivering { .. } => o is Delivered,
        Stage::RemovingSource { .. } => o is SourceRemoved,
        Stage::Finished => false,
    }
}

/// How many steps a run can still take at most.
pub open spec fn rank(st: Stage) -> nat {
    match st {
        Stage::Counting => 8,
        Stage::Naming { .. } => 7,
        Stage::Staging { .. } => 6,
        Stage::Archiving { .. } => 5,
        Stage::Hashing { .. } => 4,
        Stage::Delivering { .. } => 3,
        Stage::RemovingSource { .. } => 2,
        Stage::Discarding { .. } => 1,
        Stage::Finished => 0,
    }
}

/// The run's state agrees with its spec: a checksum is carried exactly when
/// one was requested, and the source is only removed when that was
/// requested (a hash is computed only when requested).
pub open spec fn consistent(r: JobRun) -> bool {
    &&& (r.stage is Hashing ==> r.spec.checksum)
    &&& (r.stage matches Stage::Delivering { sha256, .. } ==> sha256.is_some() == r.spec.checksum)
    &&& (r.stage matches Stage::RemovingSource { sha256, .. } ==> sha256.is_some()
        == r.spec.checksum && r.spec.remove_source)
}

/// `ev` holds a finishing event.
pub open spec fn has_finish(ev: Seq<Event>) -> bool {
    exists|k: int| 0 <= k < ev.len() && #[trigger] ev[k] is Finished
}

/// A finished run stays finished: it reports nothing more and asks for
/// nothing more, whatever it is told.
pub proof fn law_finished_is_final(r: JobRun, o: Outcome, r2: JobRun, ev: Seq<Event>, a: Action)
    requires
        transition(r, o, r2, ev, a),
        r.stage is Finished,
    ensures
        r2.stage is Finished,
        ev.len() == 0,
        a is Stop,
{
}

/// A job reports its `Finished` event exactly in the step that ends it, as
/// the last event of that step, and never earlier in a step.
pub proof fn law_finish_reported_once(r: JobRun, o: Outcome, r2: JobRun, ev: Seq<Event>, a: Action)
    requires
        transition(r, o, r2, ev, a),
    ensures
        has_finish(ev) <==> (r2.stage is Finished && !(r.stage is Finished)),
        forall|k: int| 0 <= k < ev.len() && #[trigger] ev[k] is Finished ==> k == ev.len() - 1,
        r2.stage is Finished <==> a is Stop,
{
    if r2.stage is Finished && !(r.stage is Finished) {
        assert(ev[ev.len() - 1] is Finished);
    }
}

/// Every step that answers the pending action moves the run strictly closer
/// to its end; a packed file only counts up while packing goes on; any other
/// outcome leaves the run where it is and asks again. So a job finishes after
/// at most eight answered actions.
pub proof fn law_progress(r: JobRun, o: Outcome, r2: JobRun, ev: Seq<Event>, a: Action)
    requires
        transition(r, o, r2, ev, a),
    ensures
        answers(r.stage, o) ==> rank(r2.stage) < rank(r.stage),
        !answers(r.stage, o) && !(r.stage is Finished) && !(r.stage is Archiving && o is FilePacked)
            ==> r2.stage == r.stage && ev.len() == 0 && a == pending_action(r),
        r.stage is Archiving && o is FilePacked ==> r2.stage is Archiving && rank(r2.stage) == rank(
            r.stage,
        ),
{
}

/// A new run is consistent, and every step keeps it so.
pub proof fn law_consistency_kept(r: JobRun, o: Outcome, r2: JobRun, ev: Seq<Event>, a: Action)
    requires
        transition(r, o, r2, ev, a),
        consistent(r),
    ensures
        consistent(r2),
{
}

/// A job that ends as done carries a SHA-256 exactly when one was requested.
pub proof fn law_checksum_when_requested(
    r: JobRun,
    o: Outcome,
    r2: JobRun,
    ev: Seq<Event>,
    a: Action,
    k: int,
)
    requires
        transition(r, o, r2, ev, a),
        consistent(r),
        0 <= k < ev.len(),
        ev[k] matches Event::Finished { status: JobStatus::Done { .. }, .. },
    ensures
        ev[k]->Finished_status->Done_sha256.is_some() == r.spec.checksum,
{
}

/// The source is removed only after the archive was delivered, and only when
/// that was requested.
pub proof fn law_source_removed_after_delivery(
    r: JobRun,
    o: Outcome,
    r2: JobRun,
    ev: Seq<Event>,
    a: Action,
)
    requires
        transition(r, o, r2, ev, a),
        consistent(r),
    ensures
        a is RemoveSource ==> r2.stage is RemovingSource && r.spec.remove_source,
        r2.stage is RemovingSource && !(r.stage is RemovingSource) ==> r.stage is Delivering && (
        o matches Outcome::Delivered(Ok(_))),
{
}

/// A failed or canceled packing never ends the job directly: the staged
/// archive is discarded first, and only then does the job finish (as
/// canceled, or failed with the packing error).
pub proof fn law_failed_archive_discarded(
    r: JobRun,
    o: Outcome,
    r2: JobRun,
    ev: Seq<Event>,
    a: Action,
)
    requires
        transition(r, o, r2, ev, a),
    ensures
        r.stage is Archiving ==> !(r2.stage is Finished),
        r.stage is Archiving && (o matches Outcome::Archived { result, canceled } && (result is Err
            || canceled)) ==> r2.stage is Discarding && a == (Action::Discard {
            staged: r.stage->Archiving_staged,
        }),
        r2.stage is Finished && !(r.stage is Finished) && (r.stage is Discarding) ==> failure_events(
            r.id,
            r.stage->Discarding_error,
            ev,
        ),
{
}

/// A cancel seen when packing ends reaches no destination: the staged
/// archive is discarded, and the job then finishes as canceled, with no
/// other event on the way.
pub proof fn law_cancel_ends_canceled(
    r: JobRun,
    o: Outcome,
    r2: JobRun,
    ev: Seq<Event>,
    a: Action,
    r3: JobRun,
    ev2: Seq<Event>,
    a2: Action,
)
    requires
        transition(r, o, r2, ev, a),
        r.stage is Archiving,
        o matches Outcome::Archived { result, canceled: true } && (result is Ok || (result matches Err(
            CoreError::Canceled,
        ))),
        transition(r2, Outcome::Discarded, r3, ev2, a2),
    ensures
        ev.len() == 0,
        a == (Action::Discard { staged: r.stage->Archiving_staged }),
        r3.stage is Finished,
        ev2 == seq![Event::Finished { id: r.id, status: JobStatus::Canceled }],
        a2 is Stop,
{
}

/// The archive is delivered only once it is complete: the move to the
/// destination is asked for only after packing succeeded without a cancel,
/// and, when a checksum was requested, after it was computed; the archive
/// delivered is the one that was staged.
pub proof fn law_delivery_after_complete_archive(
    r: JobRun,
    o: Outcome,
    r2: JobRun,
    ev: Seq<Event>,
    a: Action,
)
    requires
        transition(r, o, r2, ev, a),
        consistent(r),
    ensures
        a is Deliver ==> r2.stage is Delivering,
        r2.stage is Delivering && !(r.stage is Delivering) ==> {
            ||| r.stage is Archiving && (o matches Outcome::Archived { result: Ok(_), canceled: false })
                && !r.spec.checksum
            ||| r.stage is Hashing && (o matches Outcome::Hashed(Ok(_)))
        },
        a is Deliver && r.stage is Archiving ==> a->Deliver_staged == r.stage->Archiving_staged,
        a is Deliver && r.stage is Hashing ==> a->Deliver_staged == r.stage->Hashing_staged,
{
}

/// `runs[0]` went through the outcomes `outcomes` in order: step `i` took
/// `runs[i]` to `runs[i + 1]`, reporting `events[i]` and asking for
/// `actions[i]`.
pub open spec fn is_run(
    runs: Seq<JobRun>,
    outcomes: Seq<Outcome>,
    events: Seq<Seq<Event>>,
    actions: Seq<Action>,
) -> bool {
    &&& runs.len() == outcomes.len() + 1
    &&& events.len() == outcomes.len()
    &&& actions.len() == outcomes.len()
    &&& forall|i: int|
        0 <= i < outcomes.len() ==> transition(
            #[trigger] runs[i],
            outcomes[i],
            runs[i + 1],
            events[i],
            actions[i],
        )
}

/// How many steps reported a `Finished` event.
pub open spec fn finish_count(events: Seq<Seq<Event>>) -> nat
    decreases events.len(),
{
    if events.len() == 0 {
        0
    } else {
        finish_count(events.drop_last()) + if has_finish(events.last()) {
            1nat
        } else {
            0nat
        }
    }
}

/// Over a whole run of a job, whatever the outcomes, the `Finished` event is
/// reported at most once: exactly once if the run has ended, never if it has
/// not.
pub proof fn law_one_finish_per_run(
    runs: Seq<JobRun>,
    outcomes: Seq<Outcome>,
    events: Seq<Seq<Event>>,
    actions: Seq<Action>,
)
    requires
        is_run(runs, outcomes, events, actions),
        !(runs[0].stage is Finished),
    ensures
        finish_count(events) == if runs.last().stage is Finished {
            1nat
        } else {
            0nat
        },
    decreases outcomes.len(),
{
    let n = outcomes.len();
    if n > 0 {
        let rs = runs.drop_last();
        let os = outcomes.drop_last();
        let es = events.drop_last();
        let acts = actions.drop_last();
        assert forall|i: int| 0 <= i < os.len() implies transition(
            #[trigger] rs[i],
            os[i],
            rs[i + 1],
            es[i],
            acts[i],
        ) by {
            assert(transition(runs[i], outcomes[i], runs[i + 1], events[i], actions[i]));
        }
        law_one_finish_per_run(rs, os, es, acts);
        let k = n - 1;
        assert(transition(runs[k], outcomes[k], runs[k + 1], events[k], actions[k]));
        law_finish_reported_once(runs[k], outcomes[k], runs[k + 1], events[k], actions[k]);
        if runs[k].stage is Finished {
            law_finished_is_final(runs[k], outcomes[k], runs[k + 1], events[k], actions[k]);
        }
    }
}

/// While packing, the packed files are counted one by one: from a run that
/// has packed `p` files, `n` reports of a packed file give, step by step,
/// exactly one progress event each, counting `p + 1` to `p + n` out of the
/// run's total, and the packing goes on (while the count fits in 64 bits).
pub proof fn law_files_counted(
    runs: Seq<JobRun>,
    outcomes: Seq<Outcome>,
    events: Seq<Seq<Event>>,
    actions: Seq<Action>,
)
    requires
        is_run(runs, outcomes, events, actions),
        runs[0].stage is Archiving,
        forall|i: int| 0 <= i < outcomes.len() ==> (#[trigger] outcomes[i]) is FilePacked,
        runs[0].stage->Archiving_packed + outcomes.len() <= u64::MAX,
    ensures
        forall|i: int|
            0 <= i < outcomes.len() ==> #[trigger] events[i] == seq![
                Event::Progress {
                    id: runs[0].id,
                    status: JobStatus::Archiving {
                        done: (runs[0].stage->Archiving_packed + i + 1) as u64,
                        total: runs[0].stage->Archiving_total,
                    },
                },
            ],
        forall|i: int| 0 <= i < outcomes.len() ==> (#[trigger] actions[i]) is Continue,
        runs.last().stage == (Stage::Archiving {
            name: runs[0].stage->Archiving_name,
            staged: runs[0].stage->Archiving_staged,
            total: runs[0].stage->Archiving_total,
            packed: (runs[0].stage->Archiving_packed + outcomes.len()) as u64,
        }),
        runs.last().id == runs[0].id,
    decreases outcomes.len(),
{
    let n = outcomes.len();
    if n > 0 {
        let rs = runs.drop_last();
        let os = outcomes.drop_last();
        let es = events.drop_last();
        let acts = actions.drop_last();
        assert forall|i: int| 0 <= i < os.len() implies transition(
            #[trigger] rs[i],
            os[i],
            rs[i + 1],
            es[i],
            acts[i],
        ) by {
            assert(transition(runs[i], outcomes[i], runs[i + 1], events[i], actions[i]));
        }
        assert forall|i: int| 0 <= i < os.len() implies (#[trigger] os[i]) is FilePacked by {
            assert(outcomes[i] is FilePacked);
        }
        law_files_counted(rs, os, es, acts);
        let k = n - 1;
        assert(transition(runs[k], outcomes[k], runs[k + 1], events[k], actions[k]));
        assert(outcomes[k] is FilePacked);
        assert(rs.last() == runs[k]);
        assert forall|i: int| 0 <= i < outcomes.len() implies #[trigger] events[i] == seq![
            Event::Progress {
                id: runs[0].id,
                status: JobStatus::Archiving {
                    done: (runs[0].stage->Archiving_packed + i + 1) as u64,
                    total: runs[0].stage->Archiving_total,
                },
            },
        ] by {
            if i < k {
                assert(es[i] == events[i]);
            }
        }
        assert forall|i: int| 0 <= i < outcomes.len() implies (#[trigger] actions[i]) is Continue by {
            if i < k {
                assert(acts[i] == actions[i]);
            }
        }
    }
}

/// How a packing ends decides how the job ends, once the staged archive is
/// discarded: a packing error is the job's error, reported as it is (a log
/// line and a failed status that describes it); the job counts as canceled
/// only when that error is the cancel itself, or when packing succeeded but
/// the cancel flag was set.
pub proof fn law_packing_end_decides_status(
    r: JobRun,
    result: Result<u64, CoreError>,
    canceled: bool,
    r2: JobRun,
    ev: Seq<Event>,
    a: Action,
    r3: JobRun,
    ev2: Seq<Event>,
    a2: Action,
)
    requires
        r.stage is Archiving,
        transition(r, Outcome::Archived { result, canceled }, r2, ev, a),
        !(result is Ok && !canceled),
        transition(r2, Outcome::Discarded, r3, ev2, a2),
    ensures
        ev.len() == 0,
        a == (Action::Discard { staged: r.stage->Archiving_staged }),
        r3.stage is Finished,
        a2 is Stop,
        ev2.len() >= 1,
        ev2.last() matches Event::Finished { id, .. } && id == r.id,
        (ev2.last()->Finished_status is Canceled) <==> ((result matches Err(CoreError::Canceled)) || (
        result is Ok && canceled)),
        result is Err && !(result->Err_0 is Canceled) ==> {
            &&& ev2.len() == 2
            &&& ev2[0] matches Event::Log { id: lid, line } && lid == Some(r.id)
            &&& ev2[1] matches Event::Finished { status: JobStatus::Failed { error }, .. }
            &&& describes(result->Err_0, ev2[1]->Finished_status->Failed_error@)
            &&& ev2[0]->Log_line@ == job_id_text(r.id) + " ошибка: "@
                + ev2[1]->Finished_status->Failed_error@
        },
{
}

} // verus!
