//! The processing of one recording: transcription, then summary, with every
//! status change and job event recorded. The worker drives a [`JobPhase`]
//! with the outcome of each action it performs and performs the action that
//! [`job_step`] hands back.
use vstd::prelude::*;
use crate::errors::{error_text, AppError};
use crate::models::{AudioStatus, PendingAudioJob};
use crate::text::{owned, push_str};

verus! {

/// The two stages of processing.
#[derive(Clone, Copy, Debug, PartialEq, Eq, Structural)]
pub enum JobStage {
    Transcription,
    Summary,
}

/// What a job event reports about a stage.
#[derive(Clone, Copy, Debug, PartialEq, Eq, Structural)]
pub enum EventStatus {
    Started,
    Completed,
    Failed,
}

pub open spec fn stage_text(s: JobStage) -> Seq<char> {
    match s {
        JobStage::Transcription => "transcription"@,
        JobStage::Summary => "summary"@,
    }
}

pub open spec fn event_status_text(s: EventStatus) -> Seq<char> {
    match s {
        EventStatus::Started => "started"@,
        EventStatus::Completed => "completed"@,
        EventStatus::Failed => "failed"@,
    }
}

impl JobStage {
    pub fn as_str(self) -> (r: &'static str)
        ensures
            r@ == stage_text(self),
    {
        match self {
            JobStage::Transcription => "transcription",
            JobStage::Summary => "summary",
        }
    }
}

impl EventStatus {
    pub fn as_str(self) -> (r: &'static str)
        ensures
            r@ == event_status_text(self),
    {
        match self {
            EventStatus::Started => "started",
            EventStatus::Completed => "completed",
            EventStatus::Failed => "failed",
        }
    }
}

/// Where one job stands: the action whose outcome is awaited.
#[derive(Debug)]
pub enum JobPhase {
    SettingTranscribing,
    LoggingTranscriptionStart,
    Transcribing,
    SavingTranscript,
    WritingTranscript,
    AttachingTranscript,
    SettingTranscribed,
    LoggingTranscriptionDone,
    MarkingTranscriptionFailed(AppError),
    LoggingTranscriptionFailed(AppError),
    LoadingTranscript,
    SettingSummarizing,
    LoggingSummaryStart,
    Summarizing,
    SavingSummary,
    WritingSummary,
    AttachingSummary,
    SettingCompleted,
    LoggingSummaryDone,
    MarkingSummaryFailed(AppError),
    LoggingSummaryFailed(AppError),
    Finished,
}

/// The next thing the worker does for a job.
#[derive(Debug)]
pub enum JobAction {
    /// Store `status` for the recording, with `error_message` beside it.
    SetStatus { status: AudioStatus, error_message: Option<String> },
    /// Append a job event for `stage`, as attempt `attempt`.
    RecordEvent {
        stage: JobStage,
        outcome: EventStatus,
        attempt: i64,
        error_message: Option<String>,
    },
    /// Send the audio to the transcription service.
    Transcribe,
    /// Store the transcript segments.
    SaveTranscript,
    /// Write the transcript file.
    WriteTranscriptFile,
    /// Store the path of the transcript file just written.
    AttachTranscriptPath,
    /// Read the stored transcript segments of the recording.
    LoadTranscript,
    /// Send the transcript to the summary service.
    Summarize,
    /// Store the summary.
    SaveSummary,
    /// Write the summary file.
    WriteSummaryFile,
    /// Store the path of the summary file just written.
    AttachSummaryPath,
    /// The job is over, with this result.
    Finish(Result<(), AppError>),
}

/// The shape of an action, without its texts: the status it stores, the event
/// it records and whether an error text goes with either.
#[derive(Clone, Copy, Debug, PartialEq, Eq, Structural)]
pub enum ActionKind {
    SetStatus(AudioStatus, bool),
    RecordEvent(JobStage, EventStatus, bool),
    Transcribe,
    SaveTranscript,
    WriteTranscriptFile,
    AttachTranscriptPath,
    LoadTranscript,
    Summarize,
    SaveSummary,
    WriteSummaryFile,
    AttachSummaryPath,
    FinishOk,
    FinishErr,
}

/// The shape of an action; every event is recorded as attempt 1.
pub open spec fn kind_of(a: JobAction) -> ActionKind {
    match a {
        JobAction::SetStatus { status, error_message } => ActionKind::SetStatus(
            status,
            error_message is Some,
        ),
        JobAction::RecordEvent { stage, outcome, error_message, .. } => ActionKind::RecordEvent(
            stage,
            outcome,
            error_message is Some,
        ),
        JobAction::Transcribe => ActionKind::Transcribe,
        JobAction::SaveTranscript => ActionKind::SaveTranscript,
        JobAction::WriteTranscriptFile => ActionKind::WriteTranscriptFile,
        JobAction::AttachTranscriptPath => ActionKind::AttachTranscriptPath,
        JobAction::LoadTranscript => ActionKind::LoadTranscript,
        JobAction::Summarize => ActionKind::Summarize,
        JobAction::SaveSummary => ActionKind::SaveSummary,
        JobAction::WriteSummaryFile => ActionKind::WriteSummaryFile,
        JobAction::AttachSummaryPath => ActionKind::AttachSummaryPath,
        JobAction::Finish(r) => if r is Ok {
            ActionKind::FinishOk
        } else {
            ActionKind::FinishErr
        },
    }
}

/// How a job begins, by the status it was picked up in: a recording that is
/// imported or whose transcription failed is transcribed; one that is
/// transcribed or whose summary failed has its stored transcript read back;
/// any other is left alone.
pub open spec fn job_start(status: AudioStatus) -> (JobPhase, ActionKind) {
    match status {
        AudioStatus::Imported | AudioStatus::FailedTranscription => (
            JobPhase::SettingTranscribing,
            ActionKind::SetStatus(AudioStatus::Transcribing, false),
        ),
        AudioStatus::Transcribed | AudioStatus::FailedSummary => (
            JobPhase::LoadingTranscript,
            ActionKind::LoadTranscript,
        ),
        _ => (JobPhase::Finished, ActionKind::FinishOk),
    }
}

/// The phase after `p` once its action had `outcome`, and the shape of the
/// next action. A failed status update, event, save, file write or read ends
/// the job with that failure; a failed service call is first recorded as a
/// failed status and a failed event, then ends the job with the service's error.
pub open spec fn job_next(p: JobPhase, outcome: Result<(), AppError>) -> (JobPhase, ActionKind) {
    match (p, outcome) {
        (JobPhase::Transcribing, Err(e)) => (
            JobPhase::MarkingTranscriptionFailed(e),
            ActionKind::SetStatus(AudioStatus::FailedTranscription, true),
        ),
        (JobPhase::Summarizing, Err(e)) => (
            JobPhase::MarkingSummaryFailed(e),
            ActionKind::SetStatus(AudioStatus::FailedSummary, true),
        ),
        (JobPhase::Finished, _) => (JobPhase::Finished, ActionKind::FinishOk),
        (_, Err(_)) => (JobPhase::Finished, ActionKind::FinishErr),
        (JobPhase::SettingTranscribing, Ok(_)) => (
            JobPhase::LoggingTranscriptionStart,
            ActionKind::RecordEvent(JobStage::Transcription, EventStatus::Started, false),
        ),
        (JobPhase::LoggingTranscriptionStart, Ok(_)) => (JobPhase::Transcribing, ActionKind::Transcribe),
        (JobPhase::Transcribing, Ok(_)) => (JobPhase::SavingTranscript, ActionKind::SaveTranscript),
        (JobPhase::SavingTranscript, Ok(_)) => (
            JobPhase::WritingTranscript,
            ActionKind::WriteTranscriptFile,
        ),
        (JobPhase::WritingTranscript, Ok(_)) => (
            JobPhase::AttachingTranscript,
            ActionKind::AttachTranscriptPath,
        ),
        (JobPhase::AttachingTranscript, Ok(_)) => (
            JobPhase::SettingTranscribed,
            ActionKind::SetStatus(AudioStatus::Transcribed, false),
        ),
        (JobPhase::SettingTranscribed, Ok(_)) => (
            JobPhase::LoggingTranscriptionDone,
            ActionKind::RecordEvent(JobStage::Transcription, EventStatus::Completed, false),
        ),
        (JobPhase::LoggingTranscriptionDone, Ok(_)) => (
            JobPhase::SettingSummarizing,
            ActionKind::SetStatus(AudioStatus::Summarizing, false),
        ),
        (JobPhase::MarkingTranscriptionFailed(e), Ok(_)) => (
            JobPhase::LoggingTranscriptionFailed(e),
            ActionKind::RecordEvent(JobStage::Transcription, EventStatus::Failed, true),
        ),
        (JobPhase::LoggingTranscriptionFailed(e), Ok(_)) => (JobPhase::Finished, ActionKind::FinishErr),
        (JobPhase::LoadingTranscript, Ok(_)) => (
            JobPhase::SettingSummarizing,
            ActionKind::SetStatus(AudioStatus::Summarizing, false),
        ),
        (JobPhase::SettingSummarizing, Ok(_)) => (
            JobPhase::LoggingSummaryStart,
            ActionKind::RecordEvent(JobStage::Summary, EventStatus::Started, false),
        ),
        (JobPhase::LoggingSummaryStart, Ok(_)) => (JobPhase::Summarizing, ActionKind::Summarize),
        (JobPhase::Summarizing, Ok(_)) => (JobPhase::SavingSummary, ActionKind::SaveSummary),
        (JobPhase::SavingSummary, Ok(_)) => (JobPhase::WritingSummary, ActionKind::WriteSummaryFile),
        (JobPhase::WritingSummary, Ok(_)) => (
            JobPhase::AttachingSummary,
            ActionKind::AttachSummaryPath,
        ),
        (JobPhase::AttachingSummary, Ok(_)) => (
            JobPhase::SettingCompleted,
            ActionKind::SetStatus(AudioStatus::Completed, false),
        ),
        (JobPhase::SettingCompleted, Ok(_)) => (
            JobPhase::LoggingSummaryDone,
            ActionKind::RecordEvent(JobStage::Summary, EventStatus::Completed, false),
        ),
        (JobPhase::LoggingSummaryDone, Ok(_)) => (JobPhase::Finished, ActionKind::FinishOk),
        (JobPhase::MarkingSummaryFailed(e), Ok(_)) => (
            JobPhase::LoggingSummaryFailed(e),
            ActionKind::RecordEvent(JobStage::Summary, EventStatus::Failed, true),
        ),
        (JobPhase::LoggingSummaryFailed(e), Ok(_)) => (JobPhase::Finished, ActionKind::FinishErr),
    }
}

/// The texts and errors that an action carries after `p` had `outcome`: an
/// error text is the text of the service error being recorded; a job ends with
/// the failure that stopped it, or with the service error once it is recorded;
/// every event is attempt 1.
pub open spec fn action_details(p: JobPhase, outcome: Result<(), AppError>, a: JobAction) -> bool {
    &&& (a matches JobAction::RecordEvent { attempt, .. } ==> attempt == 1)
    &&& match (p, outcome) {
        (JobPhase::Transcribing, Err(e)) => a matches JobAction::SetStatus {
            error_message: Some(m),
            ..
        } && m@ == error_text(e),
        (JobPhase::Summarizing, Err(e)) => a matches JobAction::SetStatus {
            error_message: Some(m),
            ..
        } && m@ == error_text(e),
        (JobPhase::Finished, _) => true,
        (_, Err(e)) => a == JobAction::Finish(Err(e)),
        (JobPhase::MarkingTranscriptionFailed(e), Ok(_)) => a matches JobAction::RecordEvent {
            error_message: Some(m),
            ..
        } && m@ == error_text(e),
        (JobPhase::MarkingSummaryFailed(e), Ok(_)) => a matches JobAction::RecordEvent {
            error_message: Some(m),
            ..
        } && m@ == error_text(e),
        (JobPhase::LoggingTranscriptionFailed(e), Ok(_)) => a == JobAction::Finish(Err(e)),
        (JobPhase::LoggingSummaryFailed(e), Ok(_)) => a == JobAction::Finish(Err(e)),
        _ => true,
    }
}

fn set_status(status: AudioStatus) -> (a: JobAction)
    ensures
        kind_of(a) == ActionKind::SetStatus(status, false),
{
    JobAction::SetStatus { status, error_message: None }
}

fn record(stage: JobStage, status: EventStatus) -> (a: JobAction)
    ensures
        kind_of(a) == ActionKind::RecordEvent(stage, status, false),
        a matches JobAction::RecordEvent { attempt, .. } && attempt == 1,
{
    JobAction::RecordEvent { stage, outcome: status, attempt: 1, error_message: None }
}

/// The first phase and action of a job picked up in `status`.
pub fn start_job(status: AudioStatus) -> (r: (JobPhase, JobAction))
    ensures
        r.0 == job_start(status).0,
        kind_of(r.1) == job_start(status).1,
{
    match status {
        AudioStatus::Imported | AudioStatus::FailedTranscription => (
            JobPhase::SettingTranscribing,
            set_status(AudioStatus::Transcribing),
        ),
        AudioStatus::Transcribed | AudioStatus::FailedSummary => (
            JobPhase::LoadingTranscript,
            JobAction::LoadTranscript,
        ),
        _ => (JobPhase::Finished, JobAction::Finish(Ok(()))),
    }
}

/// Advances a job by the outcome of the action it was waiting for.
pub fn job_step(p: JobPhase, outcome: Result<(), AppError>) -> (r: (JobPhase, JobAction))
    ensures
        r.0 == job_next(p, outcome).0,
        kind_of(r.1) == job_next(p, outcome).1,
        action_details(p, outcome, r.1),
{
    match p {
        JobPhase::Finished => (JobPhase::Finished, JobAction::Finish(Ok(()))),
        JobPhase::Transcribing => match outcome {
            Err(e) => {
                let m = e.message();
                (
                    JobPhase::MarkingTranscriptionFailed(e),
                    JobAction::SetStatus {
                        status: AudioStatus::FailedTranscription,
                        error_message: Some(m),
                    },
                )
            },
            Ok(()) => (JobPhase::SavingTranscript, JobAction::SaveTranscript),
        },
        JobPhase::Summarizing => match outcome {
            Err(e) => {
                let m = e.message();
                (
                    JobPhase::MarkingSummaryFailed(e),
                    JobAction::SetStatus { status: AudioStatus::FailedSummary, error_message: Some(m) },
                )
            },
            Ok(()) => (JobPhase::SavingSummary, JobAction::SaveSummary),
        },
        _ => match outcome {
            Err(e) => (JobPhase::Finished, JobAction::Finish(Err(e))),
            Ok(()) => match p {
                JobPhase::SettingTranscribing => (
                    JobPhase::LoggingTranscriptionStart,
                    record(JobStage::Transcription, EventStatus::Started),
                ),
                JobPhase::LoggingTranscriptionStart => (JobPhase::Transcribing, JobAction::Transcribe),
                JobPhase::SavingTranscript => (
                    JobPhase::WritingTranscript,
                    JobAction::WriteTranscriptFile,
                ),
                JobPhase::WritingTranscript => (
                    JobPhase::AttachingTranscript,
                    JobAction::AttachTranscriptPath,
                ),
                JobPhase::AttachingTranscript => (
                    JobPhase::SettingTranscribed,
                    set_status(AudioStatus::Transcribed),
                ),
                JobPhase::SettingTranscribed => (
                    JobPhase::LoggingTranscriptionDone,
                    record(JobStage::Transcription, EventStatus::Completed),
                ),
                JobPhase::LoggingTranscriptionDone => (
                    JobPhase::SettingSummarizing,
                    set_status(AudioStatus::Summarizing),
                ),
                JobPhase::MarkingTranscriptionFailed(e) => {
                    let m = e.message();
                    (
                        JobPhase::LoggingTranscriptionFailed(e),
                        JobAction::RecordEvent {
                            stage: JobStage::Transcription,
                            outcome: EventStatus::Failed,
                            attempt: 1,
                            error_message: Some(m),
                        },
                    )
                },
                JobPhase::LoggingTranscriptionFailed(e) => (
                    JobPhase::Finished,
                    JobAction::Finish(Err(e)),
                ),
                JobPhase::LoadingTranscript => (
                    JobPhase::SettingSummarizing,
                    set_status(AudioStatus::Summarizing),
                ),
                JobPhase::SettingSummarizing => (
                    JobPhase::LoggingSummaryStart,
                    record(JobStage::Summary, EventStatus::Started),
                ),
                JobPhase::LoggingSummaryStart => (JobPhase::Summarizing, JobAction::Summarize),
                JobPhase::SavingSummary => (JobPhase::WritingSummary, JobAction::WriteSummaryFile),
                JobPhase::WritingSummary => (JobPhase::AttachingSummary, JobAction::AttachSummaryPath),
                JobPhase::AttachingSummary => (
                    JobPhase::SettingCompleted,
                    set_status(AudioStatus::Completed),
                ),
                JobPhase::SettingCompleted => (
                    JobPhase::LoggingSummaryDone,
                    record(JobStage::Summary, EventStatus::Completed),
                ),
                JobPhase::LoggingSummaryDone => (JobPhase::Finished, JobAction::Finish(Ok(()))),
                JobPhase::MarkingSummaryFailed(e) => {
                    let m = e.message();
                    (
                        JobPhase::LoggingSummaryFailed(e),
                        JobAction::RecordEvent {
                            stage: JobStage::Summary,
                            outcome: EventStatus::Failed,
                            attempt: 1,
                            error_message: Some(m),
                        },
                    )
                },
                JobPhase::LoggingSummaryFailed(e) => (JobPhase::Finished, JobAction::Finish(Err(e))),
                _ => (JobPhase::Finished, JobAction::Finish(Ok(()))),
            },
        },
    }
}

} // verus!

verus! {

/// The shapes of the actions issued from phase `p` when the awaited actions
/// have the outcomes `outcomes`, one after the other.
pub open spec fn run_kinds(p: JobPhase, outcomes: Seq<Result<(), AppError>>) -> Seq<ActionKind>
    decreases outcomes.len(),
{
    if outcomes.len() == 0 {
        Seq::empty()
    } else {
        seq![job_next(p, outcomes[0]).1] + run_kinds(job_next(p, outcomes[0]).0, outcomes.drop_first())
    }
}

/// The phase reached from `p` after `outcomes`.
pub open spec fn run_phase(p: JobPhase, outcomes: Seq<Result<(), AppError>>) -> JobPhase
    decreases outcomes.len(),
{
    if outcomes.len() == 0 {
        p
    } else {
        run_phase(job_next(p, outcomes[0]).0, outcomes.drop_first())
    }
}

/// The shapes of the actions issued from `p` when `n` actions in a row succeed.
pub open spec fn run_ok(p: JobPhase, n: nat) -> Seq<ActionKind>
    decreases n,
{
    if n == 0 {
        Seq::empty()
    } else {
        seq![job_next(p, Ok(())).1] + run_ok(job_next(p, Ok(())).0, (n - 1) as nat)
    }
}

/// Everything a fresh recording goes through when nothing fails.
pub open spec fn full_pipeline() -> Seq<ActionKind> {
    seq![
        ActionKind::SetStatus(AudioStatus::Transcribing, false),
        ActionKind::RecordEvent(JobStage::Transcription, EventStatus::Started, false),
        ActionKind::Transcribe,
        ActionKind::SaveTranscript,
        ActionKind::WriteTranscriptFile,
        ActionKind::AttachTranscriptPath,
        ActionKind::SetStatus(AudioStatus::Transcribed, false),
        ActionKind::RecordEvent(JobStage::Transcription, EventStatus::Completed, false),
        ActionKind::SetStatus(AudioStatus::Summarizing, false),
        ActionKind::RecordEvent(JobStage::Summary, EventStatus::Started, false),
        ActionKind::Summarize,
        ActionKind::SaveSummary,
        ActionKind::WriteSummaryFile,
        ActionKind::AttachSummaryPath,
        ActionKind::SetStatus(AudioStatus::Completed, false),
        ActionKind::RecordEvent(JobStage::Summary, EventStatus::Completed, false),
        ActionKind::FinishOk,
    ]
}

/// A recording that is imported (or whose transcription failed) and meets no
/// failure is transcribed, then summarised, and ends `Completed`, with a
/// started and a completed event for each stage.
pub proof fn lemma_fresh_recording_completes(status: AudioStatus)
    requires
        status == AudioStatus::Imported || status == AudioStatus::FailedTranscription,
    ensures
        seq![job_start(status).1] + run_ok(job_start(status).0, 16) == full_pipeline(),
        run_ok(job_start(status).0, 17).last() == ActionKind::FinishOk,
{
    reveal_with_fuel(run_ok, 18);
    assert(seq![job_start(status).1] + run_ok(job_start(status).0, 16) =~= full_pipeline());
}

/// A recording whose transcript is stored (it is transcribed, or its summary
/// failed) and that meets no failure is only summarised, and ends `Completed`.
pub proof fn lemma_transcribed_recording_completes(status: AudioStatus)
    requires
        status == AudioStatus::Transcribed || status == AudioStatus::FailedSummary,
    ensures
        seq![job_start(status).1] + run_ok(job_start(status).0, 9) == seq![
            ActionKind::LoadTranscript,
        ] + full_pipeline().subrange(8, 17),
{
    reveal_with_fuel(run_ok, 10);
    assert(seq![job_start(status).1] + run_ok(job_start(status).0, 9) =~= seq![
        ActionKind::LoadTranscript,
    ] + full_pipeline().subrange(8, 17));
}

/// When the transcription service fails, the recording is marked
/// `FailedTranscription` with the error's text, a failed event is recorded,
/// no summary is asked for, and the job ends with the service's error.
pub proof fn lemma_transcription_failure_recorded(e: AppError)
    ensures
        run_kinds(JobPhase::SettingTranscribing, seq![Ok(()), Ok(()), Err(e), Ok(()), Ok(())])
            == seq![
            ActionKind::RecordEvent(JobStage::Transcription, EventStatus::Started, false),
            ActionKind::Transcribe,
            ActionKind::SetStatus(AudioStatus::FailedTranscription, true),
            ActionKind::RecordEvent(JobStage::Transcription, EventStatus::Failed, true),
            ActionKind::FinishErr,
        ],
        run_phase(JobPhase::SettingTranscribing, seq![Ok(()), Ok(()), Err(e), Ok(())])
            == JobPhase::LoggingTranscriptionFailed(e),
{
    let o = seq![Ok(()), Ok(()), Err(e), Ok(()), Ok(())];
    assert(o.drop_first() =~= seq![Ok(()), Err(e), Ok(()), Ok(())]);
    assert(o.drop_first().drop_first() =~= seq![Err(e), Ok(()), Ok(())]);
    assert(o.drop_first().drop_first().drop_first() =~= seq![Ok(()), Ok(())]);
    assert(o.drop_first().drop_first().drop_first().drop_first() =~= seq![Ok(())]);
    assert(o.drop_first().drop_first().drop_first().drop_first().drop_first() =~= Seq::<
        Result<(), AppError>,
    >::empty());
    let q = seq![Ok(()), Ok(()), Err(e), Ok(())];
    assert(q.drop_first() =~= seq![Ok(()), Err(e), Ok(())]);
    assert(q.drop_first().drop_first() =~= seq![Err(e), Ok(())]);
    assert(q.drop_first().drop_first().drop_first() =~= seq![Ok(())]);
    assert(q.drop_first().drop_first().drop_first().drop_first() =~= Seq::<
        Result<(), AppError>,
    >::empty());
    reveal_with_fuel(run_kinds, 6);
    reveal_with_fuel(run_phase, 5);
    assert(run_kinds(JobPhase::SettingTranscribing, o) =~= seq![
        ActionKind::RecordEvent(JobStage::Transcription, EventStatus::Started, false),
        ActionKind::Transcribe,
        ActionKind::SetStatus(AudioStatus::FailedTranscription, true),
        ActionKind::RecordEvent(JobStage::Transcription, EventStatus::Failed, true),
        ActionKind::FinishErr,
    ]);
}

/// When the summary service fails, the recording is marked `FailedSummary`
/// with the error's text, a failed event is recorded, and the job ends with
/// the service's error.
pub proof fn lemma_summary_failure_recorded(e: AppError)
    ensures
        run_kinds(JobPhase::SettingSummarizing, seq![Ok(()), Ok(()), Err(e), Ok(()), Ok(())])
            == seq![
            ActionKind::RecordEvent(JobStage::Summary, EventStatus::Started, false),
            ActionKind::Summarize,
            ActionKind::SetStatus(AudioStatus::FailedSummary, true),
            ActionKind::RecordEvent(JobStage::Summary, EventStatus::Failed, true),
            ActionKind::FinishErr,
        ],
        run_phase(JobPhase::SettingSummarizing, seq![Ok(()), Ok(()), Err(e), Ok(())])
            == JobPhase::LoggingSummaryFailed(e),
{
    let o = seq![Ok(()), Ok(()), Err(e), Ok(()), Ok(())];
    assert(o.drop_first() =~= seq![Ok(()), Err(e), Ok(()), Ok(())]);
    assert(o.drop_first().drop_first() =~= seq![Err(e), Ok(()), Ok(())]);
    assert(o.drop_first().drop_first().drop_first() =~= seq![Ok(()), Ok(())]);
    assert(o.drop_first().drop_first().drop_first().drop_first() =~= seq![Ok(())]);
    assert(o.drop_first().drop_first().drop_first().drop_first().drop_first() =~= Seq::<
        Result<(), AppError>,
    >::empty());
    let q = seq![Ok(()), Ok(()), Err(e), Ok(())];
    assert(q.drop_first() =~= seq![Ok(()), Err(e), Ok(())]);
    assert(q.drop_first().drop_first() =~= seq![Err(e), Ok(())]);
    assert(q.drop_first().drop_first().drop_first() =~= seq![Ok(())]);
    assert(q.drop_first().drop_first().drop_first().drop_first() =~= Seq::<
        Result<(), AppError>,
    >::empty());
    reveal_with_fuel(run_kinds, 6);
    reveal_with_fuel(run_phase, 5);
    assert(run_kinds(JobPhase::SettingSummarizing, o) =~= seq![
        ActionKind::RecordEvent(JobStage::Summary, EventStatus::Started, false),
        ActionKind::Summarize,
        ActionKind::SetStatus(AudioStatus::FailedSummary, true),
        ActionKind::RecordEvent(JobStage::Summary, EventStatus::Failed, true),
        ActionKind::FinishErr,
    ]);
}

/// A finished job stays finished: whatever happens next, it only reports that it is over.
pub proof fn lemma_finished_is_final(outcomes: Seq<Result<(), AppError>>)
    ensures
        forall|i: int| 0 <= i < outcomes.len() ==> #[trigger] run_kinds(JobPhase::Finished, outcomes)[i]
            == ActionKind::FinishOk,
        run_kinds(JobPhase::Finished, outcomes).len() == outcomes.len(),
    decreases outcomes.len(),
{
    if outcomes.len() > 0 {
        lemma_finished_is_final(outcomes.drop_first());
    }
}

} // verus!

verus! {

/// The statuses the worker picks recordings up in.
pub open spec fn is_pending(s: AudioStatus) -> bool {
    s == AudioStatus::Imported || s == AudioStatus::Transcribed
}

/// The status a recording is put back to when a stage is retried by name.
pub open spec fn retry_target(stage: Seq<char>) -> Option<AudioStatus> {
    if stage == "transcription"@ {
        Some(AudioStatus::Imported)
    } else if stage == "summary"@ {
        Some(AudioStatus::Transcribed)
    } else {
        None
    }
}

/// The status to store when the user retries `stage`, or the complaint about
/// an unknown stage.
pub fn retry_status_for_stage(stage: &str) -> (r: Result<AudioStatus, AppError>)
    ensures
        retry_target(stage@) matches Some(s) ==> (r matches Ok(x) && x == s),
        retry_target(stage@) is None ==> (r matches Err(AppError::Config(m)) && m@
            == "无效的重试阶段"@),
{
    if crate::text::str_eq(stage, "transcription") {
        Ok(AudioStatus::Imported)
    } else if crate::text::str_eq(stage, "summary") {
        Ok(AudioStatus::Transcribed)
    } else {
        Err(AppError::Config(owned("无效的重试阶段")))
    }
}

/// A retried recording is picked up again by the worker and redoes the stage
/// that was named: retrying the transcription transcribes anew, retrying the
/// summary reads the stored transcript back and summarises it.
pub proof fn lemma_retry_requeues(stage: Seq<char>)
    requires
        retry_target(stage) is Some,
    ensures
        is_pending(retry_target(stage)->0),
        stage == "transcription"@ ==> job_start(retry_target(stage)->0).1 == ActionKind::SetStatus(
            AudioStatus::Transcribing,
            false,
        ),
        stage == "summary"@ ==> job_start(retry_target(stage)->0).1 == ActionKind::LoadTranscript,
{
    reveal_strlit("transcription");
    reveal_strlit("summary");
    assert("summary"@ != "transcription"@) by {
        assert("summary"@.len() != "transcription"@.len());
    }
}

/// The error that ends a job whose recording is no longer stored.
pub fn missing_record_error(audio_id: &str) -> (r: AppError)
    ensures
        r matches AppError::Path(m) && m@ == "找不到音频记录 "@ + audio_id@,
{
    let mut m = owned("找不到音频记录 ");
    push_str(&mut m, audio_id);
    AppError::Path(m)
}

/// The recordings the worker is processing right now, each once: a list of
/// identifiers in which no identifier occurs twice, seen as the set of them.
pub struct ActiveJobs {
    ids: Vec<String>,
}

impl ActiveJobs {
    /// The identifiers being processed.
    pub closed spec fn view(&self) -> Set<Seq<char>> {
        Set::new(|id: Seq<char>| exists|i: int| 0 <= i < self.ids@.len() && self.ids@[i]@ == id)
    }

    /// No identifier is held twice.
    #[verifier::type_invariant]
    spec fn wf(&self) -> bool {
        forall|i: int, j: int|
            0 <= i < j < self.ids@.len() ==> #[trigger] self.ids@[i]@ != #[trigger] self.ids@[j]@
    }

    pub fn new() -> (r: Self)
        ensures
            r@ == Set::<Seq<char>>::empty(),
    {
        let r = ActiveJobs { ids: Vec::new() };
        assert(r@ =~= Set::<Seq<char>>::empty());
        r
    }

    fn find(&self, id: &str) -> (r: Option<usize>)
        ensures
            r matches Some(i) ==> i < self.ids@.len() && self.ids@[i as int]@ == id@,
            r is None ==> !self@.contains(id@),
    {
        for i in 0..self.ids.len()
            invariant
                forall|j: int| 0 <= j < i ==> self.ids@[j]@ != id@,
        {
            if crate::text::str_eq(self.ids[i].as_str(), id) {
                return Some(i);
            }
        }
        None
    }

    pub fn contains(&self, id: &str) -> (r: bool)
        ensures
            r == self@.contains(id@),
    {
        match self.find(id) {
            Some(i) => {
                assert(self@.contains(id@)) by {
                    assert(self.ids@[i as int]@ == id@);
                }
                true
            },
            None => false,
        }
    }

    /// Claims `id` for processing: `false`, with nothing changed, when it is
    /// already being processed; `true` once it is added.
    pub fn mark_active(&mut self, id: &str) -> (r: bool)
        ensures
            r == !old(self)@.contains(id@),
            final(self)@ == old(self)@.insert(id@),
    {
        proof {
            use_type_invariant(&*self);
        }
        if self.contains(id) {
            assert(self@.insert(id@) =~= self@);
            return false;
        }
        let ghost before = self.ids@;
        let item = owned(id);
        assert forall|i: int, j: int|
            0 <= i < j < before.push(item).len() implies #[trigger] before.push(item)[i]@
            != #[trigger] before.push(item)[j]@ by {
            if j == before.len() {
                assert(before[i]@ != id@);
            }
        }
        let mut ids: Vec<String> = Vec::new();
        std::mem::swap(&mut ids, &mut self.ids);
        ids.push(item);
        self.ids = ids;
        assert(self@ =~= old(self)@.insert(id@)) by {
            assert forall|x: Seq<char>| self@.contains(x) <==> old(self)@.insert(id@).contains(x) by {
                if x == id@ {
                    assert(self.ids@[before.len() as int]@ == id@);
                }
                if old(self)@.contains(x) {
                    let i = choose|i: int| 0 <= i < before.len() && before[i]@ == x;
                    assert(self.ids@[i]@ == x);
                }
                if self@.contains(x) {
                    let i = choose|i: int| 0 <= i < self.ids@.len() && self.ids@[i]@ == x;
                    if i < before.len() {
                        assert(before[i]@ == x);
                    }
                }
            }
        }
        true
    }

    /// Releases `id` once its processing is over.
    pub fn unmark_active(&mut self, id: &str)
        ensures
            final(self)@ == old(self)@.remove(id@),
    {
        proof {
            use_type_invariant(&*self);
        }
        match self.find(id) {
            None => {
                assert(self@.remove(id@) =~= self@);
            },
            Some(k) => {
                let ghost before = self.ids@;
                let ghost rest = before.remove(k as int);
                assert forall|i: int, j: int|
                    0 <= i < j < rest.len() implies #[trigger] rest[i]@ != #[trigger] rest[j]@ by {
                    let bi = if i < k { i } else { i + 1 };
                    let bj = if j < k { j } else { j + 1 };
                    assert(rest[i] == before[bi] && rest[j] == before[bj]);
                }
                let mut ids: Vec<String> = Vec::new();
                std::mem::swap(&mut ids, &mut self.ids);
                let _ = ids.remove(k);
                assert(ids@ =~= rest);
                self.ids = ids;
                assert(self@ =~= old(self)@.remove(id@)) by {
                    assert forall|x: Seq<char>| self@.contains(x) <==> old(self)@.remove(
                        id@,
                    ).contains(x) by {
                        if self@.contains(x) {
                            let i = choose|i: int| 0 <= i < self.ids@.len() && self.ids@[i]@ == x;
                            let bi = if i < k { i } else { i + 1 };
                            assert(self.ids@[i] == before[bi]);
                            assert(bi != k);
                            assert(before[k as int]@ == id@);
                            if x == id@ {
                                if bi < k {
                                    assert(before[bi]@ != before[k as int]@);
                                } else {
                                    assert(before[k as int]@ != before[bi]@);
                                }
                            }
                        }
                        if old(self)@.remove(id@).contains(x) {
                            let i = choose|i: int| 0 <= i < before.len() && before[i]@ == x;
                            assert(i != k);
                            let ni = if i < k { i } else { i - 1 };
                            assert(self.ids@[ni] == before[i]);
                        }
                    }
                }
            },
        }
    }
}

} // verus!

verus! {

impl PendingAudioJob {
    /// A copy of the job.
    pub fn duplicate(&self) -> (r: Self)
        ensures
            r == *self,
    {
        PendingAudioJob {
            id: self.id.clone(),
            imported_path: self.imported_path.clone(),
            file_name: self.file_name.clone(),
            status: self.status,
        }
    }
}

/// The jobs of a polling round that get claimed, in order, and the set of
/// identifiers being processed afterwards: a job is claimed unless its
/// identifier is already being processed (or was claimed earlier in the round).
pub open spec fn claim_round(active: Set<Seq<char>>, jobs: Seq<PendingAudioJob>) -> (
    Set<Seq<char>>,
    Seq<PendingAudioJob>,
)
    decreases jobs.len(),
{
    if jobs.len() == 0 {
        (active, Seq::empty())
    } else if active.contains(jobs[0].id@) {
        claim_round(active, jobs.drop_first())
    } else {
        let rest = claim_round(active.insert(jobs[0].id@), jobs.drop_first());
        (rest.0, seq![jobs[0]] + rest.1)
    }
}

impl ActiveJobs {
    /// Claims the jobs of one polling round; returns those that are now this
    /// worker's to process.
    pub fn claim_round(&mut self, jobs: &Vec<PendingAudioJob>) -> (r: Vec<PendingAudioJob>)
        ensures
            final(self)@ == claim_round(old(self)@, jobs@).0,
            r@ == claim_round(old(self)@, jobs@).1,
    {
        let mut out: Vec<PendingAudioJob> = Vec::new();
        let n = jobs.len();
        assert(jobs@.subrange(0, n as int) =~= jobs@);
        for i in 0..n
            invariant
                n == jobs@.len(),
                claim_round(old(self)@, jobs@).0 == claim_round(
                    self@,
                    jobs@.subrange(i as int, n as int),
                ).0,
                claim_round(old(self)@, jobs@).1 == out@ + claim_round(
                    self@,
                    jobs@.subrange(i as int, n as int),
                ).1,
        {
            let ghost tail = jobs@.subrange(i as int, n as int);
            assert(tail.drop_first() =~= jobs@.subrange(i + 1, n as int));
            assert(tail[0] == jobs@[i as int]);
            let ghost before = self@;
            let ghost out_before = out@;
            if self.mark_active(jobs[i].id.as_str()) {
                out.push(jobs[i].duplicate());
                assert(out_before + claim_round(before, tail).1 =~= out@ + claim_round(
                    self@,
                    jobs@.subrange(i + 1, n as int),
                ).1);
            } else {
                assert(self@ == before);
            }
        }
        assert(jobs@.subrange(n as int, n as int) =~= Seq::<PendingAudioJob>::empty());
        assert(out@ + Seq::<PendingAudioJob>::empty() =~= out@);
        out
    }
}

/// Claiming an identifier and releasing it again leaves the set of jobs in
/// progress as it was; an identifier claimed once cannot be claimed again
/// until it is released.
pub proof fn lemma_claim_release(active: Set<Seq<char>>, id: Seq<char>)
    requires
        !active.contains(id),
    ensures
        active.insert(id).contains(id),
        active.insert(id).remove(id) == active,
{
    assert(active.insert(id).remove(id) =~= active);
}

} // verus!

verus! {

/// A polling round never hands out a job that is already being processed, nor
/// the same recording twice; it hands out only polled jobs; and afterwards
/// every polled recording counts as being processed, while nothing else was added.
pub proof fn lemma_claim_round_exclusive(active: Set<Seq<char>>, jobs: Seq<PendingAudioJob>)
    ensures
        ({
            let (after, claimed) = claim_round(active, jobs);
            &&& forall|i: int| 0 <= i < claimed.len() ==> !active.contains(#[trigger] claimed[i].id@)
            &&& forall|i: int, j: int|
                0 <= i < j < claimed.len() ==> #[trigger] claimed[i].id@ != #[trigger] claimed[j].id@
            &&& forall|i: int| 0 <= i < claimed.len() ==> jobs.contains(#[trigger] claimed[i])
            &&& forall|k: int| 0 <= k < jobs.len() ==> after.contains(#[trigger] jobs[k].id@)
            &&& forall|id: Seq<char>| #[trigger] after.contains(id) <==> (active.contains(id) || exists|i: int|
                0 <= i < claimed.len() && claimed[i].id@ == id)
        }),
    decreases jobs.len(),
{
    if jobs.len() > 0 {
        let rest = jobs.drop_first();
        let j0 = jobs[0];
        if active.contains(j0.id@) {
            lemma_claim_round_exclusive(active, rest);
            let (after, claimed) = claim_round(active, rest);
            assert forall|i: int| 0 <= i < claimed.len() implies jobs.contains(#[trigger] claimed[i]) by {
                let k = choose|k: int| 0 <= k < rest.len() && rest[k] == claimed[i];
                assert(jobs[k + 1] == claimed[i]);
            }
            assert forall|k: int| 0 <= k < jobs.len() implies after.contains(#[trigger] jobs[k].id@) by {
                if k > 0 {
                    assert(jobs[k] == rest[k - 1]);
                }
            }
        } else {
            let grown = active.insert(j0.id@);
            lemma_claim_round_exclusive(grown, rest);
            let (after, tail) = claim_round(grown, rest);
            let claimed = seq![j0] + tail;
            assert(claim_round(active, jobs).1 == claimed);
            assert forall|i: int| 0 <= i < claimed.len() implies !active.contains(
                #[trigger] claimed[i].id@,
            ) by {
                if i > 0 {
                    assert(claimed[i] == tail[i - 1]);
                }
            }
            assert forall|i: int, j: int|
                0 <= i < j < claimed.len() implies #[trigger] claimed[i].id@
                != #[trigger] claimed[j].id@ by {
                assert(claimed[j] == tail[j - 1]);
                if i > 0 {
                    assert(claimed[i] == tail[i - 1]);
                }
            }
            assert forall|i: int| 0 <= i < claimed.len() implies jobs.contains(#[trigger] claimed[i]) by {
                if i == 0 {
                    assert(jobs[0] == claimed[0]);
                } else {
                    assert(claimed[i] == tail[i - 1]);
                    let k = choose|k: int| 0 <= k < rest.len() && rest[k] == tail[i - 1];
                    assert(jobs[k + 1] == claimed[i]);
                }
            }
            assert forall|k: int| 0 <= k < jobs.len() implies after.contains(#[trigger] jobs[k].id@) by {
                if k > 0 {
                    assert(jobs[k] == rest[k - 1]);
                }
            }
            assert forall|id: Seq<char>| #[trigger] after.contains(id) <==> (active.contains(id)
                || exists|i: int| 0 <= i < claimed.len() && claimed[i].id@ == id) by {
                if after.contains(id) && !active.contains(id) {
                    if id == j0.id@ {
                        assert(claimed[0].id@ == id);
                    } else {
                        let i = choose|i: int| 0 <= i < tail.len() && tail[i].id@ == id;
                        assert(claimed[i + 1] == tail[i]);
                    }
                }
                if exists|i: int| 0 <= i < claimed.len() && claimed[i].id@ == id {
                    let i = choose|i: int| 0 <= i < claimed.len() && claimed[i].id@ == id;
                    if i > 0 {
                        assert(claimed[i] == tail[i - 1]);
                    }
                }
            }
        }
    }
}

/// The tasks running at some moment, by recording, hold no recording twice
/// and are exactly the recordings marked as being processed.
pub open spec fn tasks_exclusive(active: Set<Seq<char>>, running: Seq<Seq<char>>) -> bool {
    &&& forall|i: int, j: int| 0 <= i < j < running.len() ==> #[trigger] running[i] != #[trigger] running[j]
    &&& forall|id: Seq<char>| #[trigger] active.contains(id) <==> running.contains(id)
}

/// The recordings of the jobs handed out, in order.
pub open spec fn job_ids(jobs: Seq<PendingAudioJob>) -> Seq<Seq<char>> {
    jobs.map_values(|j: PendingAudioJob| j.id@)
}

/// No two tasks ever process the same recording. Starting a task for each
/// job a polling round hands out keeps the running tasks exclusive and in
/// step with the recordings marked as being processed.
pub proof fn lemma_round_keeps_tasks_exclusive(
    active: Set<Seq<char>>,
    running: Seq<Seq<char>>,
    jobs: Seq<PendingAudioJob>,
)
    requires
        tasks_exclusive(active, running),
    ensures
        tasks_exclusive(claim_round(active, jobs).0, running + job_ids(claim_round(active, jobs).1)),
{
    lemma_claim_round_exclusive(active, jobs);
    let (after, claimed) = claim_round(active, jobs);
    let started = job_ids(claimed);
    let all = running + started;
    assert forall|i: int, j: int| 0 <= i < j < all.len() implies #[trigger] all[i] != #[trigger] all[j] by {
        if j >= running.len() {
            assert(all[j] == claimed[j - running.len()].id@);
            if i >= running.len() {
                assert(all[i] == claimed[i - running.len()].id@);
            } else {
                assert(running.contains(all[i]));
                assert(!active.contains(claimed[j - running.len()].id@));
            }
        }
    }
    assert forall|id: Seq<char>| #[trigger] after.contains(id) <==> all.contains(id) by {
        if after.contains(id) {
            if active.contains(id) {
                let k = choose|k: int| 0 <= k < running.len() && running[k] == id;
                assert(all[k] == id);
            } else {
                let k = choose|k: int| 0 <= k < claimed.len() && claimed[k].id@ == id;
                assert(all[running.len() + k] == id);
            }
        }
        if all.contains(id) {
            let k = choose|k: int| 0 <= k < all.len() && all[k] == id;
            if k < running.len() {
                assert(running[k] == id);
                assert(running.contains(id));
            } else {
                assert(claimed[k - running.len()].id@ == id);
            }
        }
    }
}

/// Ending the task of a recording and releasing the recording keeps the
/// running tasks exclusive: the recording is no longer marked, and the other
/// tasks stay as they were.
pub proof fn lemma_release_keeps_tasks_exclusive(active: Set<Seq<char>>, running: Seq<Seq<char>>, k: int)
    requires
        tasks_exclusive(active, running),
        0 <= k < running.len(),
    ensures
        tasks_exclusive(active.remove(running[k]), running.remove(k)),
{
    let rest = running.remove(k);
    assert forall|i: int, j: int| 0 <= i < j < rest.len() implies #[trigger] rest[i] != #[trigger] rest[j] by {
        let bi = if i < k { i } else { i + 1 };
        let bj = if j < k { j } else { j + 1 };
        assert(rest[i] == running[bi] && rest[j] == running[bj]);
    }
    assert forall|id: Seq<char>| #[trigger] active.remove(running[k]).contains(id) <==> rest.contains(id) by {
        if active.remove(running[k]).contains(id) {
            assert(running.contains(id));
            let m = choose|m: int| 0 <= m < running.len() && running[m] == id;
            assert(m != k);
            let n = if m < k { m } else { m - 1 };
            assert(rest[n] == id);
        }
        if rest.contains(id) {
            let n = choose|n: int| 0 <= n < rest.len() && rest[n] == id;
            let m = if n < k { n } else { n + 1 };
            assert(rest[n] == running[m]);
            assert(running.contains(id));
            if id == running[k] {
                if m < k {
                    assert(running[m] != running[k]);
                } else {
                    assert(running[k] != running[m]);
                }
            }
        }
    }
}

} // verus!

verus! {

/// The most actions a job can still issue from phase `p` before it ends.
pub open spec fn steps_left(p: JobPhase) -> nat {
    match p {
        JobPhase::SettingTranscribing => 16,
        JobPhase::LoggingTranscriptionStart => 15,
        JobPhase::Transcribing => 14,
        JobPhase::SavingTranscript => 13,
        JobPhase::WritingTranscript => 12,
        JobPhase::AttachingTranscript => 11,
        JobPhase::SettingTranscribed => 10,
        JobPhase::LoggingTranscriptionDone => 9,
        JobPhase::MarkingTranscriptionFailed(_) => 2,
        JobPhase::LoggingTranscriptionFailed(_) => 1,
        JobPhase::LoadingTranscript => 9,
        JobPhase::SettingSummarizing => 8,
        JobPhase::LoggingSummaryStart => 7,
        JobPhase::Summarizing => 6,
        JobPhase::SavingSummary => 5,
        JobPhase::WritingSummary => 4,
        JobPhase::AttachingSummary => 3,
        JobPhase::SettingCompleted => 2,
        JobPhase::LoggingSummaryDone => 1,
        JobPhase::MarkingSummaryFailed(_) => 2,
        JobPhase::LoggingSummaryFailed(_) => 1,
        JobPhase::Finished => 1,
    }
}

pub open spec fn is_finish(k: ActionKind) -> bool {
    k == ActionKind::FinishOk || k == ActionKind::FinishErr
}

proof fn lemma_run_kinds_len(p: JobPhase, outcomes: Seq<Result<(), AppError>>)
    ensures
        run_kinds(p, outcomes).len() == outcomes.len(),
    decreases outcomes.len(),
{
    if outcomes.len() > 0 {
        lemma_run_kinds_len(job_next(p, outcomes[0]).0, outcomes.drop_first());
    }
}

proof fn lemma_step_progresses(p: JobPhase, o: Result<(), AppError>)
    ensures
        is_finish(job_next(p, o).1) || (steps_left(job_next(p, o).0) < steps_left(p)
            && steps_left(p) > 1),
{
}

/// Every job ends: whatever the outcomes of its actions, a job issues its
/// final action within 16 actions after the first (a freshly imported
/// recording needs all of them when nothing fails).
pub proof fn lemma_job_ends(p: JobPhase, outcomes: Seq<Result<(), AppError>>)
    requires
        outcomes.len() >= steps_left(p),
    ensures
        exists|i: int| 0 <= i < steps_left(p) && is_finish(#[trigger] run_kinds(p, outcomes)[i]),
    decreases outcomes.len(),
{
    lemma_step_progresses(p, outcomes[0]);
    let next = job_next(p, outcomes[0]);
    assert(run_kinds(p, outcomes)[0] == next.1);
    if !is_finish(next.1) {
        lemma_job_ends(next.0, outcomes.drop_first());
        let i = choose|i: int|
            0 <= i < steps_left(next.0) && is_finish(
                #[trigger] run_kinds(next.0, outcomes.drop_first())[i],
            );
        lemma_run_kinds_len(next.0, outcomes.drop_first());
        assert(run_kinds(p, outcomes) == seq![next.1] + run_kinds(next.0, outcomes.drop_first()));
        assert(run_kinds(p, outcomes)[i + 1] == run_kinds(next.0, outcomes.drop_first())[i]);
    }
}

} // verus!
