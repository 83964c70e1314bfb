//! The per-file job as a state machine. The caller performs each action it
//! is handed (identify, decode, prompt, write, ...) and feeds back what
//! happened; the machine decides what comes next.
use vstd::prelude::*;
use crate::decision::{decide, decide_spec, Decision, ImageMetadata, Interlace};
use crate::gate::{interpret_reply, verdict_of, Reply, Verdict};

verus! {

/// Settings shared read-only by every job of a run.
#[derive(Clone, Copy, Debug, PartialEq, Eq, Structural)]
pub struct RunConfig {
    pub allow_gif: bool,
    pub remain_profile: bool,
    pub force_overwrite: bool,
    pub single_thread: bool,
}

/// One file to process, and where its result goes (in place when absent).
#[derive(Clone, Debug)]
pub struct JobSpec {
    pub input_path: String,
    pub output_path: Option<String>,
}

/// The path a job writes: its output path, or its input path.
pub open spec fn target_of(job: JobSpec) -> Seq<char> {
    match job.output_path {
        Some(o) => o@,
        None => job.input_path@,
    }
}

/// The path that `job` writes to.
pub fn resolve_output(job: &JobSpec) -> (r: String)
    ensures
        r@ == target_of(*job),
{
    match &job.output_path {
        Some(o) => o.clone(),
        None => job.input_path.clone(),
    }
}

/// How a finished job ended.
#[derive(Clone, Copy, Debug, PartialEq, Eq, Structural)]
pub enum Outcome {
    Skipped,
    Written,
}

/// Why a job failed; the batch goes on with the other jobs.
#[derive(Clone, Copy, Debug, PartialEq, Eq, Structural)]
pub enum JobError {
    /// Reading the image's metadata or contents failed.
    IdentifyError,
    /// Setting the interlace scheme, removing profiles or encoding failed.
    TransformError,
    /// Creating the output directory or writing the file failed.
    IoError,
}

/// Where a job stands: each working state waits for the result of one
/// action.
#[derive(Clone, Copy, Debug, PartialEq, Eq, Structural)]
pub enum JobState {
    Identifying,
    Decoding,
    Preparing,
    Checking,
    Confirming,
    MakingParent,
    Writing,
    Reporting,
    Finished(Outcome),
    Failed(JobError),
}

/// What the caller does next.
#[derive(Clone, Copy, Debug, PartialEq, Eq, Structural)]
pub enum Action {
    /// Read the input's format and interlace scheme only.
    Identify,
    /// Read the input into an image that can be changed.
    Decode,
    /// Switch the image to line interlacing; remove its profiles when asked.
    Prepare { strip_profiles: bool },
    /// Find out whether the output path exists.
    CheckExists,
    /// Ask, under the console lock, whether to overwrite the output.
    Prompt,
    /// Create the output's parent directories.
    MakeParent,
    /// Encode the image in its own format and write it to the output path.
    EncodeWrite,
    /// Print, under the console lock, that the output has been interlaced.
    Report,
    /// Nothing more: the job is over.
    Stop,
}

/// What happened when the caller performed the last action.
#[derive(Clone, Debug)]
pub enum Event {
    Identified(ImageMetadata),
    IdentifyFailed,
    Decoded,
    DecodeFailed,
    Prepared,
    PrepareFailed,
    OutputExists(bool),
    Answered(Reply),
    ParentMade,
    ParentFailed,
    Written,
    EncodeFailed,
    WriteFailed,
    Reported,
}

/// The state in which a job starts; its first action is `Identify`.
pub open spec fn initial_state() -> JobState {
    JobState::Identifying
}

/// The action that a state waits on.
pub open spec fn pending(c: RunConfig, st: JobState) -> Action {
    match st {
        JobState::Identifying => Action::Identify,
        JobState::Decoding => Action::Decode,
        JobState::Preparing => Action::Prepare { strip_profiles: !c.remain_profile },
        JobState::Checking => Action::CheckExists,
        JobState::Confirming => Action::Prompt,
        JobState::MakingParent => Action::MakeParent,
        JobState::Writing => Action::EncodeWrite,
        JobState::Reporting => Action::Report,
        _ => Action::Stop,
    }
}

/// The state after `event` in state `st`, and the action to perform next.
/// An event that does not answer the state's action leaves the state as it
/// is and repeats that action.
pub open spec fn step_spec(c: RunConfig, st: JobState, event: Event) -> (JobState, Action) {
    match (st, event) {
        (JobState::Identifying, Event::Identified(m)) => {
            if decide_spec(m.interlace, m.format@, c.allow_gif) == Decision::Transform {
                (JobState::Decoding, Action::Decode)
            } else {
                (JobState::Finished(Outcome::Skipped), Action::Stop)
            }
        },
        (JobState::Identifying, Event::IdentifyFailed) => (
            JobState::Failed(JobError::IdentifyError),
            Action::Stop,
        ),
        (JobState::Decoding, Event::Decoded) => (
            JobState::Preparing,
            Action::Prepare { strip_profiles: !c.remain_profile },
        ),
        (JobState::Decoding, Event::DecodeFailed) => (
            JobState::Failed(JobError::IdentifyError),
            Action::Stop,
        ),
        (JobState::Preparing, Event::Prepared) => (JobState::Checking, Action::CheckExists),
        (JobState::Preparing, Event::PrepareFailed) => (
            JobState::Failed(JobError::TransformError),
            Action::Stop,
        ),
        (JobState::Checking, Event::OutputExists(exists)) => {
            if !exists {
                (JobState::MakingParent, Action::MakeParent)
            } else if c.force_overwrite {
                (JobState::Writing, Action::EncodeWrite)
            } else {
                (JobState::Confirming, Action::Prompt)
            }
        },
        (JobState::Confirming, Event::Answered(reply)) => match verdict_of(reply) {
            Verdict::Accept => (JobState::Writing, Action::EncodeWrite),
            Verdict::Decline => (JobState::Finished(Outcome::Skipped), Action::Stop),
            Verdict::AskAgain => (JobState::Confirming, Action::Prompt),
        },
        (JobState::MakingParent, Event::ParentMade) => (JobState::Writing, Action::EncodeWrite),
        (JobState::MakingParent, Event::ParentFailed) => (
            JobState::Failed(JobError::IoError),
            Action::Stop,
        ),
        (JobState::Writing, Event::Written) => (JobState::Reporting, Action::Report),
        (JobState::Writing, Event::EncodeFailed) => (
            JobState::Failed(JobError::TransformError),
            Action::Stop,
        ),
        (JobState::Writing, Event::WriteFailed) => (JobState::Failed(JobError::IoError), Action::Stop),
        (JobState::Reporting, Event::Reported) => (
            JobState::Finished(Outcome::Written),
            Action::Stop,
        ),
        _ => (st, pending(c, st)),
    }
}

/// Advances a job by one event.
pub fn step(c: &RunConfig, st: JobState, event: &Event) -> (r: (JobState, Action))
    ensures
        r == step_spec(*c, st, *event),
{
    let again = (st, pending_action(c, st));
    match st {
        JobState::Identifying => match event {
            Event::Identified(m) => {
                if decide(m, c.allow_gif) == Decision::Transform {
                    (JobState::Decoding, Action::Decode)
                } else {
                    (JobState::Finished(Outcome::Skipped), Action::Stop)
                }
            },
            Event::IdentifyFailed => (JobState::Failed(JobError::IdentifyError), Action::Stop),
            _ => again,
        },
        JobState::Decoding => match event {
            Event::Decoded => (
                JobState::Preparing,
                Action::Prepare { strip_profiles: !c.remain_profile },
            ),
            Event::DecodeFailed => (JobState::Failed(JobError::IdentifyError), Action::Stop),
            _ => again,
        },
        JobState::Preparing => match event {
            Event::Prepared => (JobState::Checking, Action::CheckExists),
            Event::PrepareFailed => (JobState::Failed(JobError::TransformError), Action::Stop),
            _ => again,
        },
        JobState::Checking => match event {
            Event::OutputExists(exists) => {
                if !*exists {
                    (JobState::MakingParent, Action::MakeParent)
                } else if c.force_overwrite {
                    (JobState::Writing, Action::EncodeWrite)
                } else {
                    (JobState::Confirming, Action::Prompt)
                }
            },
            _ => again,
        },
        JobState::Confirming => match event {
            Event::Answered(reply) => match interpret_reply(reply) {
                Verdict::Accept => (JobState::Writing, Action::EncodeWrite),
                Verdict::Decline => (JobState::Finished(Outcome::Skipped), Action::Stop),
                Verdict::AskAgain => (JobState::Confirming, Action::Prompt),
            },
            _ => again,
        },
        JobState::MakingParent => match event {
            Event::ParentMade => (JobState::Writing, Action::EncodeWrite),
            Event::ParentFailed => (JobState::Failed(JobError::IoError), Action::Stop),
            _ => again,
        },
        JobState::Writing => match event {
            Event::Written => (JobState::Reporting, Action::Report),
            Event::EncodeFailed => (JobState::Failed(JobError::TransformError), Action::Stop),
            Event::WriteFailed => (JobState::Failed(JobError::IoError), Action::Stop),
            _ => again,
        },
        JobState::Reporting => match event {
            Event::Reported => (JobState::Finished(Outcome::Written), Action::Stop),
            _ => again,
        },
        _ => again,
    }
}

/// The action that `st` waits on.
pub fn pending_action(c: &RunConfig, st: JobState) -> (r: Action)
    ensures
        r == pending(*c, st),
{
    match st {
        JobState::Identifying => Action::Identify,
        JobState::Decoding => Action::Decode,
        JobState::Preparing => Action::Prepare { strip_profiles: !c.remain_profile },
        JobState::Checking => Action::CheckExists,
        JobState::Confirming => Action::Prompt,
        JobState::MakingParent => Action::MakeParent,
        JobState::Writing => Action::EncodeWrite,
        JobState::Reporting => Action::Report,
        _ => Action::Stop,
    }
}

/// The actions that answer `events`, fed one after another from `st`.
pub open spec fn actions_from(c: RunConfig, st: JobState, events: Seq<Event>) -> Seq<Action>
    decreases events.len(),
{
    if events.len() == 0 {
        seq![]
    } else {
        let (next, a) = step_spec(c, st, events[0]);
        seq![a] + actions_from(c, next, events.drop_first())
    }
}

/// One action answers each event.
pub proof fn lemma_actions_len(c: RunConfig, st: JobState, events: Seq<Event>)
    ensures
        actions_from(c, st, events).len() == events.len(),
    decreases events.len(),
{
    if events.len() > 0 {
        lemma_actions_len(c, step_spec(c, st, events[0]).0, events.drop_first());
    }
}

/// The state after `events`, fed one after another from `st`.
pub open spec fn state_after(c: RunConfig, st: JobState, events: Seq<Event>) -> JobState
    decreases events.len(),
{
    if events.len() == 0 {
        st
    } else {
        state_after(c, step_spec(c, st, events[0]).0, events.drop_first())
    }
}

/// The job is over.
pub open spec fn is_over(st: JobState) -> bool {
    st is Finished || st is Failed
}

/// Every identification among `events` leads to the skip decision.
pub open spec fn all_identified_skip(c: RunConfig, events: Seq<Event>) -> bool {
    forall|i: int|
        0 <= i < events.len() && #[trigger] events[i] is Identified ==> decide_spec(
            events[i]->Identified_0.interlace,
            events[i]->Identified_0.format@,
            c.allow_gif,
        ) == Decision::Skip
}

/// Once a job is over it stays over and asks for nothing more.
pub proof fn lemma_over_stays_over(c: RunConfig, st: JobState, events: Seq<Event>)
    requires
        is_over(st),
    ensures
        state_after(c, st, events) == st,
        forall|k: int| 0 <= k < events.len() ==> #[trigger] actions_from(c, st, events)[k] == Action::Stop,
    decreases events.len(),
{
    if events.len() > 0 {
        lemma_over_stays_over(c, st, events.drop_first());
        lemma_actions_len(c, st, events.drop_first());
        let rest = actions_from(c, st, events.drop_first());
        assert forall|k: int| 0 <= k < events.len() implies #[trigger] actions_from(c, st, events)[k] == Action::Stop by {
            if k > 0 {
                assert(actions_from(c, st, events)[k] == rest[k - 1]);
            }
        }
    }
}

/// A file for which every identification leads to the skip decision is
/// identified and nothing else: it is never decoded, prompted for, encoded
/// or written.
pub proof fn lemma_skipped_file_untouched(c: RunConfig, st: JobState, events: Seq<Event>)
    requires
        st == initial_state() || is_over(st),
        all_identified_skip(c, events),
    ensures
        forall|k: int|
            0 <= k < events.len() ==> (#[trigger] actions_from(c, st, events)[k] == Action::Identify
                || actions_from(c, st, events)[k] == Action::Stop),
    decreases events.len(),
{
    if events.len() > 0 {
        let next = step_spec(c, st, events[0]).0;
        let tail = events.drop_first();
        assert(all_identified_skip(c, tail)) by {
            assert forall|i: int| 0 <= i < tail.len() && #[trigger] tail[i] is Identified implies decide_spec(
                tail[i]->Identified_0.interlace,
                tail[i]->Identified_0.format@,
                c.allow_gif,
            ) == Decision::Skip by {
                assert(tail[i] == events[i + 1]);
            }
        }
        lemma_skipped_file_untouched(c, next, tail);
        lemma_actions_len(c, next, tail);
        let all = actions_from(c, st, events);
        let rest = actions_from(c, next, tail);
        assert forall|k: int| 0 <= k < events.len() implies (#[trigger] all[k] == Action::Identify
            || all[k] == Action::Stop) by {
            if k > 0 {
                assert(all[k] == rest[k - 1]);
            }
        }
    }
}

/// A file that is already line-interlaced is never rewritten: whatever
/// happens, the job only identifies it and stops.
pub proof fn lemma_interlaced_never_rewritten(c: RunConfig, events: Seq<Event>)
    requires
        forall|i: int|
            0 <= i < events.len() && #[trigger] events[i] is Identified ==> events[i]->Identified_0.interlace
                == Interlace::Line,
    ensures
        forall|k: int|
            0 <= k < events.len() ==> (#[trigger] actions_from(c, initial_state(), events)[k]
                == Action::Identify || actions_from(c, initial_state(), events)[k] == Action::Stop),
{
    lemma_skipped_file_untouched(c, initial_state(), events);
}

/// Without GIF support a GIF file is never rewritten nor prompted for: the
/// job only identifies it and stops.
pub proof fn lemma_gif_untouched_without_gif(c: RunConfig, events: Seq<Event>)
    requires
        !c.allow_gif,
        forall|i: int|
            0 <= i < events.len() && #[trigger] events[i] is Identified ==> events[i]->Identified_0.format@
                == "GIF"@,
    ensures
        forall|k: int|
            0 <= k < events.len() ==> (#[trigger] actions_from(c, initial_state(), events)[k]
                == Action::Identify || actions_from(c, initial_state(), events)[k] == Action::Stop),
{
    reveal_strlit("GIF");
    reveal_strlit("JPEG");
    reveal_strlit("PNG");
    assert("GIF"@ != "JPEG"@) by {
        assert("GIF"@.len() != "JPEG"@.len());
    }
    assert("GIF"@ != "PNG"@) by {
        assert("GIF"@[0] != "PNG"@[0]);
    }
    lemma_skipped_file_untouched(c, initial_state(), events);
}

/// With forced overwriting no prompt is ever issued, and an existing
/// output goes straight to encoding and writing.
pub proof fn lemma_force_never_prompts(c: RunConfig, st: JobState, events: Seq<Event>)
    requires
        c.force_overwrite,
        st != JobState::Confirming,
    ensures
        step_spec(c, JobState::Checking, Event::OutputExists(true)) == (
            JobState::Writing,
            Action::EncodeWrite,
        ),
        state_after(c, st, events) != JobState::Confirming,
        forall|k: int| 0 <= k < events.len() ==> #[trigger] actions_from(c, st, events)[k] != Action::Prompt,
    decreases events.len(),
{
    if events.len() > 0 {
        let next = step_spec(c, st, events[0]).0;
        let tail = events.drop_first();
        lemma_force_never_prompts(c, next, tail);
        lemma_actions_len(c, next, tail);
        let all = actions_from(c, st, events);
        let rest = actions_from(c, next, tail);
        assert forall|k: int| 0 <= k < events.len() implies #[trigger] all[k] != Action::Prompt by {
            if k > 0 {
                assert(all[k] == rest[k - 1]);
            }
        }
    }
}

/// A declined overwrite ends the job as skipped: nothing is encoded or
/// written afterwards, so the existing output keeps its bytes.
pub proof fn lemma_declined_output_kept(c: RunConfig, reply: Reply, events: Seq<Event>)
    requires
        verdict_of(reply) == Verdict::Decline,
    ensures
        state_after(c, JobState::Confirming, seq![Event::Answered(reply)] + events)
            == JobState::Finished(Outcome::Skipped),
        forall|k: int|
            0 <= k <= events.len() ==> #[trigger] actions_from(
                c,
                JobState::Confirming,
                seq![Event::Answered(reply)] + events,
            )[k] == Action::Stop,
{
    let all_events = seq![Event::Answered(reply)] + events;
    assert(all_events.drop_first() =~= events);
    let done = JobState::Finished(Outcome::Skipped);
    lemma_over_stays_over(c, done, events);
    lemma_actions_len(c, done, events);
    let all = actions_from(c, JobState::Confirming, all_events);
    let rest = actions_from(c, done, events);
    assert forall|k: int| 0 <= k <= events.len() implies #[trigger] all[k] == Action::Stop by {
        if k > 0 {
            assert(all[k] == rest[k - 1]);
        }
    }
}

} // verus!
