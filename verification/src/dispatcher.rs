//! The build dispatcher: the steps that turn one inbound archive into one
//! outbound archive.
//!
//! A job unpacks the project into a build directory of its own, reads the
//! manifest, makes sure that the target is installed, builds, collects the
//! binaries that the manifest declares, and packages them for the reply.
//! Each step starts when the one before it has succeeded. A step that fails
//! ends the job, and only the job: the connection stays as it is.

use vstd::prelude::*;
use crate::cargo::BuildError;
use crate::file_handler::{build_dir, lemma_build_dirs_distinct, process, Unpack};

verus! {

/// One build request: the directory in which it is unpacked and built, the
/// target it is built for, whether it is a release build, whether the
/// binaries of the target carry the executable extension, and the archive
/// that came in.
#[derive(Debug)]
pub struct Job {
    pub build_dir: String,
    pub target: String,
    pub release: bool,
    pub exe: bool,
    pub archive: Vec<u8>,
}

/// The target that the server builds for.
pub open spec fn server_target() -> Seq<char> {
    "x86_64-pc-windows-gnu"@
}

impl Job {
    /// The job for the archive that came in at `timestamp`: it gets the
    /// build directory that this millisecond names.
    pub fn new(
        cache_root: &str,
        timestamp: u128,
        target: &str,
        release: bool,
        exe: bool,
        archive: Vec<u8>,
    ) -> (r: Job)
        ensures
            r.build_dir@ == build_dir(cache_root@, timestamp as nat),
            r.target@ == target@,
            r.release == release,
            r.exe == exe,
            r.archive@ == archive@,
    {
        let unpack = process(cache_root, timestamp, archive);
        Job {
            build_dir: unpack.dest,
            target: String::from_str(target),
            release,
            exe,
            archive: unpack.archive,
        }
    }

    /// The job that the server starts for the payload that came in at
    /// `timestamp`: a debug build for the target of the server, whose
    /// binaries carry the executable extension.
    pub fn for_payload(cache_root: &str, timestamp: u128, archive: Vec<u8>) -> (r: Job)
        ensures
            r.build_dir@ == build_dir(cache_root@, timestamp as nat),
            r.target@ == server_target(),
            !r.release,
            r.exe,
            r.archive@ == archive@,
    {
        Job::new(cache_root, timestamp, "x86_64-pc-windows-gnu", false, true, archive)
    }

    /// What the first step of the job unpacks, and where. The job keeps its
    /// directory, its target and its mode, and lets go of the archive.
    pub fn unpack(self) -> (r: (Job, Unpack))
        ensures
            r.0.build_dir == self.build_dir,
            r.0.target == self.target,
            r.0.release == self.release,
            r.0.exe == self.exe,
            r.0.archive@.len() == 0,
            r.1.archive == self.archive,
            r.1.dest@ == self.build_dir@,
    {
        let dest = self.build_dir.clone();
        (
            Job {
                build_dir: self.build_dir,
                target: self.target,
                release: self.release,
                exe: self.exe,
                archive: Vec::new(),
            },
            Unpack { archive: self.archive, dest },
        )
    }
}

/// Job isolation: two jobs that are created at different milliseconds are
/// unpacked and built in different directories.
pub proof fn lemma_jobs_are_isolated(first: Job, second: Job, cache_root: Seq<char>, a: nat, b: nat)
    requires
        first.build_dir@ == build_dir(cache_root, a),
        second.build_dir@ == build_dir(cache_root, b),
        a != b,
    ensures
        first.build_dir@ != second.build_dir@,
{
    lemma_build_dirs_distinct(cache_root, a, b);
}

/// Where a job stands.
#[derive(Clone, Copy, Debug, PartialEq, Eq, Structural)]
pub enum Stage {
    /// The job is created; nothing has been done.
    Created,
    /// The archive is being unpacked into the build directory.
    Unpacking,
    /// The manifest is being read.
    ReadingManifest,
    /// The target is being installed.
    Installing,
    /// The build is running.
    Building,
    /// The declared binaries are being looked for.
    Collecting,
    /// The binaries are being packaged.
    Packaging,
    /// The reply is ready.
    Replied,
    /// The job has failed.
    Failed,
}

/// What a job is told about the step that it asked for.
#[derive(Debug)]
pub enum JobEvent {
    /// The job is to begin.
    Started,
    /// The step succeeded.
    Succeeded,
    /// The step failed, for this reason.
    Failed(BuildError),
}

/// The step that a job asks for.
#[derive(Debug)]
pub enum JobStep {
    /// Unpack the archive into the build directory.
    Unpack,
    /// Read the manifest of the project.
    ReadManifest,
    /// Make sure that the target is installed.
    InstallTarget,
    /// Run the build.
    Build,
    /// Look for the declared binaries.
    Collect,
    /// Package the binaries.
    Package,
    /// Hand the archive of the binaries over as the reply.
    Reply,
    /// Give the job up, for this reason.
    Abort(BuildError),
    /// Nothing.
    Nothing,
}

/// Whether a job in this stage has ended.
pub open spec fn ended(stage: Stage) -> bool {
    stage is Replied || stage is Failed
}

/// The stage that follows `stage` when its step has succeeded, and the step
/// that is due then.
pub open spec fn advance(stage: Stage) -> (Stage, JobStep) {
    match stage {
        Stage::Created => (Stage::Created, JobStep::Nothing),
        Stage::Unpacking => (Stage::ReadingManifest, JobStep::ReadManifest),
        Stage::ReadingManifest => (Stage::Installing, JobStep::InstallTarget),
        Stage::Installing => (Stage::Building, JobStep::Build),
        Stage::Building => (Stage::Collecting, JobStep::Collect),
        Stage::Collecting => (Stage::Packaging, JobStep::Package),
        Stage::Packaging => (Stage::Replied, JobStep::Reply),
        Stage::Replied => (Stage::Replied, JobStep::Nothing),
        Stage::Failed => (Stage::Failed, JobStep::Nothing),
    }
}

/// The stage that follows `stage` on `event`, and the step that the job asks
/// for.
pub open spec fn transition(stage: Stage, event: JobEvent) -> (Stage, JobStep) {
    match event {
        JobEvent::Started => if stage is Created {
            (Stage::Unpacking, JobStep::Unpack)
        } else {
            (stage, JobStep::Nothing)
        },
        JobEvent::Succeeded => advance(stage),
        JobEvent::Failed(reason) => if ended(stage) {
            (stage, JobStep::Nothing)
        } else {
            (Stage::Failed, JobStep::Abort(reason))
        },
    }
}

/// The stage in which a job that starts in `start` stands after `events`.
pub open spec fn stage_after(start: Stage, events: Seq<JobEvent>) -> Stage
    decreases events.len(),
{
    if events.len() == 0 {
        start
    } else {
        transition(stage_after(start, events.drop_last()), events.last()).0
    }
}

/// The step that a job that starts in `start` asks for on the event at
/// `index`.
pub open spec fn step_at(start: Stage, events: Seq<JobEvent>, index: int) -> JobStep {
    transition(stage_after(start, events.take(index)), events[index]).1
}

/// How many of `events` report success.
pub open spec fn successes(events: Seq<JobEvent>) -> nat
    decreases events.len(),
{
    if events.len() == 0 {
        0
    } else {
        successes(events.drop_last()) + if events.last() is Succeeded {
            1nat
        } else {
            0nat
        }
    }
}

/// How many steps a job in this stage has behind it.
pub open spec fn progress(stage: Stage) -> nat {
    match stage {
        Stage::Created => 0,
        Stage::Unpacking => 0,
        Stage::ReadingManifest => 1,
        Stage::Installing => 2,
        Stage::Building => 3,
        Stage::Collecting => 4,
        Stage::Packaging => 5,
        Stage::Replied => 6,
        Stage::Failed => 0,
    }
}

/// One step of a job: what it does in `stage` when `event` happens.
///
/// The job begins with unpacking. Each success leads to the next step, in
/// this order: unpack, read the manifest, install the target, build, collect
/// the binaries, package them, reply. A failure ends the job with its
/// reason. A job that has replied or failed does nothing more.
pub fn dispatch(stage: Stage, event: JobEvent) -> (r: (Stage, JobStep))
    ensures
        r == transition(stage, event),
{
    match event {
        JobEvent::Started => match stage {
            Stage::Created => (Stage::Unpacking, JobStep::Unpack),
            _ => (stage, JobStep::Nothing),
        },
        JobEvent::Succeeded => match stage {
            Stage::Created => (Stage::Created, JobStep::Nothing),
            Stage::Unpacking => (Stage::ReadingManifest, JobStep::ReadManifest),
            Stage::ReadingManifest => (Stage::Installing, JobStep::InstallTarget),
            Stage::Installing => (Stage::Building, JobStep::Build),
            Stage::Building => (Stage::Collecting, JobStep::Collect),
            Stage::Collecting => (Stage::Packaging, JobStep::Package),
            Stage::Packaging => (Stage::Replied, JobStep::Reply),
            Stage::Replied => (Stage::Replied, JobStep::Nothing),
            Stage::Failed => (Stage::Failed, JobStep::Nothing),
        },
        JobEvent::Failed(reason) => match stage {
            Stage::Replied => (Stage::Replied, JobStep::Nothing),
            Stage::Failed => (Stage::Failed, JobStep::Nothing),
            _ => (Stage::Failed, JobStep::Abort(reason)),
        },
    }
}

/// The events up to `index` plus the event at `index` are the events up to
/// `index + 1`.
proof fn lemma_stage_step(start: Stage, events: Seq<JobEvent>, index: int)
    requires
        0 <= index < events.len(),
    ensures
        stage_after(start, events.take(index + 1)) == transition(
            stage_after(start, events.take(index)),
            events[index],
        ).0,
{
    let prefix = events.take(index + 1);
    assert(prefix.drop_last() =~= events.take(index));
    assert(prefix.last() == events[index]);
}

/// A job that has ended stays as it is and asks for nothing.
proof fn lemma_ended_stays(start: Stage, events: Seq<JobEvent>, from: int, to: int)
    requires
        0 <= from <= to <= events.len(),
        ended(stage_after(start, events.take(from))),
    ensures
        stage_after(start, events.take(to)) == stage_after(start, events.take(from)),
        forall|k: int| from <= k < to ==> (#[trigger] step_at(start, events, k)) is Nothing,
    decreases to - from,
{
    if from < to {
        lemma_ended_stays(start, events, from, to - 1);
        lemma_stage_step(start, events, to - 1);
    }
}

/// A failure is final: once a step has failed, the job never replies.
pub proof fn lemma_failure_is_final(events: Seq<JobEvent>, failure: int)
    requires
        0 <= failure < events.len(),
        events[failure] is Failed,
    ensures
        forall|k: int|
            failure < k < events.len() ==> (#[trigger] step_at(Stage::Created, events, k)) is Nothing,
        !(stage_after(Stage::Created, events.take(failure)) is Replied) ==> stage_after(
            Stage::Created,
            events,
        ) is Failed,
        !(stage_after(Stage::Created, events.take(failure)) is Replied) ==> forall|k: int|
            0 <= k < events.len() ==> !((#[trigger] step_at(Stage::Created, events, k)) is Reply),
{
    let start = Stage::Created;
    lemma_stage_step(start, events, failure);
    lemma_ended_stays(start, events, failure + 1, events.len() as int);
    assert(events.take(events.len() as int) =~= events);
    if !(stage_after(start, events.take(failure)) is Replied) {
        assert forall|k: int| 0 <= k < events.len() implies !((#[trigger] step_at(
            start,
            events,
            k,
        )) is Reply) by {
            if k < failure {
                if step_at(start, events, k) is Reply {
                    lemma_stage_step(start, events, k);
                    lemma_ended_stays(start, events, k + 1, failure);
                }
            }
        }
    }
}

/// A job has as many steps behind it as it has stages behind it: no more
/// than were reported as succeeded.
pub proof fn lemma_progress_is_earned(events: Seq<JobEvent>)
    ensures
        progress(stage_after(Stage::Created, events)) <= successes(events),
    decreases events.len(),
{
    if events.len() > 0 {
        lemma_progress_is_earned(events.drop_last());
    }
}

/// A job replies only after each of its six steps has succeeded.
pub proof fn lemma_reply_needs_every_step(events: Seq<JobEvent>, index: int)
    requires
        0 <= index < events.len(),
        step_at(Stage::Created, events, index) is Reply,
    ensures
        successes(events.take(index + 1)) >= 6,
        stage_after(Stage::Created, events.take(index)) is Packaging,
        events[index] is Succeeded,
{
    lemma_stage_step(Stage::Created, events, index);
    lemma_progress_is_earned(events.take(index + 1));
}

} // verus!
