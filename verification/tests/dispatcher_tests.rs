use remoterc::cargo::BuildError;
use remoterc::dispatcher::{dispatch, Job, JobEvent, JobStep, Stage};
use remoterc::file_handler::file_handler_error::FileHandlerError;

#[test]
fn a_job_gets_the_build_dir_of_its_millisecond() {
    let job = Job::new("/cache", 1656067975961, "x86_64-pc-windows-gnu", false, true, vec![1, 2]);
    assert_eq!(job.build_dir, "/cache/rrc/1656067975961");
    assert_eq!(job.target, "x86_64-pc-windows-gnu");
    assert!(!job.release);
    assert!(job.exe);
    assert_eq!(job.archive, vec![1, 2]);
}

#[test]
fn the_job_of_a_payload_is_a_debug_build_for_windows() {
    let job = Job::for_payload("/home/ryan/.cache", 1656067975961, vec![3]);
    assert_eq!(job.build_dir, "/home/ryan/.cache/rrc/1656067975961");
    assert_eq!(job.target, "x86_64-pc-windows-gnu");
    assert!(!job.release);
    assert!(job.exe);
    assert_eq!(job.archive, vec![3]);
}

#[test]
fn jobs_of_different_milliseconds_are_isolated() {
    let first = Job::new("/cache", 100, "t", false, false, vec![1]);
    let second = Job::new("/cache", 101, "t", false, false, vec![2]);
    assert_ne!(first.build_dir, second.build_dir);
    assert_eq!(first.archive, vec![1]);
    assert_eq!(second.archive, vec![2]);
}

#[test]
fn a_job_unpacks_its_archive_into_its_build_dir() {
    let job = Job::new("/cache", 9, "t", true, false, vec![4, 5, 6]);
    let (job, unpack) = job.unpack();
    assert_eq!(unpack.archive, vec![4, 5, 6]);
    assert_eq!(unpack.dest, "/cache/rrc/9");
    assert_eq!(job.build_dir, "/cache/rrc/9");
    assert_eq!(job.target, "t");
    assert!(job.release);
    assert!(!job.exe);
    assert!(job.archive.is_empty());
}

#[test]
fn a_job_runs_its_steps_in_order() {
    let (stage, step) = dispatch(Stage::Created, JobEvent::Started);
    assert_eq!(stage, Stage::Unpacking);
    assert!(matches!(step, JobStep::Unpack));
    let (stage, step) = dispatch(stage, JobEvent::Succeeded);
    assert_eq!(stage, Stage::ReadingManifest);
    assert!(matches!(step, JobStep::ReadManifest));
    let (stage, step) = dispatch(stage, JobEvent::Succeeded);
    assert_eq!(stage, Stage::Installing);
    assert!(matches!(step, JobStep::InstallTarget));
    let (stage, step) = dispatch(stage, JobEvent::Succeeded);
    assert_eq!(stage, Stage::Building);
    assert!(matches!(step, JobStep::Build));
    let (stage, step) = dispatch(stage, JobEvent::Succeeded);
    assert_eq!(stage, Stage::Collecting);
    assert!(matches!(step, JobStep::Collect));
    let (stage, step) = dispatch(stage, JobEvent::Succeeded);
    assert_eq!(stage, Stage::Packaging);
    assert!(matches!(step, JobStep::Package));
    let (stage, step) = dispatch(stage, JobEvent::Succeeded);
    assert_eq!(stage, Stage::Replied);
    assert!(matches!(step, JobStep::Reply));
}

#[test]
fn a_job_that_is_not_started_does_not_advance() {
    let (stage, step) = dispatch(Stage::Created, JobEvent::Succeeded);
    assert_eq!(stage, Stage::Created);
    assert!(matches!(step, JobStep::Nothing));
}

#[test]
fn a_job_starts_once() {
    let stages = [
        Stage::Unpacking,
        Stage::ReadingManifest,
        Stage::Installing,
        Stage::Building,
        Stage::Collecting,
        Stage::Packaging,
        Stage::Replied,
        Stage::Failed,
    ];
    for stage in stages {
        let (next, step) = dispatch(stage, JobEvent::Started);
        assert_eq!(next, stage);
        assert!(matches!(step, JobStep::Nothing));
    }
}

#[test]
fn a_failure_ends_the_job_at_every_stage() {
    let stages = [
        Stage::Created,
        Stage::Unpacking,
        Stage::ReadingManifest,
        Stage::Installing,
        Stage::Building,
        Stage::Collecting,
        Stage::Packaging,
    ];
    for stage in stages {
        let (next, step) = dispatch(stage, JobEvent::Failed(BuildError::Toolchain));
        assert_eq!(next, Stage::Failed);
        assert!(matches!(step, JobStep::Abort(BuildError::Toolchain)));
    }
}

#[test]
fn a_failure_carries_its_reason() {
    let reason = BuildError::MissingBinary(String::from("/b/target/debug/a.exe"));
    let (_, step) = dispatch(Stage::Collecting, JobEvent::Failed(reason));
    match step {
        JobStep::Abort(BuildError::MissingBinary(path)) => {
            assert_eq!(path, "/b/target/debug/a.exe")
        }
        other => panic!("unexpected: {:?}", other),
    }
}

#[test]
fn a_failed_job_does_nothing_more() {
    let events = [JobEvent::Started, JobEvent::Succeeded, JobEvent::Failed(BuildError::Manifest)];
    let mut stage = Stage::Failed;
    for event in events {
        let (next, step) = dispatch(stage, event);
        assert_eq!(next, Stage::Failed);
        assert!(matches!(step, JobStep::Nothing));
        stage = next;
    }
}

#[test]
fn a_job_that_replied_does_nothing_more() {
    let events = [JobEvent::Started, JobEvent::Succeeded, JobEvent::Failed(BuildError::Manifest)];
    let mut stage = Stage::Replied;
    for event in events {
        let (next, step) = dispatch(stage, event);
        assert_eq!(next, Stage::Replied);
        assert!(matches!(step, JobStep::Nothing));
        stage = next;
    }
}

#[test]
fn a_job_never_replies_after_a_failure() {
    let mut stage = Stage::Created;
    let events = vec![
        JobEvent::Started,
        JobEvent::Succeeded,
        JobEvent::Succeeded,
        JobEvent::Failed(BuildError::Toolchain),
        JobEvent::Succeeded,
        JobEvent::Succeeded,
        JobEvent::Succeeded,
        JobEvent::Succeeded,
        JobEvent::Succeeded,
    ];
    for event in events {
        let (next, step) = dispatch(stage, event);
        assert!(!matches!(step, JobStep::Reply));
        stage = next;
    }
    assert_eq!(stage, Stage::Failed);
}

#[test]
fn a_failure_of_the_files_ends_the_job() {
    let source = std::io::Error::new(std::io::ErrorKind::InvalidData, "corrupt archive");
    let reason = BuildError::Files(FileHandlerError::from(source));
    let (stage, step) = dispatch(Stage::Unpacking, JobEvent::Failed(reason));
    assert_eq!(stage, Stage::Failed);
    match step {
        JobStep::Abort(BuildError::Files(error)) => {
            assert_eq!(error.description(), "IO Error: corrupt archive")
        }
        other => panic!("unexpected: {:?}", other),
    }
}

#[test]
fn a_missing_manifest_ends_the_job() {
    let (stage, step) = dispatch(Stage::ReadingManifest, JobEvent::Failed(BuildError::Manifest));
    assert_eq!(stage, Stage::Failed);
    assert!(matches!(step, JobStep::Abort(BuildError::Manifest)));
}
