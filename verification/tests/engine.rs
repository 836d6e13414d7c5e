use file_transfer::checksum::{hex, sha256_hex};
use file_transfer::engine::{file_packed_event, Action, Event, JobRun, Outcome, Stage};
use file_transfer::error::CoreError;
use file_transfer::model::{config_for_cpus, Config, DestinationSpec, JobId, JobSpec, JobStatus};
use file_transfer::naming::Timestamp;
use file_transfer::registry::JobRegistry;

fn spec(source: &str, remove_source: bool, checksum: bool) -> JobSpec {
    JobSpec {
        source: source.into(),
        destination: DestinationSpec::Local { dir: "/tmp/ft_e2e/out".into() },
        remove_source,
        checksum,
    }
}

/// Drives a run with the given outcomes; returns all events and the last action.
fn drive(run: JobRun, outcomes: Vec<Outcome>) -> (JobRun, Vec<Event>, Action) {
    let mut run = run;
    let mut events = Vec::new();
    let mut action = Action::Stop;
    for o in outcomes {
        let (r, ev, a) = run.advance(o);
        run = r;
        events.extend(ev);
        action = a;
    }
    (run, events, action)
}

#[test]
fn submit_produces_archive_in_destination() {
    let (run, first) = JobRun::start(JobId(1), spec("/tmp/ft_e2e/payload", false, true), 6);
    assert!(matches!(first, Action::CountFiles { ref source } if source == "/tmp/ft_e2e/payload"));
    let archive = b"zip bytes".to_vec();
    let sha = sha256_hex(&archive);
    let now = Timestamp::new(2026, 6, 28, 15, 30, 12).unwrap();
    let (run, r1, a1) = run.advance(Outcome::Counted(Ok(2)));
    assert!(matches!(a1, Action::ReadClock));
    assert!(matches!(&r1[..], [Event::Progress { status: JobStatus::Archiving { done: 0, total: 2 }, .. }]));
    let (run, _, a2) = run.advance(Outcome::Clock(now));
    assert!(matches!(a2, Action::Stage { ref name } if name == "payload_2026-06-28_153012.zip"));
    let staged = "/tmp/ft_e2e/out/.payload_2026-06-28_153012.zip.part".to_string();
    let (run, _, a3) = run.advance(Outcome::Staged(Ok(staged.clone())));
    assert!(matches!(a3, Action::Archive { ref staged, level: 6, total: 2, .. } if staged.ends_with(".part")));
    let (run, _, a4) = run.advance(Outcome::Archived { result: Ok(2), canceled: false });
    assert!(matches!(a4, Action::Hash { .. }));
    let (run, r5, a5) = run.advance(Outcome::Hashed(Ok(sha.clone())));
    assert!(matches!(&r5[..], [Event::Progress { status: JobStatus::Transferring, .. }]));
    assert!(matches!(a5, Action::Deliver { ref name, .. } if name == "payload_2026-06-28_153012.zip"));
    let output = "/tmp/ft_e2e/out/payload_2026-06-28_153012.zip".to_string();
    let (run, events, last) = run.advance(Outcome::Delivered(Ok(output.clone())));
    assert!(matches!(last, Action::Stop));
    assert!(matches!(run.stage, Stage::Finished));
    match &events[..] {
        [Event::Log { id: Some(JobId(1)), line }, Event::Finished { id: JobId(1), status: JobStatus::Done { output: o, sha256 } }] => {
            assert_eq!(line, &format!("#1 готово: {output}"));
            assert!(o.ends_with(".zip"));
            let sha = sha256.clone().expect("sha256 was requested but is missing");
            assert_eq!(sha.len(), 64, "sha256 must be 64 hex characters");
        }
        other => panic!("expected Done, got: {other:?}"),
    }
}

#[test]
fn missing_source_reports_failure() {
    let (run, _) = JobRun::start(JobId(10), spec("/tmp/ft_e2e/does_not_exist", false, false), 6);
    let err = CoreError::NotADirectory("/tmp/ft_e2e/does_not_exist".into());
    let (run, events, action) = run.advance(Outcome::Counted(Err(err)));
    assert!(matches!(action, Action::Stop));
    assert!(matches!(run.stage, Stage::Finished));
    let failed = matches!(events.last(), Some(Event::Finished { id: JobId(10), status: JobStatus::Failed { .. } }));
    assert!(failed, "a missing source must produce Failed");
    match &events[..] {
        [Event::Log { line, .. }, Event::Finished { status: JobStatus::Failed { error }, .. }] => {
            assert_eq!(error, "source is not a directory: /tmp/ft_e2e/does_not_exist");
            assert_eq!(line, &format!("#10 ошибка: {error}"));
        }
        _ => panic!(),
    }
}

#[test]
fn cancel_stops_archiving() {
    let (run, _) = JobRun::start(JobId(3), spec("/tmp/ft_cancel/data", true, false), 6);
    let now = Timestamp::new(2026, 6, 28, 15, 30, 12).unwrap();
    let (run, _, _) = drive(run, vec![Outcome::Counted(Ok(1)), Outcome::Clock(now), Outcome::Staged(Ok("/tmp/s.part".into()))]);
    let (run, ev, action) = run.advance(Outcome::Archived { result: Err(CoreError::Canceled), canceled: true });
    assert!(ev.is_empty());
    assert!(matches!(action, Action::Discard { ref staged } if staged == "/tmp/s.part"));
    let (run, ev, action) = run.advance(Outcome::Discarded);
    assert!(matches!(action, Action::Stop));
    assert!(matches!(run.stage, Stage::Finished));
    assert!(matches!(&ev[..], [Event::Finished { id: JobId(3), status: JobStatus::Canceled }]));
}

#[test]
fn cancel_flag_after_packing_discards_the_archive() {
    let (run, _) = JobRun::start(JobId(4), spec("/src", false, false), 6);
    let now = Timestamp::new(2026, 6, 28, 15, 30, 12).unwrap();
    let (_, ev, action) = drive(
        run,
        vec![Outcome::Counted(Ok(1)), Outcome::Clock(now), Outcome::Staged(Ok("/tmp/s.part".into())),
             Outcome::Archived { result: Ok(1), canceled: true }, Outcome::Discarded],
    );
    assert!(matches!(action, Action::Stop));
    assert!(matches!(&ev[..], [Event::Progress { .. }, Event::Finished { status: JobStatus::Canceled, .. }]));
}

#[test]
fn source_is_removed_only_after_delivery() {
    let (run, _) = JobRun::start(JobId(5), spec("/src", true, false), 6);
    let now = Timestamp::new(2026, 6, 28, 15, 30, 12).unwrap();
    let (run, _, action) = drive(
        run,
        vec![Outcome::Counted(Ok(1)), Outcome::Clock(now), Outcome::Staged(Ok("/tmp/s.part".into())),
             Outcome::Archived { result: Ok(1), canceled: false }],
    );
    assert!(matches!(action, Action::Deliver { .. }));
    let (run, ev, action) = run.advance(Outcome::Delivered(Ok("/out/src.zip".into())));
    assert!(ev.is_empty());
    assert!(matches!(action, Action::RemoveSource { ref source } if source == "/src"));
    let (_, ev, action) = run.advance(Outcome::SourceRemoved(Ok(())));
    assert!(matches!(action, Action::Stop));
    assert!(matches!(&ev[..], [Event::Log { .. }, Event::Finished { status: JobStatus::Done { sha256: None, .. }, .. }]));
}

#[test]
fn failed_delivery_keeps_the_source() {
    let (run, _) = JobRun::start(JobId(6), spec("/src", true, false), 6);
    let now = Timestamp::new(2026, 6, 28, 15, 30, 12).unwrap();
    let (_, ev, action) = drive(
        run,
        vec![Outcome::Counted(Ok(1)), Outcome::Clock(now), Outcome::Staged(Ok("/tmp/s.part".into())),
             Outcome::Archived { result: Ok(1), canceled: false },
             Outcome::Delivered(Err(CoreError::DestinationExists("src.zip".into())))],
    );
    assert!(matches!(action, Action::Stop));
    match ev.last() {
        Some(Event::Finished { status: JobStatus::Failed { error }, .. }) => {
            assert_eq!(error, "destination already contains the file: src.zip")
        }
        _ => panic!(),
    }
}

#[test]
fn unexpected_outcome_repeats_the_pending_action() {
    let (run, _) = JobRun::start(JobId(7), spec("/src", false, false), 6);
    let (run, ev, action) = run.advance(Outcome::Discarded);
    assert!(ev.is_empty());
    assert!(matches!(run.stage, Stage::Counting));
    assert!(matches!(action, Action::CountFiles { ref source } if source == "/src"));
}

#[test]
fn finished_run_stays_finished() {
    let (run, _) = JobRun::start(JobId(8), spec("/src", false, false), 6);
    let (run, _, _) = run.advance(Outcome::Counted(Err(CoreError::Canceled)));
    let (run, ev, action) = run.advance(Outcome::Counted(Ok(3)));
    assert!(ev.is_empty());
    assert!(matches!(action, Action::Stop));
    assert!(matches!(run.stage, Stage::Finished));
}

#[test]
fn registry_hands_out_increasing_ids() {
    let mut reg = JobRegistry::new();
    let (a, flag_a) = reg.register();
    let (b, _) = reg.register();
    assert_eq!(a, JobId(1));
    assert_eq!(b, JobId(2));
    assert!(!flag_a.load(std::sync::atomic::Ordering::Relaxed));
    assert!(reg.cancel(a));
    assert!(flag_a.load(std::sync::atomic::Ordering::Relaxed));
    assert!(!reg.cancel(JobId(99)));
}

#[test]
fn job_id_text_and_default_config() {
    assert_eq!(JobId(42).text(), "#42");
    let cfg = Config::default();
    assert!(cfg.jobs >= 1);
    assert_eq!(cfg.compression_level, 6);
}

#[test]
fn hex_and_sha256() {
    assert_eq!(hex(&[0x00, 0x0f, 0xab, 0xff]), "000fabff");
    assert_eq!(
        sha256_hex(b"abc"),
        "ba7816bf8f01cfea414140de5dae2223b00361a396177a9cb410ff61f20015ad"
    );
}

#[test]
fn error_messages() {
    assert_eq!(CoreError::Canceled.message(), "operation canceled");
    assert_eq!(CoreError::Ssh("x".into()).message(), "SSH error: x");
    assert_eq!(CoreError::Auth("x".into()).message(), "SSH authentication failed: x");
    assert_eq!(CoreError::Secret("x".into()).message(), "keychain error: x");
    assert_eq!(CoreError::DestinationExists("a.zip".into()).message(), "destination already contains the file: a.zip");
    assert_eq!(CoreError::Io(std::io::Error::other("boom")).message(), "I/O error: boom");
    assert!(CoreError::TooLarge.message().starts_with("archive exceeds"));
}

#[test]
fn one_finish_event_per_run() {
    let (run, _) = JobRun::start(JobId(9), spec("/src", false, false), 6);
    let now = Timestamp::new(2026, 6, 28, 15, 30, 12).unwrap();
    let (run, events, action) = drive(
        run,
        vec![
            Outcome::Counted(Ok(1)),
            Outcome::Clock(now),
            Outcome::Staged(Ok("/tmp/s.part".into())),
            Outcome::Archived { result: Ok(1), canceled: false },
            Outcome::Delivered(Ok("/out/src.zip".into())),
            Outcome::Discarded,
            Outcome::Counted(Ok(5)),
        ],
    );
    assert!(matches!(action, Action::Stop));
    assert!(matches!(run.stage, Stage::Finished));
    let finishes = events.iter().filter(|e| matches!(e, Event::Finished { .. })).count();
    assert_eq!(finishes, 1);
    assert!(matches!(events.last(), Some(Event::Finished { .. })));
}

#[test]
fn packed_files_count_from_one() {
    let total = 3;
    let counts: Vec<u64> = (0..total)
        .map(|before| match file_packed_event(JobId(4), before, total) {
            Event::Progress { id, status: JobStatus::Archiving { done, total: t } } => {
                assert_eq!(id, JobId(4));
                assert_eq!(t, total);
                done
            }
            other => panic!("unexpected event: {other:?}"),
        })
        .collect();
    assert_eq!(counts, vec![1, 2, 3]);
}

#[test]
fn registry_ids_count_from_one() {
    let mut reg = JobRegistry::new();
    let ids: Vec<u64> = (0..5).map(|_| reg.register().0 .0).collect();
    assert_eq!(ids, vec![1, 2, 3, 4, 5]);
}

#[test]
fn hex_of_joined_bytes_is_joined_hex() {
    let a = [0x01u8, 0x23];
    let b = [0x45u8, 0x67, 0x89];
    let joined: Vec<u8> = a.iter().chain(b.iter()).copied().collect();
    assert_eq!(hex(&joined), format!("{}{}", hex(&a), hex(&b)));
    assert_eq!(hex(&joined), "0123456789");
    assert_ne!(hex(&[0x01, 0x23]), hex(&[0x12, 0x03]));
    assert!(hex(&[0xde, 0xad, 0xbe, 0xef]).chars().all(|c| c.is_ascii_hexdigit() && !c.is_ascii_uppercase()));
    assert!(hex(&[]).is_empty());
}

#[test]
fn one_job_per_cpu() {
    for (cpus, jobs) in [(0usize, 1usize), (1, 1), (2, 2), (16, 16)] {
        let cfg = config_for_cpus(cpus);
        assert_eq!(cfg.jobs, jobs);
        assert_eq!(cfg.compression_level, 6);
    }
}

#[test]
fn every_timestamp_is_in_the_calendar() {
    Timestamp::new(2024, 2, 29, 23, 59, 59).unwrap().check_calendar();
}

#[test]
fn packed_files_are_counted_by_the_run() {
    let (run, _) = JobRun::start(JobId(1), spec("/s/p", false, false), 6);
    let now = Timestamp::new(2026, 6, 28, 12, 0, 0).unwrap();
    let (run, mut events, _) = drive(
        run,
        vec![Outcome::Counted(Ok(3)), Outcome::Clock(now), Outcome::Staged(Ok("/d/.p.part".into()))],
    );
    let mut run = run;
    for _ in 0..3 {
        let (r, ev, a) = run.advance(Outcome::FilePacked);
        assert!(matches!(a, Action::Continue));
        run = r;
        events.extend(ev);
    }
    assert!(matches!(run.stage, Stage::Archiving { packed: 3, total: 3, .. }));
    let (run, ev, a) = run.advance(Outcome::Archived { result: Ok(3), canceled: false });
    assert!(matches!(a, Action::Deliver { .. }));
    events.extend(ev);
    let (_, ev, a) = run.advance(Outcome::Delivered(Ok("/d/p_2026-06-28_120000.zip".into())));
    assert!(matches!(a, Action::Stop));
    events.extend(ev);
    let progress: Vec<u64> = events
        .iter()
        .filter_map(|e| match e {
            Event::Progress { status: JobStatus::Archiving { done, total: 3 }, .. } => Some(*done),
            _ => None,
        })
        .collect();
    assert_eq!(progress, vec![0, 1, 2, 3]);
    assert!(matches!(&events[4], Event::Progress { status: JobStatus::Transferring, .. }));
    match &events[5] {
        Event::Log { id: Some(JobId(1)), line } => {
            assert_eq!(line, "#1 готово: /d/p_2026-06-28_120000.zip")
        }
        other => panic!("unexpected event: {other:?}"),
    }
    assert!(matches!(&events[6], Event::Finished { .. }));
    assert_eq!(events.len(), 7);
}

#[test]
fn a_packed_file_outside_packing_changes_nothing() {
    let (run, first) = JobRun::start(JobId(2), spec("/s/p", false, false), 6);
    let (run, ev, a) = run.advance(Outcome::FilePacked);
    assert!(ev.is_empty());
    assert!(matches!((&first, &a), (Action::CountFiles { .. }, Action::CountFiles { .. })));
    assert!(matches!(run.stage, Stage::Counting));
}
