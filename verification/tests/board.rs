use file_transfer::board::{folder_label, Board, Dropped};
use file_transfer::engine::Event;
use file_transfer::model::{DestinationSpec, JobId, JobStatus};

fn dir(p: &str) -> Dropped {
    Dropped { path: p.into(), is_dir: true }
}

fn file(p: &str) -> Dropped {
    Dropped { path: p.into(), is_dir: false }
}

#[test]
fn drops_fill_sources_without_repeats() {
    let mut b = Board::new();
    b.add_drops(vec![dir("/a"), file("/notes.txt"), dir("/b"), dir("/a/"), dir("/a")], false);
    assert_eq!(b.sources, vec!["/a".to_string(), "/b".to_string()]);
    assert_eq!(b.log, vec!["skipped (not a folder): /notes.txt".to_string()]);
    assert!(b.dest.is_none());
    assert!(!b.can_start());
}

#[test]
fn drops_on_destination_take_the_last_folder() {
    let mut b = Board::new();
    b.add_drops(vec![dir("/out1"), dir("/out2"), file("/x")], true);
    assert_eq!(b.dest.as_deref(), Some("/out2"));
    assert!(b.sources.is_empty());
}

#[test]
fn take_jobs_uses_destination_and_options() {
    let mut b = Board::new();
    assert!(b.take_jobs().is_empty());
    b.add_drops(vec![dir("/a"), dir("/b")], false);
    assert!(b.take_jobs().is_empty(), "no destination yet");
    assert_eq!(b.sources.len(), 2);
    b.add_drops(vec![dir("/out")], true);
    b.checksum = true;
    assert!(b.can_start());
    let specs = b.take_jobs();
    assert_eq!(specs.len(), 2);
    assert_eq!(specs[0].source, "/a");
    assert_eq!(specs[1].source, "/b");
    for s in &specs {
        assert!(matches!(&s.destination, DestinationSpec::Local { dir } if dir == "/out"));
        assert!(s.checksum);
        assert!(!s.remove_source);
    }
    assert!(b.sources.is_empty());
    assert!(!b.can_start());
}

#[test]
fn events_update_jobs_and_log() {
    let mut b = Board::new();
    b.apply(Event::Accepted { id: JobId(1), source: "/tmp/photos".into() });
    b.apply(Event::Accepted { id: JobId(2), source: "/".into() });
    assert_eq!(b.jobs.len(), 2);
    assert_eq!(b.jobs[0].title, "photos");
    assert_eq!(b.jobs[1].title, "/");
    assert!(matches!(b.jobs[0].status, JobStatus::Queued));
    b.apply(Event::Progress { id: JobId(2), status: JobStatus::Archiving { done: 1, total: 3 } });
    assert!(matches!(b.jobs[1].status, JobStatus::Archiving { done: 1, total: 3 }));
    assert!(matches!(b.jobs[0].status, JobStatus::Queued));
    b.apply(Event::Finished { id: JobId(1), status: JobStatus::Canceled });
    assert!(matches!(b.jobs[0].status, JobStatus::Canceled));
    b.apply(Event::Finished { id: JobId(7), status: JobStatus::Canceled });
    assert_eq!(b.jobs.len(), 2);
    b.apply(Event::Log { id: Some(JobId(2)), line: "готово".into() });
    b.apply(Event::Log { id: None, line: "plain".into() });
    assert_eq!(b.log, vec!["#2 готово".to_string(), "plain".to_string()]);
}

#[test]
fn status_goes_to_first_job_with_the_id() {
    let mut b = Board::new();
    b.apply(Event::Accepted { id: JobId(5), source: "/x".into() });
    b.apply(Event::Accepted { id: JobId(5), source: "/y".into() });
    b.set_status(JobId(5), JobStatus::Transferring);
    assert!(matches!(b.jobs[0].status, JobStatus::Transferring));
    assert!(matches!(b.jobs[1].status, JobStatus::Queued));
}

#[test]
fn folder_labels() {
    assert_eq!(folder_label("/srv/data"), "data");
    assert_eq!(folder_label("/srv/data/"), "data");
    assert_eq!(folder_label("/"), "/");
}

#[test]
fn each_zone_changes_only_its_own_list() {
    let mut b = Board::new();
    b.add_drops(vec![dir("/a")], false);
    b.add_drops(vec![dir("/out"), dir("/b"), file("/x")], true);
    assert_eq!(b.sources, vec!["/a".to_string()]);
    assert_eq!(b.dest.as_deref(), Some("/b"));
    b.add_drops(vec![dir("/c")], false);
    assert_eq!(b.dest.as_deref(), Some("/b"));
    assert_eq!(b.sources, vec!["/a".to_string(), "/c".to_string()]);
}
