//! What the window shows and keeps: the folders to pack, the destination,
//! the options, the submitted jobs with their latest status, and the log.
//!
//! The window feeds it the engine's events and the folders dropped onto it,
//! and takes from it the jobs to submit.

use vstd::prelude::*;

use crate::engine::Event;
use crate::model::{job_id_text, DestinationSpec, JobId, JobSpec, JobStatus};
use crate::paths::path_file_name;
use crate::text::push_str;

verus! {

/// `Path::eq`: whether `a` and `b` name the same path component by
/// component.
pub uninterp spec fn same_path(a: Seq<char>, b: Seq<char>) -> bool;

/// Whether two paths are equal (`Path == Path`).
#[verifier::external_body]
fn paths_equal(a: &str, b: &str) -> (r: bool)
    ensures
        r == same_path(a@, b@),
{
    std::path::Path::new(a) == std::path::Path::new(b)
}

/// A job as the window lists it.
#[derive(Debug)]
pub struct JobView {
    pub id: JobId,
    pub title: String,
    pub status: JobStatus,
}

/// A path dropped onto the window, and whether it is a directory.
#[derive(Debug)]
pub struct Dropped {
    pub path: String,
    pub is_dir: bool,
}

/// The state behind the window.
#[derive(Debug)]
pub struct Board {
    /// Folders to pack, in the order they were dropped, without repeats.
    pub sources: Vec<String>,
    /// The folder that receives the archives.
    pub dest: Option<String>,
    /// Remove each source after its archive was delivered.
    pub remove_source: bool,
    /// Compute the SHA-256 of each archive.
    pub checksum: bool,
    /// Submitted jobs, in the order they were accepted.
    pub jobs: Vec<JobView>,
    /// Log lines, oldest first.
    pub log: Vec<String>,
}

/// The title of a job for the folder `source`: its last component, or the
/// whole path when it has none.
pub open spec fn job_title(source: Seq<char>) -> Seq<char> {
    match path_file_name(source) {
        Some(n) => n,
        None => source,
    }
}

/// How a folder is shown: its last component, or the whole path when it has
/// none.
pub fn folder_label(path: &str) -> (r: String)
    ensures
        r@ == job_title(path@),
{
    match crate::paths::file_name(path) {
        Some(n) => n,
        None => path.to_owned(),
    }
}

/// The log line for `line` about job `id` (if any): `#<id> <line>`.
pub open spec fn log_text(id: Option<JobId>, line: Seq<char>) -> Seq<char> {
    match id {
        Some(i) => job_id_text(i) + " "@ + line,
        None => line,
    }
}

/// The log line for a dropped path that is not a folder.
pub open spec fn skipped_text(path: Seq<char>) -> Seq<char> {
    "skipped (not a folder): "@ + path
}

/// The first job listed with identifier `id`, if any.
pub open spec fn first_job(jobs: Seq<JobView>, id: JobId) -> Option<int> {
    if exists|k: int| 0 <= k < jobs.len() && jobs[k].id == id {
        Some(choose|k: int| 0 <= k < jobs.len() && jobs[k].id == id && forall|j: int| 0 <= j < k ==> jobs[j].id != id)
    } else {
        None
    }
}

/// `jobs` with the status of the first job `id` replaced by `status`
/// (unchanged when no job has that identifier).
pub open spec fn with_status(jobs: Seq<JobView>, id: JobId, status: JobStatus) -> Seq<JobView> {
    match first_job(jobs, id) {
        Some(k) => jobs.update(k, JobView { id: jobs[k].id, title: jobs[k].title, status }),
        None => jobs,
    }
}

/// Whether the folder `p` is already among `sources`.
pub open spec fn listed(sources: Seq<String>, p: Seq<char>) -> bool {
    exists|k: int| 0 <= k < sources.len() && same_path(sources[k]@, p)
}

/// The sources, destination and log after the drops `ds` (onto the
/// destination zone when `to_dest`): folders become the destination, or are
/// added to the sources unless already listed; anything else is logged as
/// skipped.
pub open spec fn after_drops(
    sources: Seq<String>,
    dest: Option<String>,
    log: Seq<Seq<char>>,
    ds: Seq<Dropped>,
    to_dest: bool,
) -> (Seq<String>, Option<String>, Seq<Seq<char>>)
    decreases ds.len(),
{
    if ds.len() == 0 {
        (sources, dest, log)
    } else {
        let (s, d, l) = after_drops(sources, dest, log, ds.drop_last(), to_dest);
        let x = ds.last();
        if !x.is_dir {
            (s, d, l.push(skipped_text(x.path@)))
        } else if to_dest {
            (s, Some(x.path), l)
        } else if listed(s, x.path@) {
            (s, d, l)
        } else {
            (s.push(x.path), d, l)
        }
    }
}

/// The views of a list of strings.
pub open spec fn texts(v: Seq<String>) -> Seq<Seq<char>> {
    v.map_values(|s: String| s@)
}

impl Board {
    /// An empty window: no sources, no destination, options off.
    pub fn new() -> (b: Board)
        ensures
            b.sources@.len() == 0,
            b.dest is None,
            !b.remove_source,
            !b.checksum,
            b.jobs@.len() == 0,
            b.log@.len() == 0,
    {
        Board {
            sources: Vec::new(),
            dest: None,
            remove_source: false,
            checksum: false,
            jobs: Vec::new(),
            log: Vec::new(),
        }
    }

    /// Records `status` as the latest status of job `id`.
    pub fn set_status(&mut self, id: JobId, status: JobStatus)
        ensures
            final(self).jobs@ == with_status(old(self).jobs@, id, status),
            final(self).sources == old(self).sources,
            final(self).dest == old(self).dest,
            final(self).log == old(self).log,
            final(self).remove_source == old(self).remove_source,
            final(self).checksum == old(self).checksum,
    {
        let mut k: usize = 0;
        while k < self.jobs.len()
            invariant
                k <= self.jobs@.len(),
                self.jobs == old(self).jobs,
                self.sources == old(self).sources,
                self.dest == old(self).dest,
                self.log == old(self).log,
                self.remove_source == old(self).remove_source,
                self.checksum == old(self).checksum,
                forall|j: int| 0 <= j < k ==> self.jobs@[j].id != id,
            decreases self.jobs@.len() - k,
        {
            if self.jobs[k].id == id {
                let ghost jobs = self.jobs@;
                assert(first_job(jobs, id) == Some(k as int)) by {
                    let c = choose|c: int|
                        0 <= c < jobs.len() && jobs[c].id == id && forall|j: int|
                            0 <= j < c ==> jobs[j].id != id;
                    assert(0 <= k < jobs.len() && jobs[k as int].id == id && forall|j: int|
                        0 <= j < k ==> jobs[j].id != id);
                    if c < k {
                        assert(jobs[c].id != id);
                    } else if c > k {
                        assert(jobs[k as int].id != id);
                    }
                }
                let old_view = self.jobs.remove(k);
                self.jobs.insert(k, JobView { id: old_view.id, title: old_view.title, status });
                assert(self.jobs@ =~= with_status(jobs, id, status));
                return;
            }
            k += 1;
        }
        assert(first_job(self.jobs@, id) is None);
    }

    /// Takes in one event from the engine.
    pub fn apply(&mut self, ev: Event)
        ensures
            final(self).sources == old(self).sources,
            final(self).dest == old(self).dest,
            final(self).remove_source == old(self).remove_source,
            final(self).checksum == old(self).checksum,
            match ev {
                Event::Accepted { id, source } => {
                    &&& final(self).jobs@.len() == old(self).jobs@.len() + 1
                    &&& final(self).jobs@.drop_last() == old(self).jobs@
                    &&& final(self).jobs@.last().id == id
                    &&& final(self).jobs@.last().title@ == job_title(source@)
                    &&& final(self).jobs@.last().status is Queued
                    &&& final(self).log == old(self).log
                },
                Event::Progress { id, status } => {
                    &&& final(self).jobs@ == with_status(old(self).jobs@, id, status)
                    &&& final(self).log == old(self).log
                },
                Event::Finished { id, status } => {
                    &&& final(self).jobs@ == with_status(old(self).jobs@, id, status)
                    &&& final(self).log == old(self).log
                },
                Event::Log { id, line } => {
                    &&& final(self).jobs == old(self).jobs
                    &&& texts(final(self).log@) == texts(old(self).log@).push(log_text(id, line@))
                },
            },
    {
        match ev {
            Event::Accepted { id, source } => {
                let title = folder_label(source.as_str());
                self.jobs.push(JobView { id, title, status: JobStatus::Queued });
                assert(self.jobs@.drop_last() =~= old(self).jobs@);
            },
            Event::Progress { id, status } => self.set_status(id, status),
            Event::Finished { id, status } => self.set_status(id, status),
            Event::Log { id, line } => {
                let text = match id {
                    Some(i) => {
                        let mut t = i.text();
                        push_str(&mut t, " ");
                        push_str(&mut t, line.as_str());
                        t
                    },
                    None => line,
                };
                self.log.push(text);
                assert(texts(self.log@) =~= texts(old(self).log@).push(log_text(id, line@)));
            },
        }
    }

    /// Whether `path` is already among the sources.
    fn has_source(&self, path: &str) -> (r: bool)
        ensures
            r == listed(self.sources@, path@),
    {
        let mut k: usize = 0;
        while k < self.sources.len()
            invariant
                k <= self.sources@.len(),
                forall|j: int| 0 <= j < k ==> !same_path(self.sources@[j]@, path@),
            decreases self.sources@.len() - k,
        {
            if paths_equal(self.sources[k].as_str(), path) {
                return true;
            }
            k += 1;
        }
        false
    }

    /// Takes in paths dropped onto the window, in order: onto the destination
    /// zone when `to_dest`, else onto the sources zone.
    pub fn add_drops(&mut self, dropped: Vec<Dropped>, to_dest: bool)
        ensures
            ({
                let (s, d, l) = after_drops(
                    old(self).sources@,
                    old(self).dest,
                    texts(old(self).log@),
                    dropped@,
                    to_dest,
                );
                &&& final(self).sources@ == s
                &&& final(self).dest == d
                &&& texts(final(self).log@) == l
            }),
            final(self).jobs == old(self).jobs,
            final(self).remove_source == old(self).remove_source,
            final(self).checksum == old(self).checksum,
    {
        let ghost ds = dropped@;
        let mut rest = dropped;
        let mut i: usize = 0;
        let n = rest.len();
        assert(ds.take(0) =~= Seq::<Dropped>::empty());
        assert(ds.skip(0) =~= ds);
        while i < n
            invariant
                n == ds.len(),
                rest@ == ds.skip(i as int),
                i <= n,
                ({
                    let (s, d, l) = after_drops(
                        old(self).sources@,
                        old(self).dest,
                        texts(old(self).log@),
                        ds.take(i as int),
                        to_dest,
                    );
                    &&& self.sources@ == s
                    &&& self.dest == d
                    &&& texts(self.log@) == l
                }),
                self.jobs == old(self).jobs,
                self.remove_source == old(self).remove_source,
                self.checksum == old(self).checksum,
            decreases n - i,
        {
            let x = rest.remove(0);
            assert(x == ds[i as int]);
            assert(rest@ =~= ds.skip(i + 1));
            assert(ds.take(i + 1).drop_last() =~= ds.take(i as int));
            assert(ds.take(i + 1).last() == x);
            if !x.is_dir {
                let mut line = String::new();
                push_str(&mut line, "skipped (not a folder): ");
                push_str(&mut line, x.path.as_str());
                let ghost before = self.log@;
                self.log.push(line);
                assert(texts(self.log@) =~= texts(before).push(skipped_text(x.path@)));
            } else if to_dest {
                self.dest = Some(x.path);
            } else if !self.has_source(x.path.as_str()) {
                self.sources.push(x.path);
            }
            i += 1;
        }
        assert(ds.take(n as int) =~= ds);
    }

    /// Whether jobs can be started: a destination is set and there are
    /// sources.
    pub fn can_start(&self) -> (r: bool)
        ensures
            r == (self.dest is Some && self.sources@.len() > 0),
    {
        self.dest.is_some() && self.sources.len() > 0
    }

    /// The jobs to submit: one per source, in order, all into the
    /// destination with the current options; the sources are cleared. Nothing
    /// happens without a destination.
    pub fn take_jobs(&mut self) -> (specs: Vec<JobSpec>)
        ensures
            old(self).dest is None ==> specs@.len() == 0 && final(self).sources
                == old(self).sources,
            old(self).dest matches Some(dir) ==> {
                &&& specs@.len() == old(self).sources@.len()
                &&& final(self).sources@.len() == 0
                &&& forall|k: int|
                    0 <= k < specs@.len() ==> #[trigger] specs@[k] == (JobSpec {
                        source: old(self).sources@[k],
                        destination: DestinationSpec::Local { dir },
                        remove_source: old(self).remove_source,
                        checksum: old(self).checksum,
                    })
            },
            final(self).dest == old(self).dest,
            final(self).jobs == old(self).jobs,
            final(self).log == old(self).log,
            final(self).remove_source == old(self).remove_source,
            final(self).checksum == old(self).checksum,
    {
        let mut specs: Vec<JobSpec> = Vec::new();
        let dir = match &self.dest {
            Some(d) => d.clone(),
            None => return specs,
        };
        let mut taken: Vec<String> = Vec::new();
        std::mem::swap(&mut taken, &mut self.sources);
        let ghost srcs = taken@;
        assert(srcs.skip(0) =~= srcs);
        let n = taken.len();
        let mut i: usize = 0;
        while i < n
            invariant
                n == srcs.len(),
                taken@ == srcs.skip(i as int),
                i <= n,
                specs@.len() == i,
                old(self).dest == Some(dir),
                forall|k: int|
                    0 <= k < i ==> #[trigger] specs@[k] == (JobSpec {
                        source: srcs[k],
                        destination: DestinationSpec::Local { dir },
                        remove_source: self.remove_source,
                        checksum: self.checksum,
                    }),
                self.remove_source == old(self).remove_source,
                self.checksum == old(self).checksum,
            decreases n - i,
        {
            let source = taken.remove(0);
            assert(source == srcs[i as int]);
            assert(taken@ =~= srcs.skip(i + 1));
            specs.push(
                JobSpec {
                    source,
                    destination: DestinationSpec::Local { dir: dir.clone() },
                    remove_source: self.remove_source,
                    checksum: self.checksum,
                },
            );
            i += 1;
        }
        specs
    }
}

/// No folder is listed twice among the sources.
pub open spec fn distinct_sources(s: Seq<String>) -> bool {
    forall|i: int, j: int| 0 <= i < j < s.len() ==> !same_path(#[trigger] s[i]@, #[trigger] s[j]@)
}

/// Dropping folders never lists a source twice, and never removes one: the
/// sources before the drops stay, in order, at the front.
pub proof fn law_drops_keep_sources_distinct(
    sources: Seq<String>,
    dest: Option<String>,
    log: Seq<Seq<char>>,
    ds: Seq<Dropped>,
    to_dest: bool,
)
    requires
        distinct_sources(sources),
    ensures
        distinct_sources(after_drops(sources, dest, log, ds, to_dest).0),
        after_drops(sources, dest, log, ds, to_dest).0.len() >= sources.len(),
        after_drops(sources, dest, log, ds, to_dest).0.subrange(0, sources.len() as int)
            == sources,
    decreases ds.len(),
{
    if ds.len() > 0 {
        law_drops_keep_sources_distinct(sources, dest, log, ds.drop_last(), to_dest);
        let s = after_drops(sources, dest, log, ds.drop_last(), to_dest).0;
        let x = ds.last();
        if x.is_dir && !to_dest && !listed(s, x.path@) {
            let s2 = s.push(x.path);
            assert forall|i: int, j: int| 0 <= i < j < s2.len() implies !same_path(
                #[trigger] s2[i]@,
                #[trigger] s2[j]@,
            ) by {
                if j == s.len() {
                    assert(!same_path(s[i]@, x.path@));
                } else {
                    assert(s2[i] == s[i] && s2[j] == s[j]);
                }
            }
            assert(s2.subrange(0, sources.len() as int) =~= s.subrange(0, sources.len() as int));
        }
    }
}

/// The destination is the last folder dropped onto the destination zone.
pub proof fn law_destination_is_last_folder(
    sources: Seq<String>,
    dest: Option<String>,
    log: Seq<Seq<char>>,
    ds: Seq<Dropped>,
    k: int,
)
    requires
        0 <= k < ds.len(),
        ds[k].is_dir,
        forall|j: int| k < j < ds.len() ==> !(#[trigger] ds[j]).is_dir,
    ensures
        after_drops(sources, dest, log, ds, true).1 == Some(ds[k].path),
    decreases ds.len(),
{
    if k < ds.len() - 1 {
        law_destination_is_last_folder(sources, dest, log, ds.drop_last(), k);
        assert(!ds[ds.len() - 1].is_dir);
    }
}

/// Drops onto the destination zone leave the sources as they were; drops
/// anywhere else leave the destination as it was.
pub proof fn law_drops_touch_one_zone(
    sources: Seq<String>,
    dest: Option<String>,
    log: Seq<Seq<char>>,
    ds: Seq<Dropped>,
)
    ensures
        after_drops(sources, dest, log, ds, true).0 == sources,
        after_drops(sources, dest, log, ds, false).1 == dest,
    decreases ds.len(),
{
    if ds.len() > 0 {
        law_drops_touch_one_zone(sources, dest, log, ds.drop_last());
    }
}

/// A folder dropped onto the sources zone is added at the end exactly when
/// no listed source is the same path; otherwise nothing changes. The
/// destination and the log are untouched either way.
pub proof fn law_new_folder_is_added(
    sources: Seq<String>,
    dest: Option<String>,
    log: Seq<Seq<char>>,
    x: Dropped,
)
    requires
        x.is_dir,
    ensures
        (forall|k: int| 0 <= k < sources.len() ==> !same_path(#[trigger] sources[k]@, x.path@))
            ==> after_drops(sources, dest, log, seq![x], false) == (sources.push(x.path), dest, log),
        (exists|k: int| 0 <= k < sources.len() && same_path(#[trigger] sources[k]@, x.path@))
            ==> after_drops(sources, dest, log, seq![x], false) == (sources, dest, log),
{
    let ds = seq![x];
    assert(ds.drop_last() =~= Seq::<Dropped>::empty());
    assert(after_drops(sources, dest, log, ds.drop_last(), false) == (sources, dest, log));
    assert(ds.last() == x);
    if exists|k: int| 0 <= k < sources.len() && same_path(#[trigger] sources[k]@, x.path@) {
        assert(listed(sources, x.path@));
    } else {
        assert(!listed(sources, x.path@));
    }
}

/// After folders are dropped onto the sources zone, every one of them is
/// listed: as the source it was added as, or as a source with the same
/// path that was listed already.
pub proof fn law_dropped_folders_are_listed(
    sources: Seq<String>,
    dest: Option<String>,
    log: Seq<Seq<char>>,
    ds: Seq<Dropped>,
    i: int,
)
    requires
        0 <= i < ds.len(),
        ds[i].is_dir,
    ensures
        exists|k: int|
            0 <= k < after_drops(sources, dest, log, ds, false).0.len() && ({
                let s = #[trigger] after_drops(sources, dest, log, ds, false).0[k];
                s == ds[i].path || same_path(s@, ds[i].path@)
            }),
    decreases ds.len(),
{
    let n = ds.len();
    let prev = after_drops(sources, dest, log, ds.drop_last(), false).0;
    let now = after_drops(sources, dest, log, ds, false).0;
    if i < n - 1 {
        law_dropped_folders_are_listed(sources, dest, log, ds.drop_last(), i);
        let k = choose|k: int|
            0 <= k < prev.len() && ({
                let s = #[trigger] prev[k];
                s == ds.drop_last()[i].path || same_path(s@, ds.drop_last()[i].path@)
            });
        assert(now.len() >= prev.len() && now[k] == prev[k]);
    } else {
        let x = ds.last();
        if listed(prev, x.path@) {
            let k = choose|k: int| 0 <= k < prev.len() && same_path(prev[k]@, x.path@);
            assert(now[k] == prev[k]);
        } else {
            assert(now[prev.len() as int] == x.path);
        }
    }
}

} // verus!
