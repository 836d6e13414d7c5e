//! Core data model: jobs, statuses, destinations, configuration.

use vstd::prelude::*;

use crate::text::{decimal, decimal_string, push_char, push_str};

verus! {

/// Job identifier (handed out in increasing order by the engine).
#[derive(Debug, Clone, Copy, PartialEq, Eq, Hash, Structural)]
pub struct JobId(pub u64);

/// The display text of a job identifier: `#` and the number.
pub open spec fn job_id_text(id: JobId) -> Seq<char> {
    seq!['#'] + decimal(id.0 as nat)
}

impl JobId {
    /// The display text of the identifier, `#<n>`.
    pub fn text(&self) -> (s: String)
        ensures
            s@ == job_id_text(*self),
    {
        let mut s = String::new();
        push_char(&mut s, '#');
        let n = decimal_string(self.0);
        push_str(&mut s, n.as_str());
        s
    }
}

/// How to authenticate to an SSH server.
#[derive(Debug)]
pub enum SshAuth {
    /// Use the running SSH agent.
    Agent,
    /// A password kept in the keychain under `keychain_account`.
    Password { keychain_account: String },
    /// A private key file, with an optional passphrase kept in the keychain.
    Key { path: String, passphrase_account: Option<String> },
}

/// A remote directory reached over SSH/SFTP.
#[derive(Debug)]
pub struct SshConfig {
    pub host: String,
    pub port: u16,
    pub user: String,
    pub remote_dir: String,
    pub auth: SshAuth,
}

/// Destination chosen by the user.
#[derive(Debug)]
pub enum DestinationSpec {
    /// Local or mounted network directory (SMB/NFS as a path).
    Local { dir: String },
    /// Remote directory over SSH/SFTP.
    Ssh(SshConfig),
}

/// A copy of an optional string.
fn clone_opt(s: &Option<String>) -> (r: Option<String>)
    ensures
        r == *s,
{
    match s {
        Some(t) => Some(t.clone()),
        None => None,
    }
}

impl Clone for SshAuth {
    fn clone(&self) -> (r: Self)
        ensures
            r == *self,
    {
        match self {
            SshAuth::Agent => SshAuth::Agent,
            SshAuth::Password { keychain_account } => SshAuth::Password {
                keychain_account: keychain_account.clone(),
            },
            SshAuth::Key { path, passphrase_account } => SshAuth::Key {
                path: path.clone(),
                passphrase_account: clone_opt(passphrase_account),
            },
        }
    }
}

impl Clone for SshConfig {
    fn clone(&self) -> (r: Self)
        ensures
            r == *self,
    {
        SshConfig {
            host: self.host.clone(),
            port: self.port,
            user: self.user.clone(),
            remote_dir: self.remote_dir.clone(),
            auth: self.auth.clone(),
        }
    }
}

impl Clone for DestinationSpec {
    fn clone(&self) -> (r: Self)
        ensures
            r == *self,
    {
        match self {
            DestinationSpec::Local { dir } => DestinationSpec::Local { dir: dir.clone() },
            DestinationSpec::Ssh(cfg) => DestinationSpec::Ssh(cfg.clone()),
        }
    }
}

/// Description of a single job: what to archive and where to place it.
#[derive(Debug)]
pub struct JobSpec {
    /// Source directory.
    pub source: String,
    /// Where to move the finished archive.
    pub destination: DestinationSpec,
    /// Remove the source after a successful archive and move.
    pub remove_source: bool,
    /// Compute the sha256 of the finished archive.
    pub checksum: bool,
}

impl Clone for JobSpec {
    fn clone(&self) -> (r: Self)
        ensures
            r == *self,
    {
        JobSpec {
            source: self.source.clone(),
            destination: self.destination.clone(),
            remove_source: self.remove_source,
            checksum: self.checksum,
        }
    }
}

/// Current state of a job.
#[derive(Debug)]
pub enum JobStatus {
    Queued,
    Archiving { done: u64, total: u64 },
    Transferring,
    Done { output: String, sha256: Option<String> },
    Failed { error: String },
    Canceled,
}

impl Clone for JobStatus {
    fn clone(&self) -> (r: Self)
        ensures
            r == *self,
    {
        match self {
            JobStatus::Queued => JobStatus::Queued,
            JobStatus::Archiving { done, total } => JobStatus::Archiving {
                done: *done,
                total: *total,
            },
            JobStatus::Transferring => JobStatus::Transferring,
            JobStatus::Done { output, sha256 } => JobStatus::Done {
                output: output.clone(),
                sha256: clone_opt(sha256),
            },
            JobStatus::Failed { error } => JobStatus::Failed { error: error.clone() },
            JobStatus::Canceled => JobStatus::Canceled,
        }
    }
}

/// Engine parameters.
#[derive(Debug, Clone, Copy)]
pub struct Config {
    /// How many archives to process concurrently (defaults to the CPU count).
    pub jobs: usize,
    /// Deflate compression level (0..=9). Fixed at 6 by default.
    pub compression_level: u32,
}

/// `num_cpus::get`: the number of logical CPUs available; at least 1.
#[verifier::external_body]
fn cpu_count() -> (n: usize)
    ensures
        n >= 1,
{
    num_cpus::get()
}

/// The engine parameters for a machine with `cpus` logical CPUs: one job
/// per CPU (at least one), compression level 6.
pub fn config_for_cpus(cpus: usize) -> (c: Config)
    ensures
        c.jobs == (if cpus > 1 {
            cpus
        } else {
            1
        }),
        c.compression_level == 6,
{
    Config { jobs: if cpus > 1 { cpus } else { 1 }, compression_level: 6 }
}

impl Default for Config {
    /// One job per logical CPU of this machine, compression level 6: the
    /// parameters [`config_for_cpus`] gives for the CPU count `num_cpus`
    /// reports (which depends on the machine; it is at least 1).
    fn default() -> (c: Self)
        ensures
            c.jobs >= 1,
            c.compression_level == 6,
    {
        config_for_cpus(cpu_count())
    }
}

} // verus!
