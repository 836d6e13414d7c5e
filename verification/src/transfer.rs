//! Destination backends.
//!
//! Every backend follows the same contract: the archive is first written to a
//! local staging path ([`Destination::stage_path`]), then moved into place
//! atomically under its final name. Overwriting is forbidden. A
//! [`LocalDestination`] renames inside the target directory; an
//! [`SshDestination`] uploads over SFTP to a temporary remote name and renames
//! on the remote.
//!
//! The file system and network work is done by the caller; this module decides
//! the paths, the remote directories to create, the outcome of the host key
//! check, the credentials to present and the errors to report.

use vstd::prelude::*;

use crate::error::CoreError;
use crate::model::{DestinationSpec, SshAuth, SshConfig};
use crate::paths::path_join;
use crate::secret::{entry_for, keychain_entry, read_auth_secret, KeychainEntry};
use crate::text::{chars_of, decimal, decimal_string, push_char, push_str};

verus! {

/// Local or mounted network directory.
pub struct LocalDestination {
    pub dir: String,
}

/// Remote directory reached over SSH/SFTP.
pub struct SshDestination {
    pub cfg: SshConfig,
}

/// A destination backend.
pub enum Destination {
    Local(LocalDestination),
    Ssh(SshDestination),
}

/// Build a destination backend from its specification.
pub fn build(spec: &DestinationSpec) -> (d: Destination)
    ensures
        match *spec {
            DestinationSpec::Local { dir } => d == Destination::Local(LocalDestination { dir }),
            DestinationSpec::Ssh(cfg) => d == Destination::Ssh(SshDestination { cfg }),
        },
{
    match spec {
        DestinationSpec::Local { dir } => Destination::Local(LocalDestination { dir: dir.clone() }),
        DestinationSpec::Ssh(cfg) => Destination::Ssh(SshDestination { cfg: cfg.clone() }),
    }
}

/// `.<name>.part`: the hidden staging name of an archive.
pub open spec fn staging_name(name: Seq<char>) -> Seq<char> {
    "."@ + name + ".part"@
}

/// `.ft-<name>.part`: the staging name of an archive in the temporary
/// directory.
pub open spec fn temp_staging_name(name: Seq<char>) -> Seq<char> {
    ".ft-"@ + name + ".part"@
}

/// `s` without its trailing slashes.
pub open spec fn trim_slashes(s: Seq<char>) -> Seq<char>
    decreases s.len(),
{
    if s.len() > 0 && s.last() == '/' {
        trim_slashes(s.drop_last())
    } else {
        s
    }
}

/// The path `s` with empty components dropped, written as `/a/b/c`.
pub open spec fn normalized(s: Seq<char>) -> Seq<char>
    decreases s.len(),
{
    if s.len() == 0 {
        Seq::empty()
    } else {
        let p = normalized(s.drop_last());
        let c = s.last();
        if c == '/' {
            p
        } else if s.len() == 1 || s[s.len() - 2] == '/' {
            p + seq!['/', c]
        } else {
            p.push(c)
        }
    }
}

/// The directories to create for the components of `s` that a later slash
/// closes, shortest first.
pub open spec fn closed_dirs(s: Seq<char>) -> Seq<Seq<char>>
    decreases s.len(),
{
    if s.len() == 0 {
        Seq::empty()
    } else if s.last() == '/' && s.len() >= 2 && s[s.len() - 2] != '/' {
        closed_dirs(s.drop_last()).push(normalized(s.drop_last()))
    } else {
        closed_dirs(s.drop_last())
    }
}

/// The directories to create so that the remote directory `s` exists: one
/// per non-empty component, each the path up to and including that
/// component, shortest first.
pub open spec fn dir_chain(s: Seq<char>) -> Seq<Seq<char>> {
    if s.len() > 0 && s.last() != '/' {
        closed_dirs(s).push(normalized(s))
    } else {
        closed_dirs(s)
    }
}

/// A string holding the characters `cs[0..n]`.
fn string_of(cs: &Vec<char>, n: usize) -> (s: String)
    requires
        n <= cs@.len(),
    ensures
        s@ == cs@.take(n as int),
{
    let mut s = String::new();
    let mut i: usize = 0;
    while i < n
        invariant
            i <= n <= cs@.len(),
            s@ == cs@.take(i as int),
        decreases n - i,
    {
        push_char(&mut s, cs[i]);
        assert(cs@.take(i + 1) =~= cs@.take(i as int).push(cs@[i as int]));
        i += 1;
    }
    s
}

proof fn lemma_trim_take(s: Seq<char>, k: int)
    requires
        0 <= k <= s.len(),
        k == 0 || s[k - 1] != '/',
        forall|i: int| k <= i < s.len() ==> s[i] == '/',
    ensures
        trim_slashes(s) == s.take(k),
    decreases s.len(),
{
    if s.len() > k {
        lemma_trim_take(s.drop_last(), k);
        assert(s.drop_last().take(k) =~= s.take(k));
    } else {
        assert(s.take(k) =~= s);
        if k > 0 {
            assert(s.last() != '/');
        }
    }
}

/// `s.trim_end_matches('/')`.
pub fn trim_trailing_slashes(s: &str) -> (r: String)
    ensures
        r@ == trim_slashes(s@),
{
    let cs = chars_of(s);
    let mut k = cs.len();
    while k > 0 && cs[k - 1] == '/'
        invariant
            cs@ == s@,
            k <= cs@.len(),
            forall|i: int| k <= i < cs@.len() ==> cs@[i] == '/',
        decreases k,
    {
        k -= 1;
    }
    proof {
        lemma_trim_take(s@, k as int);
    }
    string_of(&cs, k)
}

/// The directories to create, in order, so that the remote directory `dir`
/// exists (each component in turn, empty components ignored).
pub fn remote_dir_chain(dir: &str) -> (paths: Vec<String>)
    ensures
        paths@.map_values(|p: String| p@) == dir_chain(dir@),
{
    let cs = chars_of(dir);
    let ghost s = dir@;
    let mut paths: Vec<String> = Vec::new();
    let mut cur = String::new();
    let mut i: usize = 0;
    assert(s.take(0) =~= Seq::<char>::empty());
    while i < cs.len()
        invariant
            cs@ == s,
            i <= s.len(),
            cur@ == normalized(s.take(i as int)),
            paths@.map_values(|p: String| p@) == closed_dirs(s.take(i as int)),
        decreases s.len() - i,
    {
        let c = cs[i];
        let ghost t = s.take(i + 1);
        assert(t.drop_last() =~= s.take(i as int));
        assert(t.last() == c);
        if c == '/' {
            if i > 0 && cs[i - 1] != '/' {
                assert(t[t.len() - 2] == s[i - 1]);
                paths.push(cur.clone());
                assert(paths@.map_values(|p: String| p@) =~= closed_dirs(s.take(i as int)).push(
                    normalized(s.take(i as int)),
                ));
            }
        } else {
            if i == 0 || cs[i - 1] == '/' {
                push_char(&mut cur, '/');
            }
            push_char(&mut cur, c);
            assert(cur@ =~= normalized(t));
        }
        i += 1;
    }
    assert(s.take(s.len() as int) =~= s);
    let n = cs.len();
    if n > 0 && cs[n - 1] != '/' {
        paths.push(cur);
        assert(paths@.map_values(|p: String| p@) =~= closed_dirs(s).push(normalized(s)));
    }
    paths
}

impl LocalDestination {
    /// Local path to write the archive to while packing: `.<name>.part` in
    /// the target directory.
    pub fn stage_path(&self, name: &str) -> (p: String)
        ensures
            p@ == path_join(self.dir@, staging_name(name@)),
    {
        let mut tmp = String::new();
        push_str(&mut tmp, ".");
        push_str(&mut tmp, name);
        push_str(&mut tmp, ".part");
        crate::paths::join(self.dir.as_str(), tmp.as_str())
    }

    /// The final place of the archive `name`.
    pub fn final_path(&self, name: &str) -> (p: String)
        ensures
            p@ == path_join(self.dir@, name@),
    {
        crate::paths::join(self.dir.as_str(), name)
    }

    /// Where the finished archive `name` goes, given whether a file of that
    /// name is already there: overwriting is refused.
    pub fn finalize_target(&self, name: &str, exists: bool) -> (r: Result<String, CoreError>)
        ensures
            exists ==> (r matches Err(CoreError::DestinationExists(n)) && n@ == name@),
            !exists ==> (r matches Ok(p) && p@ == path_join(self.dir@, name@)),
    {
        if exists {
            Err(CoreError::DestinationExists(name.to_owned()))
        } else {
            Ok(self.final_path(name))
        }
    }
}

/// `ssh://<user>@<host>:<port><path>`: how a remote file is shown.
pub open spec fn ssh_url(cfg: SshConfig, path: Seq<char>) -> Seq<char> {
    "ssh://"@ + cfg.user@ + "@"@ + cfg.host@ + ":"@ + decimal(cfg.port as nat) + path
}

impl SshDestination {
    /// Local path to build the archive in before upload: `.ft-<name>.part` in
    /// the temporary directory `temp_dir`.
    pub fn stage_path(&self, name: &str, temp_dir: &str) -> (p: String)
        ensures
            p@ == path_join(temp_dir@, temp_staging_name(name@)),
    {
        let mut tmp = String::new();
        push_str(&mut tmp, ".ft-");
        push_str(&mut tmp, name);
        push_str(&mut tmp, ".part");
        crate::paths::join(temp_dir, tmp.as_str())
    }

    /// The remote directory without trailing slashes.
    pub fn remote_dir(&self) -> (d: String)
        ensures
            d@ == trim_slashes(self.cfg.remote_dir@),
    {
        trim_trailing_slashes(self.cfg.remote_dir.as_str())
    }

    /// The final remote path of the archive `name`: `<dir>/<name>`.
    pub fn remote_final(&self, name: &str) -> (p: String)
        ensures
            p@ == trim_slashes(self.cfg.remote_dir@) + "/"@ + name@,
    {
        let mut p = self.remote_dir();
        push_str(&mut p, "/");
        push_str(&mut p, name);
        p
    }

    /// The temporary remote path the archive is uploaded to before the
    /// rename: `<dir>/.<name>.part`.
    pub fn remote_staging(&self, name: &str) -> (p: String)
        ensures
            p@ == trim_slashes(self.cfg.remote_dir@) + "/"@ + staging_name(name@),
    {
        let mut p = self.remote_dir();
        push_str(&mut p, "/.");
        push_str(&mut p, name);
        push_str(&mut p, ".part");
        proof {
            reveal_strlit("/.");
            reveal_strlit("/");
            reveal_strlit(".");
        }
        assert(p@ =~= trim_slashes(self.cfg.remote_dir@) + "/"@ + staging_name(name@));
        p
    }

    /// How the delivered archive `name` is shown:
    /// `ssh://<user>@<host>:<port><dir>/<name>`.
    pub fn display_path(&self, name: &str) -> (p: String)
        ensures
            p@ == ssh_url(self.cfg, trim_slashes(self.cfg.remote_dir@) + "/"@ + name@),
    {
        let mut p = String::new();
        push_str(&mut p, "ssh://");
        push_str(&mut p, self.cfg.user.as_str());
        push_str(&mut p, "@");
        push_str(&mut p, self.cfg.host.as_str());
        push_str(&mut p, ":");
        let port = decimal_string(self.cfg.port as u64);
        push_str(&mut p, port.as_str());
        let f = self.remote_final(name);
        push_str(&mut p, f.as_str());
        p
    }

    /// The outcome of delivering `name`, given whether the remote directory
    /// already holds a file of that name: overwriting is refused.
    pub fn finalize_target(&self, name: &str, exists: bool) -> (r: Result<String, CoreError>)
        ensures
            exists ==> (r matches Err(CoreError::DestinationExists(n)) && n@ == name@),
            !exists ==> (r matches Ok(p) && p@ == ssh_url(
                self.cfg,
                trim_slashes(self.cfg.remote_dir@) + "/"@ + name@,
            )),
    {
        if exists {
            Err(CoreError::DestinationExists(name.to_owned()))
        } else {
            Ok(self.display_path(name))
        }
    }
}

impl Destination {
    /// Local path to write the archive `name` to while packing; the SSH
    /// backend stages in `temp_dir`.
    pub fn stage_path(&self, name: &str, temp_dir: &str) -> (p: String)
        ensures
            match *self {
                Destination::Local(l) => p@ == path_join(l.dir@, staging_name(name@)),
                Destination::Ssh(_) => p@ == path_join(temp_dir@, temp_staging_name(name@)),
            },
    {
        match self {
            Destination::Local(l) => l.stage_path(name),
            Destination::Ssh(s) => s.stage_path(name, temp_dir),
        }
    }
}

/// What the known-hosts check reported for the server's key.
#[derive(Debug, Clone, Copy, PartialEq, Eq, Structural)]
pub enum HostKeyCheck {
    Match,
    NotFound,
    Mismatch,
    Failure,
}

/// The verdict on the server's host key (`None`: the server offered none).
///
/// A mismatch is a hard error (possible man-in-the-middle). An unknown host,
/// or a check that could not be made, is accepted for this session without
/// recording the key (trust on first use).
pub fn host_key_verdict(host: &str, check: Option<HostKeyCheck>) -> (r: Result<(), CoreError>)
    ensures
        check is None ==> (r matches Err(CoreError::Ssh(m)) && m@ == "no host key offered"@),
        check == Some(HostKeyCheck::Mismatch) ==> (r matches Err(CoreError::Ssh(m)) && m@
            == "host key mismatch for "@ + host@ + " \u{2014} possible man-in-the-middle"@),
        check matches Some(c) && c != HostKeyCheck::Mismatch ==> r is Ok,
{
    match check {
        None => Err(CoreError::Ssh("no host key offered".to_owned())),
        Some(HostKeyCheck::Mismatch) => {
            let mut m = String::new();
            push_str(&mut m, "host key mismatch for ");
            push_str(&mut m, host);
            push_str(&mut m, " \u{2014} possible man-in-the-middle");
            Err(CoreError::Ssh(m))
        },
        Some(_) => Ok(()),
    }
}

/// The error for a remote directory that cannot be reached after creation.
pub fn remote_dir_error(dir: &str, detail: &str) -> (e: CoreError)
    ensures
        e matches CoreError::Ssh(m) && m@ == "remote directory "@ + dir@ + " unavailable: "@
            + detail@,
{
    let mut m = String::new();
    push_str(&mut m, "remote directory ");
    push_str(&mut m, dir);
    push_str(&mut m, " unavailable: ");
    push_str(&mut m, detail);
    CoreError::Ssh(m)
}

/// An SSH failure, reported with the text of the underlying error.
pub fn ssh_err(detail: &str) -> (e: CoreError)
    ensures
        e matches CoreError::Ssh(m) && m@ == detail@,
{
    CoreError::Ssh(detail.to_owned())
}

/// The error for a session that is still not authenticated after the
/// credentials were presented.
pub fn auth_rejected() -> (e: CoreError)
    ensures
        e matches CoreError::Auth(m) && m@ == "server rejected the credentials"@,
{
    CoreError::Auth("server rejected the credentials".to_owned())
}

/// The credentials to present to the server.
pub enum Credentials {
    /// Ask the SSH agent.
    Agent,
    /// A password.
    Password { password: String },
    /// A private key file and its passphrase, if any.
    Key { path: String, passphrase: Option<String> },
}

/// The credentials for `auth` once its secrets are loaded: the agent as is;
/// for a password, exactly the `password` loaded for its keychain account
/// (which must be there);
/// for a key, its path and exactly the `passphrase` loaded for its
/// passphrase account (none when it has no such account).
pub open spec fn spec_credentials(
    auth: SshAuth,
    password: Option<String>,
    passphrase: Option<String>,
) -> Credentials {
    match auth {
        SshAuth::Agent => Credentials::Agent,
        SshAuth::Password { .. } => Credentials::Password { password: password->0 },
        SshAuth::Key { path, passphrase_account } => Credentials::Key {
            path,
            passphrase: if passphrase_account is Some {
                passphrase
            } else {
                None
            },
        },
    }
}

/// Builds the credentials for `auth` from the secrets loaded for it:
/// `password` for a password account (required there), `passphrase` for a
/// key's passphrase account. A secret that `auth` has no account for is not
/// used.
pub fn credentials_from(auth: &SshAuth, password: Option<String>, passphrase: Option<String>) -> (c:
    Credentials)
    requires
        auth is Password ==> password is Some,
    ensures
        c == spec_credentials(*auth, password, passphrase),
        auth is Password ==> c == (Credentials::Password { password: password->0 }),
{
    match auth {
        SshAuth::Agent => Credentials::Agent,
        SshAuth::Password { .. } => Credentials::Password { password: password.unwrap() },
        SshAuth::Key { path, passphrase_account } => Credentials::Key {
            path: path.clone(),
            passphrase: match passphrase_account {
                Some(_) => passphrase,
                None => None,
            },
        },
    }
}

/// The keychain reads that authenticating with `auth` needs: the entry of
/// the password for a password account, the entry of the passphrase for a
/// key with a passphrase account.
#[derive(Debug)]
pub struct CredentialReads {
    pub password: Option<KeychainEntry>,
    pub passphrase: Option<KeychainEntry>,
}

/// `r` reads exactly the keychain entries that `auth` names.
pub open spec fn reads_for(auth: SshAuth, r: CredentialReads) -> bool {
    &&& match auth {
        SshAuth::Password { keychain_account } => r.password matches Some(e) && entry_for(
            keychain_account@,
            e,
        ),
        _ => r.password is None,
    }
    &&& match auth {
        SshAuth::Key { passphrase_account: Some(a), .. } => r.passphrase matches Some(e)
            && entry_for(a@, e),
        _ => r.passphrase is None,
    }
}

/// The keychain entries to read before authenticating with `auth`.
pub fn credential_reads(auth: &SshAuth) -> (r: CredentialReads)
    ensures
        reads_for(*auth, r),
{
    match auth {
        SshAuth::Agent => CredentialReads { password: None, passphrase: None },
        SshAuth::Password { keychain_account } => CredentialReads {
            password: Some(keychain_entry(keychain_account.as_str())),
            passphrase: None,
        },
        SshAuth::Key { passphrase_account, .. } => CredentialReads {
            password: None,
            passphrase: match passphrase_account {
                Some(a) => Some(keychain_entry(a.as_str())),
                None => None,
            },
        },
    }
}

/// The secret a keychain answer gave back, if it gave one.
pub open spec fn answered(answer: Option<Result<String, String>>) -> Option<String> {
    match answer {
        Some(Ok(s)) => Some(s),
        _ => None,
    }
}

/// The credentials for `auth`, given the keychain's answers to the reads
/// [`credential_reads`] asks for: `password` answers the password's read,
/// `passphrase` the passphrase's. A failed read is a keychain error with the
/// keychain's description; otherwise the secrets read are handed on
/// unchanged, as [`spec_credentials`] says.
pub fn resolve_credentials(
    auth: &SshAuth,
    password: Option<Result<String, String>>,
    passphrase: Option<Result<String, String>>,
) -> (r: Result<Credentials, CoreError>)
    requires
        password is Some <==> auth is Password,
        passphrase is Some <==> (auth matches SshAuth::Key { passphrase_account: Some(_), .. }),
    ensures
        password matches Some(Err(t)) ==> (r matches Err(CoreError::Secret(m)) && m@ == t@),
        passphrase matches Some(Err(t)) ==> (r matches Err(CoreError::Secret(m)) && m@ == t@),
        !(password matches Some(Err(_))) && !(passphrase matches Some(Err(_))) ==> r == Ok::<
            Credentials,
            CoreError,
        >(spec_credentials(*auth, answered(password), answered(passphrase))),
{
    match auth {
        SshAuth::Agent => Ok(credentials_from(auth, None, None)),
        SshAuth::Password { .. } => match password.unwrap() {
            Ok(p) => Ok(credentials_from(auth, Some(p), None)),
            Err(t) => Err(CoreError::Secret(t)),
        },
        SshAuth::Key { .. } => {
            let pp = match passphrase {
                Some(Ok(s)) => Some(s),
                Some(Err(t)) => {
                    return Err(CoreError::Secret(t));
                },
                None => None,
            };
            Ok(credentials_from(auth, None, pp))
        },
    }
}

/// The credentials for `auth`, with its secrets read from the keychain: the
/// entries [`credential_reads`] names are read, and the answers go through
/// [`resolve_credentials`]. A failed read is a keychain error; on success the
/// credentials are those of `auth` with a secret for every account it names.
pub fn load_credentials(auth: &SshAuth) -> (r: Result<Credentials, CoreError>)
    ensures
        r matches Err(e) ==> e is Secret,
        auth is Agent ==> r == Ok::<Credentials, CoreError>(Credentials::Agent),
        (auth matches SshAuth::Key { passphrase_account: None, .. }) ==> r == Ok::<
            Credentials,
            CoreError,
        >(Credentials::Key { path: auth->Key_path, passphrase: None }),
        (auth matches SshAuth::Key { passphrase_account: Some(_), .. }) && r is Ok ==> (r->Ok_0 matches Credentials::Key {
            path,
            passphrase: Some(_),
        } && path == auth->Key_path),
        r matches Ok(c) ==> exists|pw: Option<String>, pp: Option<String>|
            (auth is Password ==> pw is Some) && c == spec_credentials(*auth, pw, pp),
{
    let reads = credential_reads(auth);
    let password = match (&reads.password, auth) {
        (Some(e), SshAuth::Password { keychain_account }) => Some(
            read_auth_secret(auth, keychain_account.as_str(), e),
        ),
        _ => None,
    };
    let passphrase = match (&reads.passphrase, auth) {
        (Some(e), SshAuth::Key { passphrase_account: Some(a), .. }) => Some(
            read_auth_secret(auth, a.as_str(), e),
        ),
        _ => None,
    };
    resolve_credentials(auth, password, passphrase)
}

} // verus!
