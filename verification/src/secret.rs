//! Secrets (SSH passwords and key passphrases) in the OS keychain.
//!
//! Secrets are never kept in a [`crate::model::JobSpec`]; the spec carries
//! only a keychain account name, and the value is loaded when it is needed.
//! What is asked of the keychain (which entry, which value) and what each of
//! its answers means are decided by verified functions; the keychain calls
//! themselves go through `keyring`.

use vstd::prelude::*;

use crate::error::CoreError;
use crate::model::SshAuth;

verus! {

/// The keychain service under which every secret of the application lives.
pub const SERVICE: &'static str = "file_transfer";

/// One keychain entry: a service and an account within it.
#[derive(Debug)]
pub struct KeychainEntry {
    pub service: String,
    pub account: String,
}

/// Storing `secret` in `entry`, replacing what was there.
#[derive(Debug)]
pub struct KeychainWrite {
    pub entry: KeychainEntry,
    pub secret: String,
}

/// Why the keychain did not delete a credential.
#[derive(Debug, PartialEq, Eq)]
pub enum DeleteFailure {
    /// Nothing was stored under the account.
    NoEntry,
    /// Any other failure, with the keychain's description of it.
    Other(String),
}

/// The application's entry for `account`.
pub open spec fn entry_for(account: Seq<char>, e: KeychainEntry) -> bool {
    e.service@ == "file_transfer"@ && e.account@ == account
}

/// The keychain entry that holds the secret of `account`: the account under
/// the application's service.
pub fn keychain_entry(account: &str) -> (e: KeychainEntry)
    ensures
        entry_for(account@, e),
{
    proof {
        reveal_strlit("file_transfer");
    }
    KeychainEntry { service: SERVICE.to_owned(), account: account.to_owned() }
}

/// What storing `secret` under `account` asks of the keychain: the secret,
/// unchanged, into the application's entry for the account.
pub fn store_request(account: &str, secret: &str) -> (w: KeychainWrite)
    ensures
        entry_for(account@, w.entry),
        w.secret@ == secret@,
{
    KeychainWrite { entry: keychain_entry(account), secret: secret.to_owned() }
}

/// What the keychain's answer to a write means to the caller: done, or an
/// error that carries the keychain's description.
pub fn store_outcome(answer: Result<(), String>) -> (out: Result<(), CoreError>)
    ensures
        answer is Ok ==> out is Ok,
        answer matches Err(t) ==> (out matches Err(CoreError::Secret(m)) && m@ == t@),
{
    match answer {
        Ok(()) => Ok(()),
        Err(t) => Err(CoreError::Secret(t)),
    }
}

/// What the keychain's answer to a read means to the caller: the secret it
/// gave back, unchanged, or an error that carries the keychain's description.
pub fn load_outcome(answer: Result<String, String>) -> (out: Result<String, CoreError>)
    ensures
        answer matches Ok(secret) ==> (out matches Ok(s) && s@ == secret@),
        answer matches Err(t) ==> (out matches Err(CoreError::Secret(m)) && m@ == t@),
{
    match answer {
        Ok(secret) => Ok(secret),
        Err(t) => Err(CoreError::Secret(t)),
    }
}

/// What the keychain's answer to a delete means to the caller: a credential
/// that was not there counts as deleted; any other failure is an error that
/// carries the keychain's description.
pub fn delete_outcome(answer: Result<(), DeleteFailure>) -> (out: Result<(), CoreError>)
    ensures
        answer is Ok ==> out is Ok,
        answer matches Err(DeleteFailure::NoEntry) ==> out is Ok,
        answer matches Err(DeleteFailure::Other(t)) ==> (out matches Err(CoreError::Secret(m))
            && m@ == t@),
{
    match answer {
        Ok(()) => Ok(()),
        Err(DeleteFailure::NoEntry) => Ok(()),
        Err(DeleteFailure::Other(t)) => Err(CoreError::Secret(t)),
    }
}

/// `keyring::Entry`, a handle on one credential.
#[verifier::external_type_specification]
#[verifier::external_body]
pub struct ExKeyringEntry(keyring::Entry);

/// `keyring::Entry::new` for the service and account of `entry`; an error
/// comes back as its `Display` text. Nothing is stated of the result: it
/// depends on the platform's keychain.
#[verifier::external_body]
fn entry_new(entry: &KeychainEntry) -> Result<keyring::Entry, String> {
    match keyring::Entry::new(&entry.service, &entry.account) {
        Ok(e) => Ok(e),
        Err(e) => Err(e.to_string()),
    }
}

/// `keyring::Entry::set_password`; an error comes back as its `Display`
/// text. Whether it succeeds depends on the keychain.
#[verifier::external_body]
fn entry_set_password(entry: &keyring::Entry, secret: &str) -> Result<(), String> {
    match entry.set_password(secret) {
        Ok(()) => Ok(()),
        Err(e) => Err(e.to_string()),
    }
}

/// `keyring::Entry::get_password`: the stored secret, or the error's
/// `Display` text. What comes back depends on the keychain.
#[verifier::external_body]
fn entry_get_password(entry: &keyring::Entry) -> Result<String, String> {
    match entry.get_password() {
        Ok(secret) => Ok(secret),
        Err(e) => Err(e.to_string()),
    }
}

/// `keyring::Entry::delete_credential`. Its `keyring::Error::NoEntry` comes
/// back as [`DeleteFailure::NoEntry`], every other error as
/// [`DeleteFailure::Other`] with the error's `Display` text. Whether it
/// succeeds depends on the keychain.
#[verifier::external_body]
fn entry_delete_credential(entry: &keyring::Entry) -> Result<(), DeleteFailure> {
    match entry.delete_credential() {
        Ok(()) => Ok(()),
        Err(keyring::Error::NoEntry) => Err(DeleteFailure::NoEntry),
        Err(e) => Err(DeleteFailure::Other(e.to_string())),
    }
}

/// Reads the secret of `account` from its entry: the secret, or the
/// keychain's description of what went wrong.
fn read_entry(account: &str, entry: &KeychainEntry) -> Result<String, String>
    requires
        entry_for(account@, *entry),
{
    let handle = entry_new(entry)?;
    entry_get_password(&handle)
}

/// `auth` keeps a secret under the keychain account `account`: the password
/// account of a password, or the passphrase account of a key.
pub open spec fn names_account(auth: SshAuth, account: Seq<char>) -> bool {
    ||| (auth matches SshAuth::Password { keychain_account } && keychain_account@ == account)
    ||| (auth matches SshAuth::Key { passphrase_account: Some(a), .. } && a@ == account)
}

/// Reads the secret that `auth` keeps under `account` from that account's
/// entry.
pub(crate) fn read_auth_secret(auth: &SshAuth, account: &str, entry: &KeychainEntry) -> Result<
    String,
    String,
>
    requires
        names_account(*auth, account@),
        entry_for(account@, *entry),
{
    read_entry(account, entry)
}

/// Writes `secret` for `account`: `write` is the request [`store_request`]
/// gives for them.
fn write_entry(account: &str, secret: &str, write: &KeychainWrite) -> Result<(), String>
    requires
        entry_for(account@, write.entry),
        write.secret@ == secret@,
{
    match entry_new(&write.entry) {
        Ok(handle) => entry_set_password(&handle, write.secret.as_str()),
        Err(t) => Err(t),
    }
}

/// Store a secret under `account`, overwriting any existing value: the
/// write [`store_request`] describes, with the answer read by
/// [`store_outcome`].
pub fn store(account: &str, secret: &str) -> (r: Result<(), CoreError>)
    ensures
        r matches Err(e) ==> e is Secret,
{
    let write = store_request(account, secret);
    store_outcome(write_entry(account, secret, &write))
}

/// Load the secret stored under `account`: the entry [`keychain_entry`]
/// names is read, and the answer is read by [`load_outcome`].
pub fn load(account: &str) -> (r: Result<String, CoreError>)
    ensures
        r matches Err(e) ==> e is Secret,
{
    load_outcome(read_entry(account, &keychain_entry(account)))
}

/// Delete the secret stored under `account`. Missing entries are ignored:
/// the entry [`keychain_entry`] names is deleted, and the answer is read by
/// [`delete_outcome`].
pub fn delete(account: &str) -> (r: Result<(), CoreError>)
    ensures
        r matches Err(e) ==> e is Secret,
{
    let answer = match entry_new(&keychain_entry(account)) {
        Ok(handle) => entry_delete_credential(&handle),
        Err(t) => Err(DeleteFailure::Other(t)),
    };
    delete_outcome(answer)
}

} // verus!
