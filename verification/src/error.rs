//! Core error type.

use vstd::prelude::*;

verus! {

/// `std::io::Error`, carried through unchanged.
#[verifier::external_type_specification]
#[verifier::external_body]
pub struct ExIoError(std::io::Error);

/// What can go wrong while packing and delivering an archive.
#[derive(Debug)]
pub enum CoreError {
    /// An I/O operation failed.
    Io(std::io::Error),
    /// The source is not a directory.
    NotADirectory(String),
    /// The destination already holds a file of that name.
    DestinationExists(String),
    /// The job was canceled.
    Canceled,
    /// An SSH or SFTP operation failed.
    Ssh(String),
    /// The SSH server did not accept the credentials.
    Auth(String),
    /// The keychain could not store, load or delete a secret.
    Secret(String),
    /// A file or the archive exceeds what a standard ZIP can record
    /// (4 GB per file and per archive, 65535 entries, 65535-byte names).
    TooLarge,
}

/// Whether `m` is the message of `e`: a fixed prefix for the kind, then the
/// detail it carries (for an I/O error, the system's description, which the
/// library does not fix).
pub open spec fn describes(e: CoreError, m: Seq<char>) -> bool {
    match e {
        CoreError::Io(_) => m.len() >= 11 && m.subrange(0, 11) == "I/O error: "@,
        CoreError::NotADirectory(p) => m == "source is not a directory: "@ + p@,
        CoreError::DestinationExists(n) => m == "destination already contains the file: "@ + n@,
        CoreError::Canceled => m == "operation canceled"@,
        CoreError::Ssh(s) => m == "SSH error: "@ + s@,
        CoreError::Auth(s) => m == "SSH authentication failed: "@ + s@,
        CoreError::Secret(s) => m == "keychain error: "@ + s@,
        CoreError::TooLarge => m
            == "archive exceeds the limits of a standard ZIP (4 GB, 65535 entries)"@,
    }
}

/// The text of an I/O error (its `Display` form).
#[verifier::external_body]
fn io_error_text(e: &std::io::Error) -> String {
    e.to_string()
}

impl CoreError {
    /// The message of the error: a fixed prefix for the kind, then the detail
    /// it carries.
    pub fn message(&self) -> (m: String)
        ensures
            describes(*self, m@),
    {
        let mut m = String::new();
        match self {
            CoreError::Io(e) => {
                crate::text::push_str(&mut m, "I/O error: ");
                proof {
                    reveal_strlit("I/O error: ");
                }
                let detail = io_error_text(e);
                let ghost head = m@;
                crate::text::push_str(&mut m, detail.as_str());
                assert(m@.subrange(0, 11) =~= head);
            },
            CoreError::NotADirectory(p) => {
                crate::text::push_str(&mut m, "source is not a directory: ");
                crate::text::push_str(&mut m, p.as_str());
            },
            CoreError::DestinationExists(n) => {
                crate::text::push_str(&mut m, "destination already contains the file: ");
                crate::text::push_str(&mut m, n.as_str());
            },
            CoreError::Canceled => {
                crate::text::push_str(&mut m, "operation canceled");
            },
            CoreError::Ssh(s) => {
                crate::text::push_str(&mut m, "SSH error: ");
                crate::text::push_str(&mut m, s.as_str());
            },
            CoreError::Auth(s) => {
                crate::text::push_str(&mut m, "SSH authentication failed: ");
                crate::text::push_str(&mut m, s.as_str());
            },
            CoreError::Secret(s) => {
                crate::text::push_str(&mut m, "keychain error: ");
                crate::text::push_str(&mut m, s.as_str());
            },
            CoreError::TooLarge => {
                crate::text::push_str(
                    &mut m,
                    "archive exceeds the limits of a standard ZIP (4 GB, 65535 entries)",
                );
            },
        }
        m
    }
}

} // verus!
