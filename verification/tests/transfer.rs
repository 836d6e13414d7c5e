use file_transfer::error::CoreError;
use file_transfer::model::{DestinationSpec, SshAuth, SshConfig};
use file_transfer::transfer::{
    auth_rejected, build, credential_reads, credentials_from, load_credentials, host_key_verdict, remote_dir_chain, remote_dir_error,
    resolve_credentials, ssh_err, trim_trailing_slashes, Credentials, Destination, HostKeyCheck,
    LocalDestination, SshDestination,
};

fn ssh_config() -> SshConfig {
    SshConfig {
        host: "example.com".into(),
        port: 22,
        user: "alice".into(),
        remote_dir: "/srv/archives".into(),
        auth: SshAuth::Agent,
    }
}

fn ssh_spec() -> DestinationSpec {
    DestinationSpec::Ssh(ssh_config())
}

#[test]
fn build_returns_ssh_backend() {
    // Construction opens no connection; staging stays in the temporary directory.
    let temp = "/tmp/staging".to_string();
    let dest = build(&ssh_spec());
    assert!(matches!(dest, Destination::Ssh(_)));
    let staged = dest.stage_path("data_2026-06-28_120000.zip", &temp);
    assert!(std::path::Path::new(&staged).starts_with(&temp));
    assert!(staged.ends_with("data_2026-06-28_120000.zip.part"));
}

#[test]
fn local_finalize_rejects_overwrite() {
    let dest = LocalDestination { dir: "/tmp/ft_local".into() };
    let staged = dest.stage_path("a.zip");
    assert_eq!(staged, "/tmp/ft_local/.a.zip.part");
    let out = dest.finalize_target("a.zip", false).unwrap();
    assert_eq!(out, "/tmp/ft_local/a.zip");

    // A second archive with the same name must not overwrite the first.
    let err = dest.finalize_target("a.zip", true);
    assert!(matches!(err, Err(CoreError::DestinationExists(ref n)) if n == "a.zip"));
}

#[test]
fn build_returns_local_backend() {
    let dest = build(&DestinationSpec::Local { dir: "/data/out".into() });
    match &dest {
        Destination::Local(l) => assert_eq!(l.dir, "/data/out"),
        _ => panic!("expected a local backend"),
    }
    assert_eq!(dest.stage_path("x.zip", "/ignored"), "/data/out/.x.zip.part");
}

#[test]
fn ssh_paths_and_display() {
    let mut cfg = ssh_config();
    cfg.remote_dir = "/srv/archives//".into();
    cfg.port = 2222;
    let dest = SshDestination { cfg };
    assert_eq!(dest.remote_dir(), "/srv/archives");
    assert_eq!(dest.remote_final("a.zip"), "/srv/archives/a.zip");
    assert_eq!(dest.remote_staging("a.zip"), "/srv/archives/.a.zip.part");
    assert_eq!(
        dest.finalize_target("a.zip", false).unwrap(),
        "ssh://alice@example.com:2222/srv/archives/a.zip"
    );
    assert!(matches!(
        dest.finalize_target("a.zip", true),
        Err(CoreError::DestinationExists(ref n)) if n == "a.zip"
    ));
    assert_eq!(dest.stage_path("a.zip", "/tmp"), "/tmp/.ft-a.zip.part");
}

#[test]
fn trims_trailing_slashes() {
    assert_eq!(trim_trailing_slashes("/srv/a///"), "/srv/a");
    assert_eq!(trim_trailing_slashes("/srv/a"), "/srv/a");
    assert_eq!(trim_trailing_slashes("///"), "");
    assert_eq!(trim_trailing_slashes(""), "");
}

#[test]
fn remote_dirs_to_create() {
    assert_eq!(remote_dir_chain("/srv/archives"), vec!["/srv", "/srv/archives"]);
    assert_eq!(remote_dir_chain("srv//a/b/"), vec!["/srv", "/srv/a", "/srv/a/b"]);
    assert_eq!(remote_dir_chain("/"), Vec::<String>::new());
    assert_eq!(remote_dir_chain(""), Vec::<String>::new());
    assert_eq!(remote_dir_chain("x"), vec!["/x"]);
}

#[test]
fn host_key_decisions() {
    assert!(host_key_verdict("h", Some(HostKeyCheck::Match)).is_ok());
    assert!(host_key_verdict("h", Some(HostKeyCheck::NotFound)).is_ok());
    assert!(host_key_verdict("h", Some(HostKeyCheck::Failure)).is_ok());
    match host_key_verdict("example.com", Some(HostKeyCheck::Mismatch)) {
        Err(CoreError::Ssh(m)) => {
            assert_eq!(m, "host key mismatch for example.com \u{2014} possible man-in-the-middle")
        }
        _ => panic!("a mismatch must be refused"),
    }
    match host_key_verdict("h", None) {
        Err(CoreError::Ssh(m)) => assert_eq!(m, "no host key offered"),
        _ => panic!("a missing host key must be refused"),
    }
}

#[test]
fn ssh_error_texts() {
    match remote_dir_error("/srv", "no such file") {
        CoreError::Ssh(m) => assert_eq!(m, "remote directory /srv unavailable: no such file"),
        _ => panic!(),
    }
    match ssh_err("timeout") {
        CoreError::Ssh(m) => assert_eq!(m, "timeout"),
        _ => panic!(),
    }
    match auth_rejected() {
        CoreError::Auth(m) => assert_eq!(m, "server rejected the credentials"),
        _ => panic!(),
    }
}

#[test]
fn credentials_without_keychain() {
    let reads = credential_reads(&SshAuth::Agent);
    assert!(reads.password.is_none() && reads.passphrase.is_none());
    assert!(matches!(resolve_credentials(&SshAuth::Agent, None, None), Ok(Credentials::Agent)));
    let key = SshAuth::Key { path: "/home/a/.ssh/id_ed25519".into(), passphrase_account: None };
    let reads = credential_reads(&key);
    assert!(reads.password.is_none() && reads.passphrase.is_none());
    match resolve_credentials(&key, None, None) {
        Ok(Credentials::Key { path, passphrase }) => {
            assert_eq!(path, "/home/a/.ssh/id_ed25519");
            assert!(passphrase.is_none());
        }
        _ => panic!("a key without passphrase needs no keychain"),
    }
}

#[test]
fn credentials_read_the_named_accounts() {
    let pw = SshAuth::Password { keychain_account: "acct".into() };
    let reads = credential_reads(&pw);
    let e = reads.password.expect("a password account is read");
    assert_eq!((e.service.as_str(), e.account.as_str()), ("file_transfer", "acct"));
    assert!(reads.passphrase.is_none());
    match resolve_credentials(&pw, Some(Ok("hunter2".into())), None) {
        Ok(Credentials::Password { password }) => assert_eq!(password, "hunter2"),
        _ => panic!("a password account gives its password"),
    }
    match resolve_credentials(&pw, Some(Err("locked".into())), None) {
        Err(CoreError::Secret(m)) => assert_eq!(m, "locked"),
        _ => panic!("a failed read is a keychain error"),
    }

    let key = SshAuth::Key { path: "/k".into(), passphrase_account: Some("pp".into()) };
    let reads = credential_reads(&key);
    let e = reads.passphrase.expect("a passphrase account is read");
    assert_eq!((e.service.as_str(), e.account.as_str()), ("file_transfer", "pp"));
    assert!(reads.password.is_none());
    match resolve_credentials(&key, None, Some(Ok("open sesame".into()))) {
        Ok(Credentials::Key { path, passphrase }) => {
            assert_eq!(path, "/k");
            assert_eq!(passphrase.as_deref(), Some("open sesame"));
        }
        _ => panic!("a key account gives its key and passphrase"),
    }
    match resolve_credentials(&key, None, Some(Err("denied".into()))) {
        Err(CoreError::Secret(m)) => assert_eq!(m, "denied"),
        _ => panic!("a failed read is a keychain error"),
    }
}

#[test]
fn credentials_carry_the_loaded_secrets() {
    let pw = SshAuth::Password { keychain_account: "acct".into() };
    match credentials_from(&pw, Some("hunter2".into()), None) {
        Credentials::Password { password } => assert_eq!(password, "hunter2"),
        _ => panic!("a password account gives a password"),
    }
    let key = SshAuth::Key { path: "/k".into(), passphrase_account: Some("pp".into()) };
    match credentials_from(&key, None, Some("open sesame".into())) {
        Credentials::Key { path, passphrase } => {
            assert_eq!(path, "/k");
            assert_eq!(passphrase.as_deref(), Some("open sesame"));
        }
        _ => panic!("a key account gives a key"),
    }
    let bare = SshAuth::Key { path: "/k".into(), passphrase_account: None };
    match credentials_from(&bare, None, Some("unused".into())) {
        Credentials::Key { passphrase, .. } => assert!(passphrase.is_none()),
        _ => panic!("a key account gives a key"),
    }
    assert!(matches!(credentials_from(&SshAuth::Agent, None, None), Credentials::Agent));
}

#[test]
fn loading_credentials_without_secrets_needs_no_keychain() {
    assert!(matches!(load_credentials(&SshAuth::Agent), Ok(Credentials::Agent)));
    let key = SshAuth::Key { path: "/k".into(), passphrase_account: None };
    match load_credentials(&key) {
        Ok(Credentials::Key { path, passphrase }) => {
            assert_eq!(path, "/k");
            assert!(passphrase.is_none());
        }
        _ => panic!("a key without passphrase needs no keychain"),
    }
    let pw = SshAuth::Password { keychain_account: "ft-test-missing-account".into() };
    assert!(matches!(load_credentials(&pw), Err(CoreError::Secret(_))));
}
