use krugg_lcu::client::ClientBuildError;
use krugg_lcu::lockfile::parse;
use krugg_lcu::supervisor::Notification;
use krugg_lcu::supervisor::Signal;
use krugg_lcu::supervisor::Supervisor;

// Amazon Root CA 3, a public root certificate; stands in for the pinned
// API certificate so client construction succeeds.
const VALID_PEM: &[u8] = b"-----BEGIN CERTIFICATE-----
MIIBtjCCAVugAwIBAgITBmyf1XSXNmY/Owua2eiedgPySjAKBggqhkjOPQQDAjA5
MQswCQYDVQQGEwJVUzEPMA0GA1UEChMGQW1hem9uMRkwFwYDVQQDExBBbWF6b24g
Um9vdCBDQSAzMB4XDTE1MDUyNjAwMDAwMFoXDTQwMDUyNjAwMDAwMFowOTELMAkG
A1UEBhMCVVMxDzANBgNVBAoTBkFtYXpvbjEZMBcGA1UEAxMQQW1hem9uIFJvb3Qg
Q0EgMzBZMBMGByqGSM49AgEGCCqGSM49AwEHA0IABCmXp8ZBf8ANm+gBG1bG8lKl
ui2yEujSLtf6ycXYqm0fc4E7O5hrOXwzpcVOho6AF2hiRVd9RFgdszflZwjrZt6j
QjBAMA8GA1UdEwEB/wQFMAMBAf8wDgYDVR0PAQH/BAQDAgGGMB0GA1UdDgQWBBSr
ttvXBp43rDCGB5Fwx5zEGbF4wDAKBggqhkjOPQQDAgNJADBGAiEA4IWSoxe3jfkr
BqWTrBqYaGFy+uGh0PsceGCmQ5nFuMQCIQCcAu/xlJyzlvnrxir4tiz+OpAUFteM
YyRIHN8wfdVoOw==
-----END CERTIFICATE-----
";

fn artifact(line: &str) -> krugg_lcu::lockfile::LockFile {
    parse("lockfile", line).unwrap()
}

fn fresh_client() -> reqwest::Client {
    reqwest::Client::new()
}

#[test]
fn first_install_connects_and_reports_credentials() {
    let mut s = Supervisor::new(Vec::new());
    assert!(!s.is_connected());
    assert!(s.client().is_none());
    assert!(s.base_url().is_none());

    let a = artifact("LeagueClientUx:1234:54321:abcxyz:https");
    let sigs = s.install(a, Ok(fresh_client()));
    assert_eq!(sigs.len(), 2);
    assert!(matches!(sigs[0], Signal::Connected));
    assert!(matches!(&sigs[1], Signal::CredentialsChanged(Some(lf)) if lf.port == 54321));
    assert!(s.is_connected());
    assert!(s.client().is_some());
    assert_eq!(s.base_url().unwrap(), "https://127.0.0.1:54321/");
    assert_eq!(s.artifact().unwrap().pid, 1234);
}

#[test]
fn same_artifact_twice_reports_once() {
    let mut s = Supervisor::new(Vec::new());
    let first = s.install(
        artifact("LeagueClientUx:1234:54321:abcxyz:https"),
        Ok(fresh_client()),
    );
    let second = s.install(
        artifact("LeagueClientUx:1234:54321:abcxyz:https"),
        Ok(fresh_client()),
    );
    let changed = first
        .iter()
        .chain(second.iter())
        .filter(|g| matches!(g, Signal::CredentialsChanged(_)))
        .count();
    assert_eq!(changed, 1);
    assert!(second.is_empty());
    assert!(s.is_connected());
}

#[test]
fn rotation_reports_twice_and_installs_latest() {
    let mut s = Supervisor::new(Vec::new());
    let first = s.install(
        artifact("LeagueClientUx:1234:54321:abcxyz:https"),
        Ok(fresh_client()),
    );
    let second = s.install(
        artifact("LeagueClientUx:5678:12345:other:https"),
        Ok(fresh_client()),
    );
    assert_eq!(first.len(), 2);
    assert_eq!(second.len(), 1);
    assert!(matches!(&second[0], Signal::CredentialsChanged(Some(lf)) if lf.port == 12345));
    assert_eq!(s.artifact().unwrap().pid, 5678);
    assert_eq!(s.artifact().unwrap().token, "other");
    assert_eq!(s.base_url().unwrap(), "https://127.0.0.1:12345/");
}

#[test]
fn gone_after_connected_disconnects_once() {
    let mut s = Supervisor::new(Vec::new());
    s.install(
        artifact("LeagueClientUx:1234:54321:abcxyz:https"),
        Ok(fresh_client()),
    );
    let sigs = s.reconcile(Notification::Gone);
    assert_eq!(sigs.len(), 1);
    assert!(matches!(sigs[0], Signal::Disconnected));
    assert!(!s.is_connected());
    assert!(s.client().is_none());
    assert!(s.base_url().is_none());
    assert!(s.artifact().is_none());

    let again = s.reconcile(Notification::Gone);
    assert!(again.is_empty());
}

#[test]
fn unparsed_is_a_no_op() {
    let mut s = Supervisor::new(Vec::new());
    assert!(s.reconcile(Notification::Unparsed).is_empty());
    s.install(
        artifact("LeagueClientUx:1234:54321:abcxyz:https"),
        Ok(fresh_client()),
    );
    assert!(s.reconcile(Notification::Unparsed).is_empty());
    assert!(s.is_connected());
}

#[test]
fn failed_build_clears_and_reports() {
    let mut s = Supervisor::new(Vec::new());
    s.install(
        artifact("LeagueClientUx:1234:54321:abcxyz:https"),
        Ok(fresh_client()),
    );
    let sigs = s.install(
        artifact("LeagueClientUx:5678:12345:other:https"),
        Err(ClientBuildError::Build),
    );
    assert_eq!(sigs.len(), 2);
    assert!(matches!(sigs[0], Signal::CredentialsChanged(None)));
    assert!(matches!(sigs[1], Signal::Disconnected));
    assert!(!s.is_connected());
    assert!(s.artifact().is_none());
}

#[test]
fn failed_build_while_disconnected_reports_without_disconnect() {
    let mut s = Supervisor::new(Vec::new());
    let sigs = s.install(
        artifact("LeagueClientUx:1234:54321:abcxyz:https"),
        Err(ClientBuildError::InvalidCertificate),
    );
    assert_eq!(sigs.len(), 1);
    assert!(matches!(sigs[0], Signal::CredentialsChanged(None)));
    assert!(!s.is_connected());
}

#[test]
fn reconcile_with_pinned_certificate_connects() {
    let mut s = Supervisor::new(VALID_PEM.to_vec());
    let sigs = s.reconcile(Notification::Parsed(artifact(
        "LeagueClientUx:1234:54321:abcxyz:https",
    )));
    assert_eq!(sigs.len(), 2);
    assert!(matches!(sigs[0], Signal::Connected));
    assert!(matches!(&sigs[1], Signal::CredentialsChanged(Some(_))));
    assert!(s.is_connected());
    assert_eq!(s.base_url().unwrap(), "https://127.0.0.1:54321/");

    let repeat = s.reconcile(Notification::Parsed(artifact(
        "LeagueClientUx:1234:54321:abcxyz:https",
    )));
    assert!(repeat.is_empty());
}

#[test]
fn reconcile_with_bad_certificate_reports_failure() {
    let corrupt_pem = b"-----BEGIN CERTIFICATE-----\n!!! not base64 !!!\n-----END CERTIFICATE-----\n";
    let mut s = Supervisor::new(corrupt_pem.to_vec());
    let sigs = s.reconcile(Notification::Parsed(artifact(
        "LeagueClientUx:1234:54321:abcxyz:https",
    )));
    assert_eq!(sigs.len(), 1);
    assert!(matches!(sigs[0], Signal::CredentialsChanged(None)));
    assert!(!s.is_connected());
}
