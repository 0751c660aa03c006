use tor_controller::process::{BootstrapMonitor, Error, TorProcess};
use tor_controller::utils::Error as E;
use tor_controller::utils::{parse_tor_version, system_tor_version, TorVersion};

#[test]
fn test_parse_tor_version() {
    assert_eq!(parse_tor_version("0.2.7.6 (git-605ae665009853bd)").unwrap(),
               TorVersion {
                   major: 0,
                   minor: 2,
                   micro: 7,
                   patch_level: 6,
                   status_tag: None,
                   extra_info: Some("git-605ae665009853bd".to_string()),
               });
    assert_eq!(parse_tor_version("0.2.7.6-dev (git-605ae665009853bd)").unwrap(),
               TorVersion {
                   major: 0,
                   minor: 2,
                   micro: 7,
                   patch_level: 6,
                   status_tag: Some("dev".to_string()),
                   extra_info: Some("git-605ae665009853bd".to_string()),
               });
    assert_eq!(parse_tor_version("0.1.1.1-alpha").unwrap(),
               TorVersion {
                   major: 0,
                   minor: 1,
                   micro: 1,
                   patch_level: 1,
                   status_tag: Some("alpha".to_string()),
                   extra_info: None,
               });
    assert_eq!(parse_tor_version("0.1.2.1-alpha-dev").unwrap(),
               TorVersion {
                   major: 0,
                   minor: 1,
                   micro: 2,
                   patch_level: 1,
                   status_tag: Some("alpha-dev".to_string()),
                   extra_info: None,
               });
    assert_eq!(parse_tor_version("0.1.2.1").unwrap(),
               TorVersion {
                   major: 0,
                   minor: 1,
                   micro: 2,
                   patch_level: 1,
                   status_tag: None,
                   extra_info: None,
               });
}

#[test]
fn versions_of_another_form_are_rejected() {
    for bad in ["", "0.1.2", "0.1.2.", "a.1.2.3", "0.1.2.3 ", "0.1.2.3 (x", "0.1.2.3 x)", "0.1.2.3-a b", "0..2.3"] {
        assert_eq!(parse_tor_version(bad), Err(E::RegexCapture), "{:?}", bad);
    }
    assert_eq!(parse_tor_version("0.1.2.65536"), Err(E::NumberTooLarge));
    let v = parse_tor_version("10.20.30.65535- ()").unwrap();
    assert_eq!((v.major, v.minor, v.micro, v.patch_level), (10, 20, 30, 65535));
    assert_eq!((v.status_tag, v.extra_info), (Some(String::new()), Some(String::new())));
}

#[test]
fn versions_compare_field_by_field() {
    let a = parse_tor_version("0.2.9.1").unwrap();
    let b = parse_tor_version("0.2.10.0").unwrap();
    assert!(a < b);
}

#[test]
fn version_in_the_daemon_output() {
    let v = system_tor_version("Tor version 0.3.5.8-rc (git-1234).\n").unwrap();
    assert_eq!((v.micro, v.status_tag, v.extra_info), (5, Some("rc".to_string()), Some("git-1234".to_string())));
    assert_eq!(system_tor_version("Tor version"), Err(E::TorVersionTooShort));
    assert_eq!(system_tor_version("Tor version .\n"), Err(E::RegexCapture));
}

#[test]
fn process_is_configured_step_by_step() {
    let mut p = TorProcess::new();
    assert_eq!((p.program(), p.timeout_seconds(), p.arguments().len()), ("tor", 0, 0));
    assert_eq!(p.monitor().completion_percent, 100);
    p.tor_cmd("/usr/bin/tor").torrc_path("torrc").arg("--quiet".to_string())
        .args(vec!["a".to_string(), "b".to_string()]).completion_percent(50).timeout(5);
    assert_eq!((p.program(), p.timeout_seconds()), ("/usr/bin/tor", 5));
    assert_eq!(p.arguments(), vec!["-f", "torrc", "--quiet", "a", "b"]);
    assert_eq!(p.monitor().completion_percent, 50);
}

#[test]
fn monitor_reads_the_log() {
    let ts = "May 16 02:50:08.792 ";
    let mut m = BootstrapMonitor { completion_percent: 50, warnings: vec![] };
    let mut see = |text: &str| m.observe(&format!("{}{}\n", ts, text));
    assert_eq!(see("[notice] Tor 0.3 opening log"), Ok(false));
    assert_eq!(see("[notice] Bootstrapped 45%: Asking"), Ok(false));
    assert_eq!(see("[warn] one"), Ok(false));
    assert_eq!(see("[warn] two"), Ok(false));
    assert_eq!(see("[notice]"), Ok(false));
    assert_eq!(see(""), Ok(false));
    assert_eq!(see("[notice] Bootstrapped 50%: Loading"), Ok(true));
    assert_eq!(see("[notice] Bootstrapped 100%: Done"), Ok(true));
    assert_eq!(see("[notice] Bootstrapped 50%"), Err(Error::InvalidBootstrapLine("[notice] Bootstrapped 50%".to_string())));
    assert_eq!(see("[notice] Bootstrapped 256%: x"), Err(Error::InvalidBootstrapLine("[notice] Bootstrapped 256%: x".to_string())));
    assert_eq!(see("[err] boom"), Err(Error::Tor("[err] boom".to_string(), vec!["[warn] one".to_string(), "[warn] two".to_string()])));
    assert_eq!(m.observe("May 16 02:50:08.792 "), Err(Error::InvalidLogLine));
    assert_eq!(m.warnings.len(), 0);
}
